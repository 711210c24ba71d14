//! Turning markdown into HTML.

use vstd::prelude::*;

verus! {

/// The HTML that the `markdown` crate makes of a markdown text.
pub uninterp spec fn markdown_html(text: Seq<char>) -> Seq<char>;

/// Calls `markdown::to_html`, which compiles markdown to HTML by the CommonMark
/// rules. The HTML depends on the text alone.
#[verifier::external_body]
fn to_html(text: &str) -> (html: String)
    ensures
        html@ == markdown_html(text@),
{
    markdown::to_html(text)
}

/// The HTML of a markdown text.
pub fn markdown_to_html(text: &str) -> (html: String)
    ensures
        html@ == markdown_html(text@),
{
    to_html(text)
}

} // verus!
