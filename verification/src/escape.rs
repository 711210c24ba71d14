//! Escaping of text for HTML and XML.

use vstd::prelude::*;

verus! {

/// What stands for one character in escaped text.
pub open spec fn escaped_char(c: char) -> Seq<char> {
    if c == '"' {
        seq!['&', 'q', 'u', 'o', 't', ';']
    } else if c == '&' {
        seq!['&', 'a', 'm', 'p', ';']
    } else if c == '\'' {
        seq!['&', '#', 'x', '2', '7', ';']
    } else if c == '/' {
        seq!['&', '#', 'x', '2', 'f', ';']
    } else if c == '<' {
        seq!['&', 'l', 't', ';']
    } else if c == '>' {
        seq!['&', 'g', 't', ';']
    } else {
        seq![c]
    }
}

/// The escaped form of a text: each character replaced by what stands for it.
pub open spec fn html_escaped(s: Seq<char>) -> Seq<char>
    decreases s.len(),
{
    if s.len() == 0 {
        Seq::empty()
    } else {
        html_escaped(s.drop_last()) + escaped_char(s.last())
    }
}

/// Calls `v_htmlescape::escape_string` on an empty buffer. The six characters
/// `"`, `&`, `'`, `/`, `<` and `>` come out as their entities, every other
/// character as itself.
#[verifier::external_body]
fn escape_text(text: &str) -> (escaped: String)
    ensures
        escaped@ == html_escaped(text@),
{
    let mut buffer = String::new();
    v_htmlescape::escape_string(text, &mut buffer);
    buffer
}

/// Escapes a text for HTML and XML.
pub fn escape(text: &str) -> (escaped: String)
    ensures
        escaped@ == html_escaped(text@),
{
    escape_text(text)
}

/// Text without any of the six escaped characters is its own escaped form.
pub proof fn lemma_plain_text_unchanged(s: Seq<char>)
    requires
        forall|i: int|
            0 <= i < s.len() ==> s[i] != '"' && s[i] != '&' && s[i] != '\'' && s[i] != '/' && s[i]
                != '<' && s[i] != '>',
    ensures
        html_escaped(s) == s,
    decreases s.len(),
{
    if s.len() > 0 {
        lemma_plain_text_unchanged(s.drop_last());
        assert(html_escaped(s) =~= s.drop_last() + seq![s.last()]);
        assert(s.drop_last() + seq![s.last()] =~= s);
    }
}

/// Escaped text is empty only where the text is.
pub proof fn lemma_escaped_empty(s: Seq<char>)
    ensures
        html_escaped(s).len() == 0 <==> s.len() == 0,
    decreases s.len(),
{
    if s.len() > 0 {
        assert(escaped_char(s.last()).len() > 0);
    }
}

} // verus!
