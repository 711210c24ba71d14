//! The bodies of a page: markdown turned into HTML, raw HTML, raw JSON.
//!
//! The three bodies of a page stand beside each other under one path and differ
//! in their extension: `md`, `html` and `json`.

use crate::clock::{epoch, has_moment, iso_of, unix_time_to_iso, whole_seconds, UtcDateTime};
use crate::config::{local_root, webpath_to_localpath, SiteConfig, SiteConfigView};
use crate::error::SiteError;
use crate::file_tree::Timestamp;
use crate::keyed::{position_of, value_of};
use crate::markup::{markdown_html, markdown_to_html};
use crate::paths::{with_extension, with_extension_of};
use crate::store::{holds_directory, holds_file, BodyView, ContentStore, StoreView};
use crate::text::append_text;
use vstd::prelude::*;

verus! {

/// The markdown body of a page, turned into HTML.
#[derive(Clone, Debug, PartialEq, Eq)]
pub struct MDContent {
    pub created: UtcDateTime,
    pub modified: UtcDateTime,
    pub body: String,
}

/// The HTML body of a page.
#[derive(Clone, Debug, PartialEq, Eq)]
pub struct HTMLContent {
    pub created: UtcDateTime,
    pub modified: UtcDateTime,
    pub body: String,
}

/// The JSON body of a page.
#[derive(Clone, Debug, PartialEq, Eq)]
pub struct JSONContent {
    pub created: UtcDateTime,
    pub modified: UtcDateTime,
    pub body: String,
}

/// A directory as a page lists it.
#[derive(Clone, Debug, PartialEq, Eq)]
pub struct DirContent {
    pub modified: UtcDateTime,
    pub title: String,
    pub relative_path: String,
}

/// The mathematical value of a body: its text and its two times.
pub ghost struct BodyContentView {
    pub created: UtcDateTime,
    pub modified: UtcDateTime,
    pub body: Seq<char>,
}

impl View for MDContent {
    type V = BodyContentView;

    open spec fn view(&self) -> BodyContentView {
        BodyContentView { created: self.created, modified: self.modified, body: self.body@ }
    }
}

impl View for HTMLContent {
    type V = BodyContentView;

    open spec fn view(&self) -> BodyContentView {
        BodyContentView { created: self.created, modified: self.modified, body: self.body@ }
    }
}

impl View for JSONContent {
    type V = BodyContentView;

    open spec fn view(&self) -> BodyContentView {
        BodyContentView { created: self.created, modified: self.modified, body: self.body@ }
    }
}

/// A body with the given text and both times at the epoch.
pub open spec fn undated(body: Seq<char>) -> BodyContentView {
    BodyContentView { created: epoch(), modified: epoch(), body }
}

impl Default for MDContent {
    fn default() -> (r: Self)
        ensures
            r@ == undated("Default value"@),
    {
        MDContent {
            created: UtcDateTime::unix_epoch(),
            modified: UtcDateTime::unix_epoch(),
            body: String::from_str("Default value"),
        }
    }
}

impl Default for HTMLContent {
    fn default() -> (r: Self)
        ensures
            r@ == undated("None"@),
    {
        HTMLContent {
            created: UtcDateTime::unix_epoch(),
            modified: UtcDateTime::unix_epoch(),
            body: String::from_str("None"),
        }
    }
}

impl Default for JSONContent {
    fn default() -> (r: Self)
        ensures
            r@ == undated("None"@),
    {
        JSONContent {
            created: UtcDateTime::unix_epoch(),
            modified: UtcDateTime::unix_epoch(),
            body: String::from_str("None"),
        }
    }
}

/// The calendar moment of a time that was looked up: a filesystem error where
/// nothing was found or the time has no calendar moment.
pub open spec fn file_moment(found: Option<Timestamp>) -> Result<UtcDateTime, SiteError> {
    match found {
        Some(time) => match iso_of(time) {
            Some(moment) => Ok(moment),
            None => Err(SiteError::Filesystem),
        },
        None => Err(SiteError::Filesystem),
    }
}

/// The time of creation of the body file at `path`.
pub open spec fn creation_time(store: StoreView, path: Seq<char>) -> Option<Timestamp> {
    match value_of(store.bodies, path) {
        Some(body) => Some(body.created),
        None => None,
    }
}

/// The time of modification of the body file at `path`.
pub open spec fn modified_time(store: StoreView, path: Seq<char>) -> Option<Timestamp> {
    match value_of(store.bodies, path) {
        Some(body) => Some(body.modified),
        None => None,
    }
}

/// The text of the body file at `path`: a filesystem error where it is not
/// there.
pub open spec fn text_at(store: StoreView, path: Seq<char>) -> Result<Seq<char>, SiteError> {
    match value_of(store.bodies, path) {
        Some(body) => Ok(body.text),
        None => Err(SiteError::Filesystem),
    }
}

/// The text of the markdown file at `path` as HTML: a filesystem error where it
/// is not there.
pub open spec fn markdown_at(store: StoreView, path: Seq<char>) -> Result<Seq<char>, SiteError> {
    match value_of(store.bodies, path) {
        Some(body) => Ok(markdown_html(body.text)),
        None => Err(SiteError::Filesystem),
    }
}

/// The body made of a file and the given text: a filesystem error where one of
/// the file's times has no calendar moment.
pub open spec fn dated_body(file: BodyView, text: Seq<char>) -> Result<BodyContentView, SiteError> {
    if has_moment(file.created) && has_moment(file.modified) {
        Ok(
            BodyContentView {
                created: UtcDateTime { secs: whole_seconds(file.created) },
                modified: UtcDateTime { secs: whole_seconds(file.modified) },
                body: text,
            },
        )
    } else {
        Err(SiteError::Filesystem)
    }
}

/// The text of the body that stands in for a missing markdown file.
pub open spec fn missing_markdown(path: Seq<char>) -> Seq<char> {
    "Markdown file does not exist: "@ + path
}

/// The markdown body of the page at the local path `full`: the markdown file
/// as HTML, or a body that says that the file is missing.
pub open spec fn markdown_for(store: StoreView, full: Seq<char>) -> Result<
    BodyContentView,
    SiteError,
> {
    let path = with_extension_of(full, "md"@);
    match value_of(store.bodies, path) {
        None => Ok(undated(missing_markdown(path))),
        Some(file) => dated_body(file, markdown_html(file.text)),
    }
}

/// The raw body of the page at the local path `full` with the extension `ext`,
/// or nothing where the page has no such file.
pub open spec fn raw_body_for(store: StoreView, full: Seq<char>, ext: Seq<char>) -> Result<
    Option<BodyContentView>,
    SiteError,
> {
    let path = with_extension_of(full, ext);
    match value_of(store.bodies, path) {
        None => Ok(None),
        Some(file) => match dated_body(file, file.text) {
            Ok(content) => Ok(Some(content)),
            Err(e) => Err(e),
        },
    }
}

/// Whether the store holds a file of any kind at the local path `full` with its
/// extension replaced by `ext`.
pub open spec fn alternative_exists(store: StoreView, full: Seq<char>, ext: Seq<char>) -> bool {
    holds_file(store, with_extension_of(full, ext))
}

/// Whether the page at `webpath` has a markdown, an HTML or a JSON body.
pub open spec fn content_exists(store: StoreView, config: SiteConfigView, webpath: Seq<char>) -> bool {
    let full = local_root(config) + webpath;
    ||| position_of(store.bodies, with_extension_of(full, "md"@)) is Some
    ||| position_of(store.bodies, with_extension_of(full, "html"@)) is Some
    ||| position_of(store.bodies, with_extension_of(full, "json"@)) is Some
}

/// The value of a result that holds a text.
pub open spec fn text_result_view(r: Result<String, SiteError>) -> Result<Seq<char>, SiteError> {
    match r {
        Ok(text) => Ok(text@),
        Err(e) => Err(e),
    }
}

/// The value of a result that holds a markdown body.
pub open spec fn markdown_result_view(r: Result<MDContent, SiteError>) -> Result<
    BodyContentView,
    SiteError,
> {
    match r {
        Ok(content) => Ok(content@),
        Err(e) => Err(e),
    }
}

/// The value of an HTML body that may be missing.
pub open spec fn html_view(content: Option<HTMLContent>) -> Option<BodyContentView> {
    match content {
        Some(c) => Some(c@),
        None => None,
    }
}

/// The value of a JSON body that may be missing.
pub open spec fn json_view(content: Option<JSONContent>) -> Option<BodyContentView> {
    match content {
        Some(c) => Some(c@),
        None => None,
    }
}

/// The value of a result that holds an HTML body.
pub open spec fn html_result_view(r: Result<Option<HTMLContent>, SiteError>) -> Result<
    Option<BodyContentView>,
    SiteError,
> {
    match r {
        Ok(content) => Ok(html_view(content)),
        Err(e) => Err(e),
    }
}

/// The value of a result that holds a JSON body.
pub open spec fn json_result_view(r: Result<Option<JSONContent>, SiteError>) -> Result<
    Option<BodyContentView>,
    SiteError,
> {
    match r {
        Ok(content) => Ok(json_view(content)),
        Err(e) => Err(e),
    }
}

impl MDContent {
    /// The markdown body with the given times and the given HTML.
    pub fn from_html(created: UtcDateTime, modified: UtcDateTime, html: String) -> (r: MDContent)
        ensures
            r@ == (BodyContentView { created, modified, body: html@ }),
    {
        MDContent { created, modified, body: html }
    }
}

/// The calendar moment of a time that was looked up.
pub fn moment_of(found: Option<Timestamp>) -> (r: Result<UtcDateTime, SiteError>)
    ensures
        r == file_moment(found),
{
    match found {
        Some(time) => match unix_time_to_iso(time) {
            Some(moment) => Ok(moment),
            None => Err(SiteError::Filesystem),
        },
        None => Err(SiteError::Filesystem),
    }
}

/// The time of creation of the body file at `path`, as a calendar moment.
pub fn read_file_creation_time(store: &ContentStore, path: &str) -> (r: Result<
    UtcDateTime,
    SiteError,
>)
    ensures
        r == file_moment(creation_time(store@, path@)),
{
    match store.body_position(path) {
        Some(i) => {
            assert(store@.bodies[i as int].1 == store.bodies@[i as int]@);
            moment_of(Some(store.bodies[i].created))
        },
        None => moment_of(None),
    }
}

/// The time of modification of the body file at `path`, as a calendar moment.
pub fn read_file_modified_time(store: &ContentStore, path: &str) -> (r: Result<
    UtcDateTime,
    SiteError,
>)
    ensures
        r == file_moment(modified_time(store@, path@)),
{
    match store.body_position(path) {
        Some(i) => {
            assert(store@.bodies[i as int].1 == store.bodies@[i as int]@);
            moment_of(Some(store.bodies[i].modified))
        },
        None => moment_of(None),
    }
}

/// The text of the body file at `path`.
fn read_text(store: &ContentStore, path: &str) -> (r: Result<String, SiteError>)
    ensures
        text_result_view(r) == text_at(store@, path@),
{
    match store.body_position(path) {
        Some(i) => {
            assert(store@.bodies[i as int].1 == store.bodies@[i as int]@);
            Ok(store.bodies[i].text.clone())
        },
        None => Err(SiteError::Filesystem),
    }
}

/// The markdown file at `path`, turned into HTML.
pub fn read_markdown_from_path(store: &ContentStore, path: &str) -> (r: Result<String, SiteError>)
    ensures
        text_result_view(r) == markdown_at(store@, path@),
{
    match read_text(store, path) {
        Ok(text) => Ok(markdown_to_html(text.as_str())),
        Err(e) => Err(e),
    }
}

/// The text of the HTML file at `path`.
pub fn read_html_from_path(store: &ContentStore, path: &str) -> (r: Result<String, SiteError>)
    ensures
        text_result_view(r) == text_at(store@, path@),
{
    read_text(store, path)
}

/// The text of the JSON file at `path`.
pub fn read_json_from_path(store: &ContentStore, path: &str) -> (r: Result<String, SiteError>)
    ensures
        text_result_view(r) == text_at(store@, path@),
{
    read_text(store, path)
}

/// The text of the style sheet at `path`.
pub fn read_css_from_path(store: &ContentStore, path: &str) -> (r: Result<String, SiteError>)
    ensures
        text_result_view(r) == text_at(store@, path@),
{
    read_text(store, path)
}

/// The markdown body of the page at the local path `this_path_string`: its
/// markdown file as HTML, with the times of the file, or a body that says that
/// the file is missing.
pub fn read_markdown_content(store: &ContentStore, this_path_string: &str) -> (r: Result<
    MDContent,
    SiteError,
>)
    ensures
        markdown_result_view(r) == markdown_for(store@, this_path_string@),
{
    let markdown_path = with_extension(this_path_string, "md");
    match store.body_position(markdown_path.as_str()) {
        Some(i) => {
            assert(store@.bodies[i as int].1 == store.bodies@[i as int]@);
            let created = match read_file_creation_time(store, markdown_path.as_str()) {
                Ok(moment) => moment,
                Err(e) => {
                    return Err(e);
                },
            };
            let modified = match read_file_modified_time(store, markdown_path.as_str()) {
                Ok(moment) => moment,
                Err(e) => {
                    return Err(e);
                },
            };
            let body = match read_markdown_from_path(store, markdown_path.as_str()) {
                Ok(html) => html,
                Err(e) => {
                    return Err(e);
                },
            };
            Ok(MDContent::from_html(created, modified, body))
        },
        None => {
            let mut markdown_content = MDContent::default();
            markdown_content.body = append_text(
                "Markdown file does not exist: ",
                markdown_path.as_str(),
            );
            Ok(markdown_content)
        },
    }
}

/// The HTML body of the page at the local path `this_path_string`, or nothing
/// where the page has no HTML file.
pub fn read_html_content(store: &ContentStore, this_path_string: &str) -> (r: Result<
    Option<HTMLContent>,
    SiteError,
>)
    ensures
        html_result_view(r) == raw_body_for(store@, this_path_string@, "html"@),
{
    let html_path = with_extension(this_path_string, "html");
    match store.body_position(html_path.as_str()) {
        Some(i) => {
            assert(store@.bodies[i as int].1 == store.bodies@[i as int]@);
            let created = match read_file_creation_time(store, html_path.as_str()) {
                Ok(moment) => moment,
                Err(e) => {
                    return Err(e);
                },
            };
            let modified = match read_file_modified_time(store, html_path.as_str()) {
                Ok(moment) => moment,
                Err(e) => {
                    return Err(e);
                },
            };
            let body = match read_html_from_path(store, html_path.as_str()) {
                Ok(text) => text,
                Err(e) => {
                    return Err(e);
                },
            };
            Ok(Some(HTMLContent { created, modified, body }))
        },
        None => Ok(None),
    }
}

/// The JSON body of the page at the local path `this_path_string`, or nothing
/// where the page has no JSON file.
pub fn read_json_content(store: &ContentStore, this_path_string: &str) -> (r: Result<
    Option<JSONContent>,
    SiteError,
>)
    ensures
        json_result_view(r) == raw_body_for(store@, this_path_string@, "json"@),
{
    let json_path = with_extension(this_path_string, "json");
    match store.body_position(json_path.as_str()) {
        Some(i) => {
            assert(store@.bodies[i as int].1 == store.bodies@[i as int]@);
            let created = match read_file_creation_time(store, json_path.as_str()) {
                Ok(moment) => moment,
                Err(e) => {
                    return Err(e);
                },
            };
            let modified = match read_file_modified_time(store, json_path.as_str()) {
                Ok(moment) => moment,
                Err(e) => {
                    return Err(e);
                },
            };
            let body = match read_json_from_path(store, json_path.as_str()) {
                Ok(text) => text,
                Err(e) => {
                    return Err(e);
                },
            };
            Ok(Some(JSONContent { created, modified, body }))
        },
        None => Ok(None),
    }
}

/// Whether the store holds a file at `this_path` with its extension replaced
/// by `extension`.
pub fn check_path_alternatives(store: &ContentStore, this_path: &str, extension: &str) -> (r: bool)
    ensures
        r == alternative_exists(store@, this_path@, extension@),
{
    let alternative = with_extension(this_path, extension);
    store.has_file(alternative.as_str())
}

/// Whether the page at `potential_content_webpath` has a body in one of the
/// three formats.
pub fn does_content_exist(
    store: &ContentStore,
    config: &SiteConfig,
    potential_content_webpath: &str,
) -> (r: bool)
    ensures
        r == content_exists(store@, config@, potential_content_webpath@),
{
    let this_path = webpath_to_localpath(config, potential_content_webpath);
    let markdown_path = with_extension(this_path.as_str(), "md");
    if store.body_position(markdown_path.as_str()).is_some() {
        return true;
    }
    let html_path = with_extension(this_path.as_str(), "html");
    if store.body_position(html_path.as_str()).is_some() {
        return true;
    }
    let json_path = with_extension(this_path.as_str(), "json");
    if store.body_position(json_path.as_str()).is_some() {
        return true;
    }
    false
}

/// Whether `potential_content_webpath` is a directory of the content.
pub fn does_directory_exist(
    store: &ContentStore,
    config: &SiteConfig,
    potential_content_webpath: &str,
) -> (r: bool)
    ensures
        r == holds_directory(store@, local_root(config@) + potential_content_webpath@),
{
    let this_path = webpath_to_localpath(config, potential_content_webpath);
    store.has_directory(this_path.as_str())
}

} // verus!
