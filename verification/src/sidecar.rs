//! Reading the metadata of pages and sections from the store.
//!
//! The metadata file of a section stands beside its directory, under the
//! directory's path with `.menu_meta` appended. The metadata file of a page
//! stands beside its body files, under their path with the extension
//! `content_meta`. A section without a metadata file has the default metadata. A
//! page without one gets metadata made up from its path, and these are saved in
//! the store.

use crate::config::{localpath_to_webpath, web_path_of, SiteConfig};
use crate::error::SiteError;
use crate::keyed::{lemma_position_from, position_of, value_of};
use crate::meta::{
    default_content_meta, default_menu_meta, ContentMeta, ContentMetaView, MenuItemMeta,
    MenuItemMetaView,
};
use crate::paths::{parent, parent_of, stem_text_of, string_from_stem, with_extension, with_extension_of};
use crate::store::{with_page_meta, ContentStore, MenuRead, PageRead, Read, StoreView};
use crate::text::append_text;
use vstd::prelude::*;

verus! {

/// The path of the metadata file of the directory `dir`.
pub open spec fn menu_meta_path(dir: Seq<char>) -> Seq<char> {
    dir + ".menu_meta"@
}

/// The path of the metadata file of the page at the local path `full`.
pub open spec fn content_meta_path(full: Seq<char>) -> Seq<char> {
    with_extension_of(full, "content_meta"@)
}

/// What the section metadata file at `path` gives: its metadata, the default
/// where it cannot be parsed, a filesystem error where it is not there.
pub open spec fn menu_meta_read(store: StoreView, path: Seq<char>) -> Result<
    MenuItemMetaView,
    SiteError,
> {
    match value_of(store.menu_sidecars, path) {
        Some(Read::Parsed(meta)) => Ok(meta),
        Some(Read::Corrupt(_)) => Ok(default_menu_meta()),
        None => Err(SiteError::Filesystem),
    }
}

/// The metadata of the directory `dir`: what its metadata file gives, or the
/// default where it has none.
pub open spec fn menu_meta_for(store: StoreView, dir: Seq<char>) -> MenuItemMetaView {
    match menu_meta_read(store, menu_meta_path(dir)) {
        Ok(meta) => meta,
        Err(_) => default_menu_meta(),
    }
}

/// The metadata of the section of the page at `content_location`: that of the
/// directory the page is in.
pub open spec fn section_meta_for(store: StoreView, content_location: Seq<char>) -> MenuItemMetaView {
    menu_meta_for(store, parent_of(content_location))
}

/// The metadata that stand in for a page whose metadata file cannot be parsed:
/// the default, with a title that says so and the reason as its description.
pub open spec fn parse_error_meta(why: Seq<char>) -> ContentMetaView {
    ContentMetaView {
        title: "Error parsing metadata file"@,
        description: "JSON Parse Error: "@ + why,
        ..default_content_meta()
    }
}

/// What the page metadata file at `path` gives: its metadata, the stand-in
/// where it cannot be parsed, a filesystem error where it is not there.
pub open spec fn content_meta_read(store: StoreView, path: Seq<char>) -> Result<
    ContentMetaView,
    SiteError,
> {
    match value_of(store.page_sidecars, path) {
        Some(Read::Parsed(meta)) => Ok(meta),
        Some(Read::Corrupt(why)) => Ok(parse_error_meta(why)),
        None => Err(SiteError::Filesystem),
    }
}

/// The metadata made up for a page without a metadata file: the default, with
/// the stem of the file as its title and the web path as its path.
pub open spec fn fresh_content_meta(side: Seq<char>, web: Seq<char>) -> ContentMetaView {
    ContentMetaView { title: stem_text_of(side), path: web, ..default_content_meta() }
}

/// The metadata of the page at the local path `full`, and the store afterwards.
/// Where the page has a metadata file, it is read and the store stays as it is.
/// Where it has none, metadata are made up and saved; that fails with a
/// configuration error, and saves nothing, where the base directory does not
/// occur in the path.
pub open spec fn content_meta_for(store: StoreView, base: Seq<char>, full: Seq<char>) -> (
    Result<ContentMetaView, SiteError>,
    StoreView,
) {
    let side = content_meta_path(full);
    if position_of(store.page_sidecars, side) is Some {
        (content_meta_read(store, side), store)
    } else {
        match web_path_of(base, side) {
            Some(web) => (
                Ok(fresh_content_meta(side, web)),
                with_page_meta(store, side, fresh_content_meta(side, web)),
            ),
            None => (Err(SiteError::Configuration), store),
        }
    }
}

/// The value of a result that holds section metadata.
pub open spec fn menu_result_view(r: Result<MenuItemMeta, SiteError>) -> Result<
    MenuItemMetaView,
    SiteError,
> {
    match r {
        Ok(meta) => Ok(meta@),
        Err(e) => Err(e),
    }
}

/// The value of a result that holds page metadata.
pub open spec fn meta_result_view(r: Result<ContentMeta, SiteError>) -> Result<
    ContentMetaView,
    SiteError,
> {
    match r {
        Ok(meta) => Ok(meta@),
        Err(e) => Err(e),
    }
}

/// Reads the section metadata file at `file_path`. A file that cannot be parsed
/// gives the default metadata; a file that is not there is an error.
pub fn read_menu_meta_file(store: &ContentStore, file_path: &str) -> (r: Result<
    MenuItemMeta,
    SiteError,
>)
    ensures
        menu_result_view(r) == menu_meta_read(store@, file_path@),
{
    match store.menu_sidecar_position(file_path) {
        Some(i) => {
            assert(store@.menu_sidecars[i as int].1 == store.menu_sidecars@[i as int].content@);
            match &store.menu_sidecars[i].content {
                MenuRead::Parsed(meta) => Ok(meta.clone()),
                MenuRead::Corrupt(_) => Ok(MenuItemMeta::default()),
            }
        },
        None => Err(SiteError::Filesystem),
    }
}

/// The metadata of the directory at `meta_path_raw`: what its metadata file
/// gives, or the default where it has none.
pub fn add_menu_metadata(store: &ContentStore, meta_path_raw: &str) -> (r: MenuItemMeta)
    ensures
        r@ == menu_meta_for(store@, meta_path_raw@),
{
    let meta_path = append_text(meta_path_raw, ".menu_meta");
    match read_menu_meta_file(store, meta_path.as_str()) {
        Ok(meta) => meta,
        Err(_) => MenuItemMeta::default(),
    }
}

/// The metadata of the section that the page at `content_location` is in: the
/// metadata of its parent directory.
pub fn read_section_meta(store: &ContentStore, content_location: &str) -> (r: MenuItemMeta)
    ensures
        r@ == section_meta_for(store@, content_location@),
{
    let directory = parent(content_location);
    add_menu_metadata(store, directory.as_str())
}

/// Reads the page metadata file at `file_path`. A file that cannot be parsed
/// gives the default metadata with the reason as their description; a file that
/// is not there is an error.
pub fn read_content_meta_file(store: &ContentStore, file_path: &str) -> (r: Result<
    ContentMeta,
    SiteError,
>)
    ensures
        meta_result_view(r) == content_meta_read(store@, file_path@),
{
    match store.page_sidecar_position(file_path) {
        Some(i) => {
            assert(store@.page_sidecars[i as int].1 == store.page_sidecars@[i as int].content@);
            match &store.page_sidecars[i].content {
                PageRead::Parsed(meta) => Ok(meta.clone()),
                PageRead::Corrupt(why) => {
                    let mut error_meta = ContentMeta::default();
                    error_meta.description = append_text("JSON Parse Error: ", why.as_str());
                    error_meta.title = String::from_str("Error parsing metadata file");
                    Ok(error_meta)
                },
            }
        },
        None => Err(SiteError::Filesystem),
    }
}

/// The metadata of the page at the local path `full_path_string`. A page
/// without a metadata file gets the default metadata with its stem as title and
/// its web path as path, and these are saved in the store.
pub fn read_content_meta(
    store: &mut ContentStore,
    config: &SiteConfig,
    full_path_string: &str,
) -> (r: Result<ContentMeta, SiteError>)
    ensures
        (meta_result_view(r), final(store)@) == content_meta_for(
            old(store)@,
            config@.base_dir,
            full_path_string@,
        ),
{
    let this_path = with_extension(full_path_string, "content_meta");
    if store.page_sidecar_position(this_path.as_str()).is_some() {
        read_content_meta_file(store, this_path.as_str())
    } else {
        match localpath_to_webpath(config, this_path.as_str()) {
            Some(web) => {
                let mut new_meta = ContentMeta::default();
                new_meta.title = string_from_stem(this_path.as_str());
                new_meta.path = web;
                store.save_content_meta_file(this_path.as_str(), &new_meta);
                Ok(new_meta)
            },
            None => Err(SiteError::Configuration),
        }
    }
}

/// A page without a metadata file gets metadata on first access whose title is
/// the stem of the file and whose path is its web path, and they are saved. A
/// second access returns the same metadata and leaves the store as it is.
pub proof fn lemma_first_access_heals(store: StoreView, base: Seq<char>, full: Seq<char>)
    requires
        position_of(store.page_sidecars, content_meta_path(full)) is None,
        web_path_of(base, content_meta_path(full)) is Some,
    ensures
        ({
            let side = content_meta_path(full);
            let first = content_meta_for(store, base, full);
            let second = content_meta_for(first.1, base, full);
            &&& first.0 is Ok
            &&& first.0.unwrap().title == stem_text_of(side)
            &&& Some(first.0.unwrap().path) == web_path_of(base, side)
            &&& value_of(first.1.page_sidecars, side) == Some(Read::Parsed(first.0.unwrap()))
            &&& second.0 == first.0
            &&& second.1 == first.1
        }),
{
    let side = content_meta_path(full);
    let web = web_path_of(base, side).unwrap();
    let fresh = fresh_content_meta(side, web);
    lemma_position_from(store.page_sidecars, side, 0);
    let after = with_page_meta(store, side, fresh);
    assert(after.page_sidecars == store.page_sidecars.push((side, Read::Parsed(fresh))));
    lemma_position_from(after.page_sidecars, side, 0);
    assert(after.page_sidecars[store.page_sidecars.len() as int].0 == side);
    assert forall|j: int| 0 <= j < store.page_sidecars.len() implies after.page_sidecars[j].0
        != side by {
        assert(after.page_sidecars[j] == store.page_sidecars[j]);
    }
}

/// A page with a metadata file keeps it: an access reads it and leaves the store
/// as it is.
pub proof fn lemma_access_reads_only(store: StoreView, base: Seq<char>, full: Seq<char>)
    requires
        position_of(store.page_sidecars, content_meta_path(full)) is Some,
    ensures
        content_meta_for(store, base, full).1 == store,
        content_meta_for(store, base, full).0 is Ok,
{
}

} // verus!
