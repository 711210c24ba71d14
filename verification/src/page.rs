//! Pages: a page is put together from the metadata of its section, its own
//! metadata, its bodies, and the pages that its metadata list.
//!
//! The listed pages are put together in the same way, down to a given depth,
//! and ordered by weight. A listed path without a body of any kind is left out.

use crate::config::{local_root, webpath_to_localpath, SiteConfig, SiteConfigView};
use crate::content::{
    content_exists, does_content_exist, html_view, json_view, markdown_for, raw_body_for,
    read_html_content, read_json_content, read_markdown_content, undated, BodyContentView,
    HTMLContent, JSONContent, MDContent,
};
use crate::error::SiteError;
use crate::meta::{
    default_content_meta, default_menu_meta, ContentMeta, ContentMetaView, MenuItemMeta,
    MenuItemMetaView,
};
use crate::order::{ascending, lemma_placed_ascending, rank, rank_from};
use crate::sidecar::{content_meta_for, read_content_meta, read_section_meta, section_meta_for};
use crate::store::{ContentStore, StoreView};
use crate::text::texts;
use vstd::prelude::*;

verus! {

/// How deep the lists of pages may be nested where nothing else is asked for.
pub const LIST_DEPTH: usize = 32;

/// A page with all its parts.
#[derive(Debug, PartialEq, Eq)]
pub struct PageContent {
    pub markdown: MDContent,
    pub html: Option<HTMLContent>,
    pub json: Option<JSONContent>,
    pub list: Vec<PageContent>,
    pub meta: ContentMeta,
    pub section_meta: MenuItemMeta,
}

/// The mathematical value of a `PageContent`.
pub ghost struct PageView {
    pub markdown: BodyContentView,
    pub html: Option<BodyContentView>,
    pub json: Option<BodyContentView>,
    pub list: Seq<PageView>,
    pub meta: ContentMetaView,
    pub section_meta: MenuItemMetaView,
}

/// The values of a list of pages.
pub open spec fn pages_view(list: Seq<PageContent>) -> Seq<PageView>
    decreases list,
{
    Seq::new(
        list.len(),
        |i: int|
            if 0 <= i < list.len() {
                page_view(list[i])
            } else {
                arbitrary()
            },
    )
}

/// The value of a page.
pub open spec fn page_view(page: PageContent) -> PageView
    decreases page,
{
    PageView {
        markdown: page.markdown@,
        html: html_view(page.html),
        json: json_view(page.json),
        list: pages_view(page.list@),
        meta: page.meta@,
        section_meta: page.section_meta@,
    }
}

impl View for PageContent {
    type V = PageView;

    open spec fn view(&self) -> PageView {
        page_view(*self)
    }
}

impl Default for PageContent {
    fn default() -> (r: Self)
        ensures
            r@ == (PageView {
                markdown: undated("Default value"@),
                html: None,
                json: None,
                list: Seq::empty(),
                meta: default_content_meta(),
                section_meta: default_menu_meta(),
            }),
    {
        let r = PageContent {
            markdown: MDContent::default(),
            html: None,
            json: None,
            list: Vec::new(),
            meta: ContentMeta::default(),
            section_meta: MenuItemMeta::default(),
        };
        proof {
            assert(pages_view(r.list@) =~= Seq::<PageView>::empty());
        }
        r
    }
}

/// The weights of a list of pages.
pub open spec fn page_weights(pages: Seq<PageView>) -> Seq<u32> {
    Seq::new(pages.len(), |i: int| pages[i].meta.weight)
}

/// The pages with `page` placed among them by its weight: behind the pages of
/// that weight or a lower one.
pub open spec fn placed_page(pages: Seq<PageView>, page: PageView) -> Seq<PageView> {
    pages.insert(rank(page_weights(pages), page.meta.weight), page)
}

/// The page at the web path `this_path`, and the store afterwards. The lists of
/// pages may be nested `depth` deep; a page that lists pages beyond that is not
/// resolved.
pub open spec fn page_at(store: StoreView, config: SiteConfigView, this_path: Seq<char>, depth: nat) -> (
    Result<PageView, SiteError>,
    StoreView,
)
    decreases depth, 0nat, 0nat,
{
    let full = local_root(config) + this_path;
    let section_meta = section_meta_for(store, full);
    let found = content_meta_for(store, config.base_dir, full);
    let kept = found.1;
    match (found.0, markdown_for(kept, full), raw_body_for(kept, full, "html"@), raw_body_for(
        kept,
        full,
        "json"@,
    )) {
        (Err(e), _, _, _) => (Err(e), kept),
        (Ok(_), Err(e), _, _) => (Err(e), kept),
        (Ok(_), Ok(_), Err(e), _) => (Err(e), kept),
        (Ok(_), Ok(_), Ok(_), Err(e)) => (Err(e), kept),
        (Ok(meta), Ok(markdown), Ok(html), Ok(json)) => {
            if meta.content_list.len() == 0 {
                (
                    Ok(PageView { markdown, html, json, list: Seq::empty(), meta, section_meta }),
                    kept,
                )
            } else if depth == 0 {
                (Err(SiteError::CycleDetected), kept)
            } else {
                let listed = list_upto(
                    kept,
                    config,
                    meta.content_list,
                    meta.content_list.len(),
                    (depth - 1) as nat,
                );
                match listed.0 {
                    Ok(list) => (
                        Ok(PageView { markdown, html, json, list, meta, section_meta }),
                        listed.1,
                    ),
                    Err(e) => (Err(e), listed.1),
                }
            }
        },
    }
}

/// The pages of the first `n` listed web paths, ordered by weight, and the
/// store afterwards. A path without a body of any kind is left out.
pub open spec fn list_upto(
    store: StoreView,
    config: SiteConfigView,
    list: Seq<Seq<char>>,
    n: nat,
    depth: nat,
) -> (Result<Seq<PageView>, SiteError>, StoreView)
    decreases depth, 1nat, n,
{
    if n == 0 || n > list.len() {
        (Ok(Seq::empty()), store)
    } else {
        let before = list_upto(store, config, list, (n - 1) as nat, depth);
        match before.0 {
            Err(e) => before,
            Ok(pages) => {
                if !content_exists(before.1, config, list[n - 1]) {
                    before
                } else {
                    let found = page_at(before.1, config, list[n - 1], depth);
                    match found.0 {
                        Ok(page) => (Ok(placed_page(pages, page)), found.1),
                        Err(e) => (Err(e), found.1),
                    }
                }
            },
        }
    }
}

/// The value of a result that holds a page.
pub open spec fn page_result_view(r: Result<PageContent, SiteError>) -> Result<PageView, SiteError> {
    match r {
        Ok(page) => Ok(page@),
        Err(e) => Err(e),
    }
}

/// The value of a result that holds a list of pages.
pub open spec fn pages_result_view(r: Result<Vec<PageContent>, SiteError>) -> Result<
    Seq<PageView>,
    SiteError,
> {
    match r {
        Ok(list) => Ok(pages_view(list@)),
        Err(e) => Err(e),
    }
}

/// Once a listed page has failed, the failure is what the whole list comes to.
pub proof fn lemma_list_failure_stays(
    store: StoreView,
    config: SiteConfigView,
    list: Seq<Seq<char>>,
    k: nat,
    n: nat,
    depth: nat,
)
    requires
        k <= n <= list.len(),
        list_upto(store, config, list, k, depth).0 is Err,
    ensures
        list_upto(store, config, list, n, depth) == list_upto(store, config, list, k, depth),
    decreases n,
{
    if k < n {
        lemma_list_failure_stays(store, config, list, k, (n - 1) as nat, depth);
    }
}

/// Places a page among the pages of a list by its weight: behind the pages of
/// that weight or a lower one.
pub fn place_page(list: &mut Vec<PageContent>, page: PageContent)
    ensures
        pages_view(final(list)@) == placed_page(pages_view(old(list)@), page@),
{
    let ghost before = pages_view(list@);
    let ghost weights = page_weights(before);
    let weight: u32 = page.meta.weight;
    let mut i: usize = 0;
    while i < list.len() && list[i].meta.weight <= weight
        invariant
            i <= list.len(),
            list@ == old(list)@,
            before == pages_view(list@),
            weights == page_weights(before),
            weight == page@.meta.weight,
            rank_from(weights, weight, 0) == rank_from(weights, weight, i as int),
        decreases list.len() - i,
    {
        assert(weights[i as int] == list@[i as int].meta.weight);
        i = i + 1;
    }
    proof {
        if i < list.len() {
            assert(weights[i as int] == list@[i as int].meta.weight);
        }
        assert(rank(weights, weight) == i);
    }
    list.insert(i, page);
    proof {
        assert(pages_view(list@) =~= before.insert(i as int, page@));
    }
}

/// Puts together the page at the web path `this_path`: the metadata of its
/// section, its own metadata, its three bodies, and the pages that its metadata
/// list. `depth` says how deep the lists of pages may be nested.
pub fn read_single_page(
    store: &mut ContentStore,
    config: &SiteConfig,
    this_path: &str,
    depth: usize,
) -> (r: Result<PageContent, SiteError>)
    ensures
        (page_result_view(r), final(store)@) == page_at(
            old(store)@,
            config@,
            this_path@,
            depth as nat,
        ),
    decreases depth, 0int,
{
    let full_path_string = webpath_to_localpath(config, this_path);
    let full = full_path_string.as_str();
    let section_meta = read_section_meta(store, full);
    let meta = match read_content_meta(store, config, full) {
        Ok(found) => found,
        Err(e) => {
            return Err(e);
        },
    };
    let markdown = match read_markdown_content(store, full) {
        Ok(found) => found,
        Err(e) => {
            return Err(e);
        },
    };
    let html = match read_html_content(store, full) {
        Ok(found) => found,
        Err(e) => {
            return Err(e);
        },
    };
    let json = match read_json_content(store, full) {
        Ok(found) => found,
        Err(e) => {
            return Err(e);
        },
    };
    assert(meta@.content_list.len() == meta.content_list@.len());
    let list: Vec<PageContent> = if meta.content_list.len() > 0 {
        if depth == 0 {
            return Err(SiteError::CycleDetected);
        }
        match read_content_list(store, config, &meta.content_list, depth - 1) {
            Ok(found) => found,
            Err(e) => {
                return Err(e);
            },
        }
    } else {
        let empty: Vec<PageContent> = Vec::new();
        proof {
            assert(pages_view(empty@) =~= Seq::<PageView>::empty());
        }
        empty
    };
    Ok(PageContent { markdown, html, json, list, meta, section_meta })
}

/// Puts together the pages at the listed web paths and orders them by weight.
/// A path without a body of any kind is left out.
pub fn read_content_list(
    store: &mut ContentStore,
    config: &SiteConfig,
    list_o_content: &Vec<String>,
    depth: usize,
) -> (r: Result<Vec<PageContent>, SiteError>)
    ensures
        (pages_result_view(r), final(store)@) == list_upto(
            old(store)@,
            config@,
            texts(list_o_content@),
            list_o_content@.len(),
            depth as nat,
        ),
    decreases depth, 1int,
{
    let ghost paths = texts(list_o_content@);
    let mut page_list: Vec<PageContent> = Vec::new();
    let mut i: usize = 0;
    proof {
        assert(pages_view(page_list@) =~= Seq::<PageView>::empty());
    }
    while i < list_o_content.len()
        invariant
            i <= list_o_content.len(),
            paths == texts(list_o_content@),
            paths.len() == list_o_content@.len(),
            (Ok::<Seq<PageView>, SiteError>(pages_view(page_list@)), store@) == list_upto(
                old(store)@,
                config@,
                paths,
                i as nat,
                depth as nat,
            ),
        decreases list_o_content.len() - i,
    {
        let item = list_o_content[i].as_str();
        assert(paths[i as int] == item@);
        if does_content_exist(store, config, item) {
            match read_single_page(store, config, item, depth) {
                Ok(page) => {
                    place_page(&mut page_list, page);
                },
                Err(e) => {
                    proof {
                        lemma_list_failure_stays(
                            old(store)@,
                            config@,
                            paths,
                            (i + 1) as nat,
                            paths.len(),
                            depth as nat,
                        );
                    }
                    return Err(e);
                },
            }
        }
        i = i + 1;
    }
    Ok(page_list)
}

/// The number of the first `n` listed web paths that have a body of some kind.
pub open spec fn existing_count(
    store: StoreView,
    config: SiteConfigView,
    list: Seq<Seq<char>>,
    n: nat,
) -> nat
    decreases n,
{
    if n == 0 || n > list.len() {
        0
    } else {
        existing_count(store, config, list, (n - 1) as nat) + if content_exists(
            store,
            config,
            list[n - 1],
        ) {
            1nat
        } else {
            0nat
        }
    }
}

/// Putting a page together changes nothing in the store but the metadata files
/// of pages.
pub proof fn lemma_page_keeps_files(
    store: StoreView,
    config: SiteConfigView,
    this_path: Seq<char>,
    depth: nat,
)
    ensures
        page_at(store, config, this_path, depth).1.bodies == store.bodies,
        page_at(store, config, this_path, depth).1.directories == store.directories,
        page_at(store, config, this_path, depth).1.menu_sidecars == store.menu_sidecars,
    decreases depth, 0nat, 0nat,
{
    let full = local_root(config) + this_path;
    let found = content_meta_for(store, config.base_dir, full);
    match found.0 {
        Ok(meta) => {
            if meta.content_list.len() != 0 && depth != 0 {
                lemma_list_keeps_files(
                    found.1,
                    config,
                    meta.content_list,
                    meta.content_list.len(),
                    (depth - 1) as nat,
                );
            }
        },
        Err(_) => {},
    }
}

/// Putting listed pages together changes nothing in the store but the metadata
/// files of pages.
pub proof fn lemma_list_keeps_files(
    store: StoreView,
    config: SiteConfigView,
    list: Seq<Seq<char>>,
    n: nat,
    depth: nat,
)
    ensures
        list_upto(store, config, list, n, depth).1.bodies == store.bodies,
        list_upto(store, config, list, n, depth).1.directories == store.directories,
        list_upto(store, config, list, n, depth).1.menu_sidecars == store.menu_sidecars,
    decreases depth, 1nat, n,
{
    if n != 0 && n <= list.len() {
        lemma_list_keeps_files(store, config, list, (n - 1) as nat, depth);
        let before = list_upto(store, config, list, (n - 1) as nat, depth);
        lemma_page_keeps_files(before.1, config, list[n - 1], depth);
    }
}

/// The pages that a list of web paths comes to are ordered by ascending weight,
/// whatever the order of the paths, and there is one page for each listed path
/// that has a body of some kind: a path without one is left out.
pub proof fn lemma_listed_pages_ordered(
    store: StoreView,
    config: SiteConfigView,
    list: Seq<Seq<char>>,
    n: nat,
    depth: nat,
)
    ensures
        match list_upto(store, config, list, n, depth).0 {
            Ok(pages) => ascending(page_weights(pages)) && pages.len() == existing_count(
                store,
                config,
                list,
                n,
            ),
            Err(_) => true,
        },
    decreases n,
{
    if n != 0 && n <= list.len() {
        lemma_listed_pages_ordered(store, config, list, (n - 1) as nat, depth);
        lemma_list_keeps_files(store, config, list, (n - 1) as nat, depth);
        let before = list_upto(store, config, list, (n - 1) as nat, depth);
        match before.0 {
            Ok(pages) => {
                assert(content_exists(before.1, config, list[n - 1]) == content_exists(
                    store,
                    config,
                    list[n - 1],
                ));
                if content_exists(before.1, config, list[n - 1]) {
                    let found = page_at(before.1, config, list[n - 1], depth);
                    match found.0 {
                        Ok(page) => {
                            let weights = page_weights(pages);
                            lemma_placed_ascending(weights, page.meta.weight);
                            assert(page_weights(placed_page(pages, page)) =~= weights.insert(
                                rank(weights, page.meta.weight),
                                page.meta.weight,
                            ));
                        },
                        Err(_) => {},
                    }
                }
            },
            Err(_) => {},
        }
    } else {
        assert(page_weights(Seq::<PageView>::empty()) =~= Seq::<u32>::empty());
    }
}

/// Placing a page among others keeps them all: the list afterwards holds the
/// pages it held and the placed one, each as often as before.
pub proof fn lemma_placed_page_keeps_pages(pages: Seq<PageView>, page: PageView)
    ensures
        placed_page(pages, page).len() == pages.len() + 1,
        placed_page(pages, page).to_multiset() == pages.to_multiset().insert(page),
{
    crate::order::lemma_rank_from(page_weights(pages), page.meta.weight, 0);
    vstd::seq_lib::to_multiset_insert(pages, rank(page_weights(pages), page.meta.weight), page);
}

} // verus!
