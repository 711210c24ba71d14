//! The content store: the files of the content directory as they were read.
//!
//! Pages are resolved against a store, not against the disk. Whoever reads the
//! disk fills it: body files with their text and times, metadata files with
//! what parsing them gave, and the paths of the directories. A page's metadata
//! that is made up on first access is put into the store, from where it can be
//! written out.

use crate::file_tree::Timestamp;
use crate::keyed::{inserted, position_from, position_of};
use crate::meta::{ContentMeta, ContentMetaView, MenuItemMeta, MenuItemMetaView};
use crate::text::texts;
use vstd::prelude::*;

verus! {

/// A file that holds a body: markdown, HTML, JSON, or anything else that is not
/// a metadata file.
#[derive(Debug, PartialEq, Eq)]
pub struct BodyFile {
    pub path: String,
    pub text: String,
    pub created: Timestamp,
    pub modified: Timestamp,
}

/// What reading a page's metadata file gave.
#[derive(Debug, PartialEq, Eq)]
pub enum PageRead {
    /// The metadata that the file holds.
    Parsed(ContentMeta),
    /// The file could not be parsed; the text says why.
    Corrupt(String),
}

/// What reading a section's metadata file gave.
#[derive(Debug, PartialEq, Eq)]
pub enum MenuRead {
    /// The metadata that the file holds.
    Parsed(MenuItemMeta),
    /// The file could not be parsed; the text says why.
    Corrupt(String),
}

/// The metadata file of a page.
#[derive(Debug, PartialEq, Eq)]
pub struct PageSidecar {
    pub path: String,
    pub content: PageRead,
}

/// The metadata file of a section.
#[derive(Debug, PartialEq, Eq)]
pub struct MenuSidecar {
    pub path: String,
    pub content: MenuRead,
}

/// The files of the content directory.
#[derive(Debug, PartialEq, Eq)]
pub struct ContentStore {
    pub directories: Vec<String>,
    pub bodies: Vec<BodyFile>,
    pub page_sidecars: Vec<PageSidecar>,
    pub menu_sidecars: Vec<MenuSidecar>,
}

/// The text and the times of a body file.
pub ghost struct BodyView {
    pub text: Seq<char>,
    pub created: Timestamp,
    pub modified: Timestamp,
}

/// What reading a metadata file gave, as a mathematical value.
pub ghost enum Read<M> {
    Parsed(M),
    Corrupt(Seq<char>),
}

/// The mathematical value of a `ContentStore`: each kind of file as a list of
/// entries under their paths.
pub ghost struct StoreView {
    pub directories: Seq<Seq<char>>,
    pub bodies: Seq<(Seq<char>, BodyView)>,
    pub page_sidecars: Seq<(Seq<char>, Read<ContentMetaView>)>,
    pub menu_sidecars: Seq<(Seq<char>, Read<MenuItemMetaView>)>,
}

impl View for BodyFile {
    type V = BodyView;

    open spec fn view(&self) -> BodyView {
        BodyView { text: self.text@, created: self.created, modified: self.modified }
    }
}

impl View for PageRead {
    type V = Read<ContentMetaView>;

    open spec fn view(&self) -> Read<ContentMetaView> {
        match *self {
            PageRead::Parsed(meta) => Read::Parsed(meta@),
            PageRead::Corrupt(why) => Read::Corrupt(why@),
        }
    }
}

impl View for MenuRead {
    type V = Read<MenuItemMetaView>;

    open spec fn view(&self) -> Read<MenuItemMetaView> {
        match *self {
            MenuRead::Parsed(meta) => Read::Parsed(meta@),
            MenuRead::Corrupt(why) => Read::Corrupt(why@),
        }
    }
}

/// The body files as entries under their paths.
pub open spec fn body_entries(list: Seq<BodyFile>) -> Seq<(Seq<char>, BodyView)> {
    Seq::new(list.len(), |i: int| (list[i].path@, list[i]@))
}

/// The metadata files of pages as entries under their paths.
pub open spec fn page_entries(list: Seq<PageSidecar>) -> Seq<(Seq<char>, Read<ContentMetaView>)> {
    Seq::new(list.len(), |i: int| (list[i].path@, list[i].content@))
}

/// The metadata files of sections as entries under their paths.
pub open spec fn menu_entries(list: Seq<MenuSidecar>) -> Seq<(Seq<char>, Read<MenuItemMetaView>)> {
    Seq::new(list.len(), |i: int| (list[i].path@, list[i].content@))
}

impl View for ContentStore {
    type V = StoreView;

    open spec fn view(&self) -> StoreView {
        StoreView {
            directories: texts(self.directories@),
            bodies: body_entries(self.bodies@),
            page_sidecars: page_entries(self.page_sidecars@),
            menu_sidecars: menu_entries(self.menu_sidecars@),
        }
    }
}

/// The store after the metadata `meta` was saved at `path`: in the place of the
/// page metadata file that was there, or as a new one.
pub open spec fn with_page_meta(store: StoreView, path: Seq<char>, meta: ContentMetaView) -> StoreView {
    StoreView { page_sidecars: inserted(store.page_sidecars, path, Read::Parsed(meta)), ..store }
}

/// Whether the store holds a file of any kind at `path`.
pub open spec fn holds_file(store: StoreView, path: Seq<char>) -> bool {
    position_of(store.bodies, path) is Some || position_of(store.page_sidecars, path) is Some
        || position_of(store.menu_sidecars, path) is Some
}

/// A path without a separator at its end.
pub open spec fn unslashed(path: Seq<char>) -> Seq<char> {
    if path.len() > 0 && path.last() == '/' {
        path.drop_last()
    } else {
        path
    }
}

/// Whether one of the first `n` directories of the store is `path`, a
/// separator at the end of either left aside.
pub open spec fn holds_directory_among(directories: Seq<Seq<char>>, path: Seq<char>, n: int) -> bool
    decreases n,
{
    if n <= 0 || n > directories.len() {
        false
    } else {
        unslashed(directories[n - 1]) == unslashed(path) || holds_directory_among(
            directories,
            path,
            n - 1,
        )
    }
}

/// Whether the store holds the directory `path`, a separator at the end left
/// aside.
pub open spec fn holds_directory(store: StoreView, path: Seq<char>) -> bool {
    holds_directory_among(store.directories, path, store.directories.len() as int)
}

/// A path without a separator at its end.
pub fn without_final_separator(path: &str) -> (r: String)
    ensures
        r@ == unslashed(path@),
{
    proof {
        reveal_strlit("/");
        assert("/"@ =~= seq!['/']);
    }
    let n: usize = crate::text::char_len(path);
    proof {
        if n > 0 {
            assert(path@.subrange(n - 1, n as int) =~= seq![path@.last()]);
            assert(seq![path@.last()][0] == path@.last());
        }
    }
    if crate::text::ends_with(path, "/") {
        let r = crate::text::slice(path, 0, n - 1);
        proof {
            assert(path@.subrange(0, n - 1) =~= path@.drop_last());
        }
        r
    } else {
        let r = crate::text::slice(path, 0, n);
        proof {
            assert(path@.subrange(0, n as int) =~= path@);
        }
        r
    }
}

impl ContentStore {
    /// A store without files.
    pub fn new() -> (r: ContentStore)
        ensures
            r@.directories.len() == 0,
            r@.bodies.len() == 0,
            r@.page_sidecars.len() == 0,
            r@.menu_sidecars.len() == 0,
    {
        ContentStore {
            directories: Vec::new(),
            bodies: Vec::new(),
            page_sidecars: Vec::new(),
            menu_sidecars: Vec::new(),
        }
    }

    /// The position of the body file at `path`.
    pub fn body_position(&self, path: &str) -> (r: Option<usize>)
        ensures
            match r {
                Some(i) => position_of(self@.bodies, path@) == Some(i as int) && i
                    < self.bodies@.len(),
                None => position_of(self@.bodies, path@) is None,
            },
    {
        let mut i: usize = 0;
        while i < self.bodies.len()
            invariant
                i <= self.bodies.len(),
                position_from(self@.bodies, path@, 0) == position_from(
                    self@.bodies,
                    path@,
                    i as int,
                ),
            decreases self.bodies.len() - i,
        {
            if crate::text::same_text(self.bodies[i].path.as_str(), path) {
                return Some(i);
            }
            i = i + 1;
        }
        None
    }

    /// The position of the page metadata file at `path`.
    pub fn page_sidecar_position(&self, path: &str) -> (r: Option<usize>)
        ensures
            match r {
                Some(i) => position_of(self@.page_sidecars, path@) == Some(i as int) && i
                    < self.page_sidecars@.len(),
                None => position_of(self@.page_sidecars, path@) is None,
            },
    {
        let mut i: usize = 0;
        while i < self.page_sidecars.len()
            invariant
                i <= self.page_sidecars.len(),
                position_from(self@.page_sidecars, path@, 0) == position_from(
                    self@.page_sidecars,
                    path@,
                    i as int,
                ),
            decreases self.page_sidecars.len() - i,
        {
            if crate::text::same_text(self.page_sidecars[i].path.as_str(), path) {
                return Some(i);
            }
            i = i + 1;
        }
        None
    }

    /// The position of the section metadata file at `path`.
    pub fn menu_sidecar_position(&self, path: &str) -> (r: Option<usize>)
        ensures
            match r {
                Some(i) => position_of(self@.menu_sidecars, path@) == Some(i as int) && i
                    < self.menu_sidecars@.len(),
                None => position_of(self@.menu_sidecars, path@) is None,
            },
    {
        let mut i: usize = 0;
        while i < self.menu_sidecars.len()
            invariant
                i <= self.menu_sidecars.len(),
                position_from(self@.menu_sidecars, path@, 0) == position_from(
                    self@.menu_sidecars,
                    path@,
                    i as int,
                ),
            decreases self.menu_sidecars.len() - i,
        {
            if crate::text::same_text(self.menu_sidecars[i].path.as_str(), path) {
                return Some(i);
            }
            i = i + 1;
        }
        None
    }

    /// Whether the store holds a file of any kind at `path`.
    pub fn has_file(&self, path: &str) -> (r: bool)
        ensures
            r == holds_file(self@, path@),
    {
        self.body_position(path).is_some() || self.page_sidecar_position(path).is_some()
            || self.menu_sidecar_position(path).is_some()
    }

    /// Whether the store holds the directory `path`.
    pub fn has_directory(&self, path: &str) -> (r: bool)
        ensures
            r == holds_directory(self@, path@),
    {
        let wanted = without_final_separator(path);
        let mut i: usize = 0;
        while i < self.directories.len()
            invariant
                i <= self.directories.len(),
                wanted@ == unslashed(path@),
                !holds_directory_among(self@.directories, path@, i as int),
            decreases self.directories.len() - i,
        {
            let found = without_final_separator(self.directories[i].as_str());
            if found == wanted {
                proof {
                    lemma_directory_found(self@.directories, path@, i as int);
                }
                return true;
            }
            i = i + 1;
        }
        false
    }

    /// Saves the metadata of the page whose metadata file is `path`.
    pub fn save_content_meta_file(&mut self, path: &str, metadata: &ContentMeta)
        ensures
            final(self)@ == with_page_meta(old(self)@, path@, metadata@),
    {
        let entry = PageSidecar {
            path: String::from_str(path),
            content: PageRead::Parsed(metadata.clone()),
        };
        let ghost before = self@.page_sidecars;
        match self.page_sidecar_position(path) {
            Some(i) => {
                self.page_sidecars.set(i, entry);
                proof {
                    assert(self@.page_sidecars =~= before.update(
                        i as int,
                        (path@, Read::Parsed(metadata@)),
                    ));
                }
            },
            None => {
                self.page_sidecars.push(entry);
                proof {
                    assert(self@.page_sidecars =~= before.push((path@, Read::Parsed(metadata@))));
                }
            },
        }
    }
}

/// A directory found at position `i` is found among any longer front part of
/// the list.
pub proof fn lemma_directory_found(directories: Seq<Seq<char>>, path: Seq<char>, i: int)
    requires
        0 <= i < directories.len(),
        unslashed(directories[i]) == unslashed(path),
    ensures
        holds_directory_among(directories, path, directories.len() as int),
{
    lemma_directory_found_upto(directories, path, i, directories.len() as int);
}

/// A directory found at position `i` is found among the first `n` directories,
/// for any `n` past `i`.
pub proof fn lemma_directory_found_upto(
    directories: Seq<Seq<char>>,
    path: Seq<char>,
    i: int,
    n: int,
)
    requires
        0 <= i < n <= directories.len(),
        unslashed(directories[i]) == unslashed(path),
    ensures
        holds_directory_among(directories, path, n),
    decreases n,
{
    if i < n - 1 {
        lemma_directory_found_upto(directories, path, i, n - 1);
    }
}

} // verus!
