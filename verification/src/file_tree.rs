//! The directory tree: what a scan of the content directory yields.
//!
//! A directory is listed as it was enumerated (`DirListing`), and `dir_to_tree`
//! turns the listing into the tree (`DirTree`): files are keyed by their stem,
//! subdirectories by their name, and a later entry under a key that is already
//! there takes the place of the earlier one.

use crate::keyed::{
    collected, gathered, inserted, keys_of, lemma_collected, lemma_inserted, position_from,
    value_of,
};
use crate::paths::{file_stem, join, joined, stem_of};
use crate::text::{append_text, char_len, slice, starts_with, texts};
use vstd::prelude::*;

verus! {

/// A point in time: whole seconds since the Unix epoch, and the nanoseconds
/// past that second.
#[derive(Clone, Copy, Debug, PartialEq, Eq, Structural)]
pub struct Timestamp {
    pub secs: u64,
    pub nanos: u32,
}

/// What the filesystem says of one entry.
#[derive(Clone, Copy, Debug, PartialEq, Eq, Structural)]
pub struct FileMeta {
    pub created: Timestamp,
    pub modified: Timestamp,
    pub size: u64,
}

/// The metadata of an entry of which nothing is known: both times at the epoch,
/// no size.
pub open spec fn blank_meta() -> FileMeta {
    FileMeta {
        created: Timestamp { secs: 0, nanos: 0 },
        modified: Timestamp { secs: 0, nanos: 0 },
        size: 0,
    }
}

impl Default for FileMeta {
    fn default() -> (r: Self)
        ensures
            r == blank_meta(),
    {
        FileMeta {
            created: Timestamp { secs: 0, nanos: 0 },
            modified: Timestamp { secs: 0, nanos: 0 },
            size: 0,
        }
    }
}

/// The metadata of an entry with the given times and size.
pub fn get_file_metadata(created: Timestamp, modified: Timestamp, size: u64) -> (r: FileMeta)
    ensures
        r == (FileMeta { created, modified, size }),
{
    FileMeta { created, modified, size }
}

/// A file of a directory, under the key it has in the tree.
#[derive(Clone, Debug, PartialEq, Eq)]
pub struct FileEntry {
    pub name: String,
    pub meta: FileMeta,
}

/// A subdirectory of a directory, under the key it has in the tree.
#[derive(Debug, PartialEq, Eq)]
pub struct DirEntry {
    pub name: String,
    pub tree: DirTree,
}

/// A directory with its files and subdirectories.
#[derive(Debug, PartialEq, Eq)]
pub struct DirTree {
    pub absolute_path: String,
    pub relative_path: String,
    pub dir_meta: FileMeta,
    pub files: Vec<FileEntry>,
    pub directories: Vec<DirEntry>,
}

/// The mathematical value of a `DirTree`.
pub ghost struct DirTreeView {
    pub absolute_path: Seq<char>,
    pub relative_path: Seq<char>,
    pub dir_meta: FileMeta,
    pub files: Seq<(Seq<char>, FileMeta)>,
    pub directories: Seq<(Seq<char>, DirTreeView)>,
}

/// The keys and values of a list of file entries.
pub open spec fn file_entries(s: Seq<FileEntry>) -> Seq<(Seq<char>, FileMeta)> {
    Seq::new(s.len(), |i: int| (s[i].name@, s[i].meta))
}

/// The keys and values of a list of subdirectory entries.
pub open spec fn dir_entries(s: Seq<DirEntry>) -> Seq<(Seq<char>, DirTreeView)>
    decreases s,
{
    Seq::new(
        s.len(),
        |i: int|
            if 0 <= i < s.len() {
                (s[i].name@, tree_view(s[i].tree))
            } else {
                (Seq::empty(), arbitrary())
            },
    )
}

/// The value of a tree.
pub open spec fn tree_view(t: DirTree) -> DirTreeView
    decreases t,
{
    DirTreeView {
        absolute_path: t.absolute_path@,
        relative_path: t.relative_path@,
        dir_meta: t.dir_meta,
        files: file_entries(t.files@),
        directories: dir_entries(t.directories@),
    }
}

impl View for DirTree {
    type V = DirTreeView;

    open spec fn view(&self) -> DirTreeView {
        tree_view(*self)
    }
}

impl Default for DirTree {
    fn default() -> (r: Self)
        ensures
            r@.absolute_path.len() == 0,
            r@.relative_path.len() == 0,
            r@.dir_meta == blank_meta(),
            r@.files.len() == 0,
            r@.directories.len() == 0,
    {
        DirTree {
            absolute_path: String::new(),
            relative_path: String::new(),
            dir_meta: FileMeta::default(),
            files: Vec::new(),
            directories: Vec::new(),
        }
    }
}

/// A tree in which no key occurs twice among the files of a directory, nor
/// among its subdirectories.
pub open spec fn well_formed(t: DirTreeView) -> bool
    decreases t,
{
    &&& keys_of(t.files).no_duplicates()
    &&& keys_of(t.directories).no_duplicates()
    &&& forall|i: int|
        0 <= i < t.directories.len() ==> well_formed((#[trigger] t.directories[i]).1)
}

/// Puts the file `name` with `meta` into the list: in the place of an entry of
/// that name, or at the end.
pub fn insert_file(files: &mut Vec<FileEntry>, name: String, meta: FileMeta)
    ensures
        file_entries(final(files)@) == inserted(file_entries(old(files)@), name@, meta),
        keys_of(file_entries(old(files)@)).no_duplicates() ==> keys_of(
            file_entries(final(files)@),
        ).no_duplicates(),
{
    let ghost before = file_entries(files@);
    let mut i: usize = 0;
    while i < files.len()
        invariant
            i <= files.len(),
            files@ == old(files)@,
            before == file_entries(files@),
            position_from(before, name@, 0) == position_from(before, name@, i as int),
        decreases files.len() - i,
    {
        if files[i].name == name {
            files.set(i, FileEntry { name, meta });
            proof {
                assert(file_entries(files@) =~= before.update(i as int, (name@, meta)));
                if keys_of(before).no_duplicates() {
                    lemma_inserted(before, name@, meta);
                }
            }
            return ;
        }
        i = i + 1;
    }
    files.push(FileEntry { name, meta });
    proof {
        assert(file_entries(files@) =~= before.push((name@, meta)));
        if keys_of(before).no_duplicates() {
            lemma_inserted(before, name@, meta);
        }
    }
}

/// Puts the subdirectory `name` with its tree into the list: in the place of an
/// entry of that name, or at the end.
pub fn insert_directory(directories: &mut Vec<DirEntry>, name: String, tree: DirTree)
    ensures
        dir_entries(final(directories)@) == inserted(
            dir_entries(old(directories)@),
            name@,
            tree@,
        ),
        keys_of(dir_entries(old(directories)@)).no_duplicates() ==> keys_of(
            dir_entries(final(directories)@),
        ).no_duplicates(),
{
    let ghost before = dir_entries(directories@);
    let mut i: usize = 0;
    while i < directories.len()
        invariant
            i <= directories.len(),
            directories@ == old(directories)@,
            before == dir_entries(directories@),
            position_from(before, name@, 0) == position_from(before, name@, i as int),
        decreases directories.len() - i,
    {
        if directories[i].name == name {
            directories.set(i, DirEntry { name, tree });
            proof {
                assert(dir_entries(directories@) =~= before.update(i as int, (name@, tree@)));
                if keys_of(before).no_duplicates() {
                    lemma_inserted(before, name@, tree@);
                }
            }
            return ;
        }
        i = i + 1;
    }
    directories.push(DirEntry { name, tree });
    proof {
        assert(dir_entries(directories@) =~= before.push((name@, tree@)));
        if keys_of(before).no_duplicates() {
            lemma_inserted(before, name@, tree@);
        }
    }
}

/// A file as a directory enumerates it.
#[derive(Clone, Debug, PartialEq, Eq)]
pub struct ListedFile {
    pub name: String,
    pub meta: FileMeta,
}

/// A directory as it was enumerated: its own name and metadata, its files and
/// its subdirectories, each in the order of enumeration.
#[derive(Debug, PartialEq, Eq)]
pub struct DirListing {
    pub name: String,
    pub meta: FileMeta,
    pub files: Vec<ListedFile>,
    pub directories: Vec<DirListing>,
}

/// The key of a listed file: its stem, or a fixed message for a file without a
/// name.
pub open spec fn file_key(name: Seq<char>) -> Seq<char> {
    if name.len() == 0 {
        "ERROR_File_stem_not_parsed"@
    } else {
        stem_of(name)
    }
}

/// The relative path of the directory `name` below the relative path `prefix`:
/// the two joined by a separator, without a separator at the front.
pub open spec fn relative_of(prefix: Seq<char>, name: Seq<char>) -> Seq<char> {
    let whole = prefix + seq!['/'] + name;
    if whole[0] == '/' {
        whole.skip(1)
    } else {
        whole
    }
}

/// The listed files, each with the key under which it goes into the tree.
pub open spec fn listed_files(files: Seq<ListedFile>) -> Seq<(Seq<char>, FileMeta)> {
    Seq::new(files.len(), |i: int| (file_key(files[i].name@), files[i].meta))
}

/// The listed subdirectories of the directory at `path` with the relative path
/// `relative`, each with its name and its tree.
pub open spec fn listed_directories(
    directories: Seq<DirListing>,
    path: Seq<char>,
    relative: Seq<char>,
) -> Seq<(Seq<char>, DirTreeView)>
    decreases directories,
{
    Seq::new(
        directories.len(),
        |i: int|
            if 0 <= i < directories.len() {
                (
                    directories[i].name@,
                    tree_of(directories[i], joined(path, directories[i].name@), relative),
                )
            } else {
                (Seq::empty(), arbitrary())
            },
    )
}

/// The tree of the listed directory found at `path`, below the relative path
/// `relative`.
pub open spec fn tree_of(listing: DirListing, path: Seq<char>, relative: Seq<char>) -> DirTreeView
    decreases listing,
{
    let own = relative_of(relative, listing.name@);
    DirTreeView {
        absolute_path: path,
        relative_path: own,
        dir_meta: listing.meta,
        files: gathered(listed_files(listing.files@)),
        directories: gathered(listed_directories(listing.directories@, path, own)),
    }
}

/// The relative path of the directory `name` below the relative path `prefix`.
pub fn relative_path_of(prefix: &str, name: &str) -> (r: String)
    ensures
        r@ == relative_of(prefix@, name@),
{
    proof {
        reveal_strlit("/");
        assert("/"@ =~= seq!['/']);
    }
    let mut whole = append_text(prefix, "/");
    whole.append(name);
    if starts_with(whole.as_str(), "/") {
        let n: usize = char_len(whole.as_str());
        let r = slice(whole.as_str(), 1, n);
        proof {
            assert(whole@.subrange(0, 1) =~= seq!['/']);
            assert(whole@.subrange(0, 1)[0] == whole@[0]);
            assert(whole@.subrange(1, n as int) =~= whole@.skip(1));
        }
        r
    } else {
        proof {
            if whole@[0] == '/' {
                assert(whole@.subrange(0, 1) =~= seq!['/']);
            }
        }
        whole
    }
}

/// The key under which a listed file goes into the tree.
pub fn key_of_file(name: &str) -> (r: String)
    ensures
        r@ == file_key(name@),
{
    if char_len(name) == 0 {
        String::from_str("ERROR_File_stem_not_parsed")
    } else {
        file_stem(name)
    }
}

/// Builds the tree of a listed directory. `path` is the path at which the
/// directory was found and `relative` the relative path of its parent, empty for
/// the root of a scan.
pub fn dir_to_tree(path: &str, relative: &str, listing: &DirListing) -> (tree: DirTree)
    ensures
        tree@ == tree_of(*listing, path@, relative@),
        well_formed(tree@),
    decreases listing,
{
    proof {
        lemma_tree_fidelity(*listing, path@, relative@);
    }
    let own = relative_path_of(relative, listing.name.as_str());
    let mut files: Vec<FileEntry> = Vec::new();
    let mut i: usize = 0;
    proof {
        assert(file_entries(files@) =~= collected(listed_files(listing.files@), 0));
    }
    while i < listing.files.len()
        invariant
            i <= listing.files.len(),
            file_entries(files@) == collected(listed_files(listing.files@), i as int),
        decreases listing.files.len() - i,
    {
        let key = key_of_file(listing.files[i].name.as_str());
        insert_file(&mut files, key, listing.files[i].meta);
        i = i + 1;
    }
    let mut directories: Vec<DirEntry> = Vec::new();
    let mut k: usize = 0;
    proof {
        assert(dir_entries(directories@) =~= collected(
            listed_directories(listing.directories@, path@, own@),
            0,
        ));
    }
    while k < listing.directories.len()
        invariant
            k <= listing.directories.len(),
            dir_entries(directories@) == collected(
                listed_directories(listing.directories@, path@, own@),
                k as int,
            ),
        decreases listing.directories.len() - k,
    {
        let child = &listing.directories[k];
        let child_path = join(path, child.name.as_str());
        let subtree = dir_to_tree(child_path.as_str(), own.as_str(), child);
        insert_directory(&mut directories, child.name.clone(), subtree);
        k = k + 1;
    }
    DirTree {
        absolute_path: String::from_str(path),
        relative_path: own,
        dir_meta: listing.meta,
        files,
        directories,
    }
}

/// The paths of the files of one directory: its relative path, a separator and
/// the key of the file.
pub open spec fn own_file_paths(relative: Seq<char>, files: Seq<(Seq<char>, FileMeta)>) -> Seq<
    Seq<char>,
> {
    Seq::new(files.len(), |i: int| relative + seq!['/'] + files[i].0)
}

/// The paths of the files in the given subdirectories, one subdirectory after
/// the other.
pub open spec fn nested_file_paths(directories: Seq<(Seq<char>, DirTreeView)>) -> Seq<Seq<char>>
    decreases directories,
{
    if directories.len() == 0 {
        Seq::empty()
    } else {
        nested_file_paths(directories.drop_last()) + file_paths(directories.last().1)
    }
}

/// The paths of the files in a tree: those of the directory itself, then those
/// of each subdirectory.
pub open spec fn file_paths(t: DirTreeView) -> Seq<Seq<char>>
    decreases t,
{
    own_file_paths(t.relative_path, t.files) + nested_file_paths(t.directories)
}

/// Lists the files in a tree, each as the relative path of its directory, a
/// separator and its key: the files of the directory itself first, then those
/// of each subdirectory.
pub fn files_in_tree(dir_tree: &DirTree) -> (files: Vec<String>)
    ensures
        texts(files@) == file_paths(dir_tree@),
    decreases dir_tree,
{
    proof {
        reveal_strlit("/");
        assert("/"@ =~= seq!['/']);
    }
    let ghost own = own_file_paths(dir_tree@.relative_path, dir_tree@.files);
    let mut files: Vec<String> = Vec::new();
    let mut i: usize = 0;
    while i < dir_tree.files.len()
        invariant
            i <= dir_tree.files.len(),
            "/"@ == seq!['/'],
            own == own_file_paths(dir_tree@.relative_path, dir_tree@.files),
            own.len() == dir_tree.files@.len(),
            texts(files@) == own.take(i as int),
        decreases dir_tree.files.len() - i,
    {
        let ghost earlier = files@;
        let mut path = append_text(dir_tree.relative_path.as_str(), "/");
        path.append(dir_tree.files[i].name.as_str());
        files.push(path);
        proof {
            assert(earlier.len() == texts(earlier).len());
            assert(path@ == dir_tree.relative_path@ + seq!['/'] + dir_tree.files@[i as int].name@);
            assert(dir_tree@.files[i as int].0 == dir_tree.files@[i as int].name@);
            assert(own[i as int] == dir_tree@.relative_path + seq!['/'] + dir_tree@.files[i as int].0);
            assert(texts(files@)[i as int] == own[i as int]);
            assert forall|j: int| 0 <= j < i implies texts(files@)[j] == own[j] by {
                assert(texts(earlier)[j] == own.take(i as int)[j]);
            }
            assert(texts(files@) =~= own.take(i + 1));
        }
        i = i + 1;
    }
    let mut k: usize = 0;
    proof {
        assert(own.take(i as int) =~= own);
        assert(dir_tree@.directories.take(0) =~= Seq::empty());
        assert(texts(files@) =~= own + nested_file_paths(dir_tree@.directories.take(0)));
    }
    while k < dir_tree.directories.len()
        invariant
            k <= dir_tree.directories.len(),
            own == own_file_paths(dir_tree@.relative_path, dir_tree@.files),
            texts(files@) == own + nested_file_paths(dir_tree@.directories.take(k as int)),
        decreases dir_tree.directories.len() - k,
    {
        let mut below = files_in_tree(&dir_tree.directories[k].tree);
        let ghost before = files@;
        let ghost added = below@;
        files.append(&mut below);
        proof {
            let upto = dir_tree@.directories.take(k + 1);
            assert(upto.drop_last() =~= dir_tree@.directories.take(k as int));
            assert(upto.last() == dir_tree@.directories[k as int]);
            assert(texts(files@) =~= texts(before) + texts(added));
            assert(texts(files@) =~= own + nested_file_paths(upto));
        }
        k = k + 1;
    }
    proof {
        assert(dir_tree@.directories.take(k as int) =~= dir_tree@.directories);
    }
    files
}

/// Of a scanned tree: no key occurs twice among the files of a directory, nor
/// among its subdirectories, at any depth; the keys of its files are the stems
/// of the listed files; the keys of its subdirectories are the names of the
/// listed subdirectories; and a listed subdirectory whose name no later one
/// shares is found under its name with the tree of its own listing.
pub proof fn lemma_tree_fidelity(listing: DirListing, path: Seq<char>, relative: Seq<char>)
    ensures
        well_formed(tree_of(listing, path, relative)),
        keys_of(tree_of(listing, path, relative).files).to_set() == keys_of(
            listed_files(listing.files@),
        ).to_set(),
        keys_of(tree_of(listing, path, relative).directories).to_set() == Seq::new(
            listing.directories@.len(),
            |i: int| listing.directories@[i].name@,
        ).to_set(),
        forall|i: int|
            0 <= i < listing.directories@.len() && (forall|j: int|
                i < j < listing.directories@.len() ==> listing.directories@[j].name@
                    != listing.directories@[i].name@) ==> value_of(
                tree_of(listing, path, relative).directories,
                #[trigger] listing.directories@[i].name@,
            ) == Some(
                tree_of(
                    listing.directories@[i],
                    joined(path, listing.directories@[i].name@),
                    tree_of(listing, path, relative).relative_path,
                ),
            ),
    decreases listing,
{
    let t = tree_of(listing, path, relative);
    let files = listed_files(listing.files@);
    let below = listed_directories(listing.directories@, path, t.relative_path);
    lemma_collected(files, files.len() as int);
    lemma_collected(below, below.len() as int);
    assert(files.take(files.len() as int) =~= files);
    assert(below.take(below.len() as int) =~= below);
    assert(keys_of(below) =~= Seq::new(
        listing.directories@.len(),
        |i: int| listing.directories@[i].name@,
    ));
    assert forall|j: int| 0 <= j < t.directories.len() implies well_formed(
        (#[trigger] t.directories[j]).1,
    ) by {
        let i = choose|i: int| 0 <= i < below.len() && t.directories[j] == below[i];
        lemma_tree_fidelity(
            listing.directories@[i],
            joined(path, listing.directories@[i].name@),
            t.relative_path,
        );
    }
    assert forall|i: int|
        0 <= i < listing.directories@.len() && (forall|j: int|
            i < j < listing.directories@.len() ==> listing.directories@[j].name@
                != listing.directories@[i].name@) implies value_of(
        t.directories,
        #[trigger] listing.directories@[i].name@,
    ) == Some(
        tree_of(listing.directories@[i], joined(path, listing.directories@[i].name@), t.relative_path),
    ) by {
        assert(below[i].0 == listing.directories@[i].name@);
        assert forall|j: int| i < j < below.len() implies below[j].0 != below[i].0 by {
            assert(below[j].0 == listing.directories@[j].name@);
        }
    }
}

/// Where several listed files share a stem, the tree holds one entry for that
/// stem, with the metadata of the last of them.
pub proof fn lemma_last_file_wins(listing: DirListing, path: Seq<char>, relative: Seq<char>, i: int)
    requires
        0 <= i < listing.files@.len(),
        forall|j: int|
            i < j < listing.files@.len() ==> file_key(listing.files@[j].name@) != file_key(
                listing.files@[i].name@,
            ),
    ensures
        keys_of(tree_of(listing, path, relative).files).no_duplicates(),
        value_of(tree_of(listing, path, relative).files, file_key(listing.files@[i].name@)) == Some(
            listing.files@[i].meta,
        ),
{
    let files = listed_files(listing.files@);
    lemma_collected(files, files.len() as int);
    assert(files[i].0 == file_key(listing.files@[i].name@));
    assert forall|j: int| i < j < files.len() implies files[j].0 != files[i].0 by {
        assert(files[j].0 == file_key(listing.files@[j].name@));
    }
}

/// Whether the name of every directory of the listing is one that a directory
/// can have: not empty, and without a separator.
pub open spec fn properly_named(listing: DirListing) -> bool
    decreases listing,
{
    &&& listing.name@.len() > 0
    &&& !listing.name@.contains('/')
    &&& forall|i: int|
        0 <= i < listing.directories@.len() ==> properly_named(#[trigger] listing.directories@[i])
}

/// Whether the relative path of every subdirectory in the tree is the relative
/// path of its parent, a separator and the subdirectory's own key.
pub open spec fn paths_extend(t: DirTreeView) -> bool
    decreases t,
{
    forall|i: int|
        0 <= i < t.directories.len() ==> {
            &&& (#[trigger] t.directories[i]).1.relative_path == t.relative_path + seq!['/']
                + t.directories[i].0
            &&& paths_extend(t.directories[i].1)
        }
}

/// Below a relative path that is not empty and has no separator in front, the
/// relative path of a directory is that path, a separator and its name. Below
/// the empty relative path it is the name alone.
pub proof fn lemma_relative_of(prefix: Seq<char>, name: Seq<char>)
    ensures
        prefix.len() > 0 && prefix[0] != '/' ==> relative_of(prefix, name) == prefix + seq!['/']
            + name,
        prefix.len() == 0 ==> relative_of(prefix, name) == name,
{
    if prefix.len() == 0 {
        assert((prefix + seq!['/'] + name).skip(1) =~= name);
    }
}

/// In the tree of a scan, the relative path of every subdirectory is the
/// relative path of its parent, a separator and the subdirectory's own name;
/// the relative path of the root of a scan is its name.
pub proof fn lemma_relative_paths(listing: DirListing, path: Seq<char>, relative: Seq<char>)
    requires
        properly_named(listing),
        relative.len() == 0 || relative[0] != '/',
    ensures
        paths_extend(tree_of(listing, path, relative)),
        relative.len() == 0 ==> tree_of(listing, path, relative).relative_path == listing.name@,
        relative.len() > 0 ==> tree_of(listing, path, relative).relative_path == relative + seq![
            '/',
        ] + listing.name@,
    decreases listing,
{
    let t = tree_of(listing, path, relative);
    let own = t.relative_path;
    lemma_relative_of(relative, listing.name@);
    assert(listing.name@[0] != '/') by {
        if listing.name@[0] == '/' {
            assert(listing.name@.contains('/'));
        }
    }
    assert(own.len() > 0 && own[0] != '/');
    let below = listed_directories(listing.directories@, path, own);
    lemma_collected(below, below.len() as int);
    assert forall|j: int| 0 <= j < t.directories.len() implies {
        &&& (#[trigger] t.directories[j]).1.relative_path == own + seq!['/'] + t.directories[j].0
        &&& paths_extend(t.directories[j].1)
    } by {
        let i = choose|i: int| 0 <= i < below.len() && t.directories[j] == below[i];
        let child = listing.directories@[i];
        lemma_relative_paths(child, joined(path, child.name@), own);
    }
}

} // verus!
