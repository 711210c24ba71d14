//! The sitemap: one record for every file of the tree.

use crate::clock::{has_moment, unix_time_to_iso, whole_seconds, UtcDateTime};
use crate::config::{below_base, local_root, strip_base, SiteConfig, SiteConfigView};
use crate::error::SiteError;
use crate::escape::{escape, html_escaped};
use crate::file_tree::{
    dir_to_tree, file_paths, nested_file_paths, tree_of, DirListing, DirTree, DirTreeView, FileMeta,
};
use crate::text::append_text;
use vstd::prelude::*;

verus! {

/// One record of the sitemap.
#[derive(Clone, Debug, PartialEq, Eq)]
pub struct SiteMapEntry {
    pub location: String,
    pub lastmod: UtcDateTime,
    pub priority: String,
}

/// The mathematical value of a `SiteMapEntry`.
pub ghost struct SiteMapEntryView {
    pub location: Seq<char>,
    pub lastmod: UtcDateTime,
    pub priority: Seq<char>,
}

impl View for SiteMapEntry {
    type V = SiteMapEntryView;

    open spec fn view(&self) -> SiteMapEntryView {
        SiteMapEntryView {
            location: self.location@,
            lastmod: self.lastmod,
            priority: self.priority@,
        }
    }
}

/// The values of a list of records.
pub open spec fn records_view(list: Seq<SiteMapEntry>) -> Seq<SiteMapEntryView> {
    Seq::new(list.len(), |i: int| list[i]@)
}

/// The part of a location between the host and the key of the file: what
/// follows the base directory in the relative path of the directory, escaped.
/// It is empty for the base directory itself and for a directory outside it.
pub open spec fn location_middle(base: Seq<char>, relative: Seq<char>) -> Seq<char> {
    html_escaped(
        match below_base(base, relative) {
            Some(rest) => rest,
            None => Seq::empty(),
        },
    )
}

/// The public location of the file `key` in the directory `relative`.
pub open spec fn location_of(host: Seq<char>, base: Seq<char>, relative: Seq<char>, key: Seq<char>) -> Seq<
    char,
> {
    let middle = location_middle(base, relative);
    if middle.len() > 0 {
        host + seq!['/'] + middle + seq!['/'] + key
    } else {
        host + seq!['/'] + key
    }
}

/// Whether the time of modification of every file in the tree has a calendar
/// moment.
pub open spec fn dated(t: DirTreeView) -> bool
    decreases t,
{
    &&& forall|i: int| 0 <= i < t.files.len() ==> has_moment((#[trigger] t.files[i]).1.modified)
    &&& forall|i: int| 0 <= i < t.directories.len() ==> dated((#[trigger] t.directories[i]).1)
}

/// The record of the file `key` with the metadata `meta` in the directory
/// `relative`.
pub open spec fn record_of(
    config: SiteConfigView,
    relative: Seq<char>,
    key: Seq<char>,
    meta: FileMeta,
) -> SiteMapEntryView {
    SiteMapEntryView {
        location: location_of(config.prod_host, config.base_dir, relative, key),
        lastmod: UtcDateTime { secs: whole_seconds(meta.modified) },
        priority: config.xml_priority,
    }
}

/// The records of the files of one directory, in their order.
pub open spec fn own_records(config: SiteConfigView, t: DirTreeView) -> Seq<SiteMapEntryView> {
    Seq::new(
        t.files.len(),
        |i: int| record_of(config, t.relative_path, t.files[i].0, t.files[i].1),
    )
}

/// The records of the files in the given subdirectories, one subdirectory
/// after the other.
pub open spec fn nested_records(
    config: SiteConfigView,
    directories: Seq<(Seq<char>, DirTreeView)>,
) -> Seq<SiteMapEntryView>
    decreases directories,
{
    if directories.len() == 0 {
        Seq::empty()
    } else {
        nested_records(config, directories.drop_last()) + sitemap_records(
            config,
            directories.last().1,
        )
    }
}

/// The records of a tree: those of the files of the directory itself, then
/// those of each subdirectory.
pub open spec fn sitemap_records(config: SiteConfigView, t: DirTreeView) -> Seq<SiteMapEntryView>
    decreases t,
{
    own_records(config, t) + nested_records(config, t.directories)
}

/// What a sitemap of the tree comes to: a configuration error where the base
/// directory does not end with a separator, a filesystem error where a file has
/// a time without a calendar moment, the records otherwise.
pub open spec fn sitemap_of(config: SiteConfigView, t: DirTreeView) -> Result<
    Seq<SiteMapEntryView>,
    SiteError,
> {
    if !crate::config::base_is_closed(config.base_dir) {
        Err(SiteError::Configuration)
    } else if !dated(t) {
        Err(SiteError::Filesystem)
    } else {
        Ok(sitemap_records(config, t))
    }
}

/// The value of a result that holds a list of records.
pub open spec fn sitemap_result_view(r: Result<Vec<SiteMapEntry>, SiteError>) -> Result<
    Seq<SiteMapEntryView>,
    SiteError,
> {
    match r {
        Ok(list) => Ok(records_view(list@)),
        Err(e) => Err(e),
    }
}

/// The public location of the file `key`, given the escaped middle part.
fn location(host: &str, middle: &str, key: &str) -> (r: String)
    ensures
        r@ == if middle@.len() > 0 {
            host@ + seq!['/'] + middle@ + seq!['/'] + key@
        } else {
            host@ + seq!['/'] + key@
        },
{
    proof {
        reveal_strlit("/");
        assert("/"@ =~= seq!['/']);
    }
    let mut r = append_text(host, "/");
    if crate::text::char_len(middle) > 0 {
        r.append(middle);
        r.append("/");
    }
    r.append(key);
    r
}

/// The records of a tree, for a configuration whose base directory ends with a
/// separator.
fn collect_records(config: &SiteConfig, dir_tree: &DirTree) -> (r: Result<
    Vec<SiteMapEntry>,
    SiteError,
>)
    ensures
        dated(dir_tree@) ==> sitemap_result_view(r) == Ok::<
            Seq<SiteMapEntryView>,
            SiteError,
        >(sitemap_records(config@, dir_tree@)),
        !dated(dir_tree@) ==> r == Err::<Vec<SiteMapEntry>, SiteError>(SiteError::Filesystem),
    decreases dir_tree,
{
    let ghost own = own_records(config@, dir_tree@);
    let stripped = match strip_base(config.base_dir.as_str(), dir_tree.relative_path.as_str()) {
        Some(rest) => rest,
        None => {
            let r = String::from_str("");
            proof {
                reveal_strlit("");
                assert(r@ =~= Seq::<char>::empty());
            }
            r
        },
    };
    let middle = escape(stripped.as_str());
    assert(middle@ == location_middle(config@.base_dir, dir_tree@.relative_path));
    let mut files: Vec<SiteMapEntry> = Vec::new();
    let mut i: usize = 0;
    while i < dir_tree.files.len()
        invariant
            i <= dir_tree.files.len(),
            own == own_records(config@, dir_tree@),
            own.len() == dir_tree.files@.len(),
            middle@ == location_middle(config@.base_dir, dir_tree@.relative_path),
            forall|j: int| 0 <= j < i ==> has_moment((#[trigger] dir_tree@.files[j]).1.modified),
            records_view(files@) == own.take(i as int),
        decreases dir_tree.files.len() - i,
    {
        let ghost earlier = files@;
        assert(dir_tree@.files[i as int] == (
            dir_tree.files@[i as int].name@,
            dir_tree.files@[i as int].meta,
        ));
        let lastmod = match unix_time_to_iso(dir_tree.files[i].meta.modified) {
            Some(moment) => moment,
            None => {
                return Err(SiteError::Filesystem);
            },
        };
        let entry = SiteMapEntry {
            location: location(
                config.prod_host.as_str(),
                middle.as_str(),
                dir_tree.files[i].name.as_str(),
            ),
            lastmod,
            priority: config.xml_priority.clone(),
        };
        files.push(entry);
        proof {
            assert(earlier.len() == records_view(earlier).len());
            assert(records_view(files@)[i as int] == own[i as int]);
            assert forall|j: int| 0 <= j < i implies records_view(files@)[j] == own[j] by {
                assert(records_view(earlier)[j] == own.take(i as int)[j]);
            }
            assert(records_view(files@) =~= own.take(i + 1));
        }
        i = i + 1;
    }
    let mut k: usize = 0;
    proof {
        assert(own.take(i as int) =~= own);
        assert(dir_tree@.directories.take(0) =~= Seq::empty());
        assert(records_view(files@) =~= own + nested_records(
            config@,
            dir_tree@.directories.take(0),
        ));
    }
    while k < dir_tree.directories.len()
        invariant
            k <= dir_tree.directories.len(),
            own == own_records(config@, dir_tree@),
            forall|j: int|
                0 <= j < dir_tree@.files.len() ==> has_moment(
                    (#[trigger] dir_tree@.files[j]).1.modified,
                ),
            forall|j: int| 0 <= j < k ==> dated((#[trigger] dir_tree@.directories[j]).1),
            records_view(files@) == own + nested_records(
                config@,
                dir_tree@.directories.take(k as int),
            ),
        decreases dir_tree.directories.len() - k,
    {
        assert(dir_tree@.directories[k as int].1 == dir_tree.directories@[k as int].tree@);
        let mut below = match collect_records(config, &dir_tree.directories[k].tree) {
            Ok(list) => list,
            Err(e) => {
                return Err(e);
            },
        };
        let ghost before = files@;
        let ghost added = below@;
        files.append(&mut below);
        proof {
            let upto = dir_tree@.directories.take(k + 1);
            assert(upto.drop_last() =~= dir_tree@.directories.take(k as int));
            assert(upto.last() == dir_tree@.directories[k as int]);
            assert(records_view(files@) =~= records_view(before) + records_view(added));
            assert(records_view(files@) =~= own + nested_records(config@, upto));
        }
        k = k + 1;
    }
    proof {
        assert(dir_tree@.directories.take(k as int) =~= dir_tree@.directories);
    }
    Ok(files)
}

/// Lists every file of the tree as a sitemap record: the files of a directory
/// first, then those of each of its subdirectories. A location is the host,
/// what follows the base directory in the relative path of the file's
/// directory, escaped, and the key of the file.
pub fn tree_to_sitemap(config: &SiteConfig, dir_tree: &DirTree) -> (r: Result<
    Vec<SiteMapEntry>,
    SiteError,
>)
    ensures
        sitemap_result_view(r) == sitemap_of(config@, dir_tree@),
{
    if !config.has_closed_base() {
        return Err(SiteError::Configuration);
    }
    collect_records(config, dir_tree)
}

/// Scans the listed content root and lists every file below it as a sitemap
/// record.
pub fn generate_sitemap(config: &SiteConfig, listing: &DirListing) -> (r: Result<
    Vec<SiteMapEntry>,
    SiteError,
>)
    ensures
        sitemap_result_view(r) == sitemap_of(
            config@,
            tree_of(*listing, local_root(config@), Seq::empty()),
        ),
{
    let dir_tree = generate_content_state(config, listing);
    tree_to_sitemap(config, &dir_tree)
}

/// Scans the listed content root: the tree of the listing, found at the local
/// root of the content.
pub fn generate_content_state(config: &SiteConfig, listing: &DirListing) -> (tree: DirTree)
    ensures
        tree@ == tree_of(*listing, local_root(config@), Seq::empty()),
{
    proof {
        reveal_strlit("");
        assert(""@ =~= Seq::<char>::empty());
    }
    let root = config.root();
    dir_to_tree(root.as_str(), "", listing)
}

/// A separator at the end of the relative path of a directory makes no
/// difference to the locations of its files.
pub proof fn lemma_location_ignores_final_separator(
    host: Seq<char>,
    base: Seq<char>,
    relative: Seq<char>,
    key: Seq<char>,
)
    requires
        relative.len() == 0 || relative.last() != '/',
    ensures
        location_of(host, base, relative + seq!['/'], key) == location_of(host, base, relative, key),
{
    crate::config::lemma_final_separator_ignored(base, relative);
}

/// The location of a file directly in the base directory is the host, one
/// separator and the key of the file; the location of a file in a directory
/// below it has the escaped path of the directory between two separators.
pub proof fn lemma_locations(host: Seq<char>, base: Seq<char>, rest: Seq<char>, key: Seq<char>)
    requires
        crate::config::base_is_closed(base),
        crate::config::base_core(base).len() > 0,
        crate::config::base_core(base).last() != '/',
        rest.len() > 0,
        rest.last() != '/',
    ensures
        location_of(host, base, crate::config::base_core(base), key) == host + seq!['/'] + key,
        location_of(host, base, crate::config::base_core(base) + seq!['/'] + rest, key) == host
            + seq!['/'] + html_escaped(rest) + seq!['/'] + key,
{
    crate::config::lemma_below_base(base, rest);
    crate::escape::lemma_escaped_empty(rest);
    crate::escape::lemma_escaped_empty(Seq::<char>::empty());
}

/// The sitemap has one record for every file of the tree, in the order in
/// which the files of the tree are listed, and each record carries the
/// configured priority and the whole seconds of the file's modification.
pub proof fn lemma_one_record_per_file(config: SiteConfigView, t: DirTreeView)
    ensures
        sitemap_records(config, t).len() == file_paths(t).len(),
        forall|i: int|
            0 <= i < sitemap_records(config, t).len() ==> (#[trigger] sitemap_records(
                config,
                t,
            )[i]).priority == config.xml_priority,
    decreases t,
{
    lemma_records_of_directories(config, t.directories);
}

/// The subdirectories have one record for every file in them, each with the
/// configured priority.
pub proof fn lemma_records_of_directories(
    config: SiteConfigView,
    directories: Seq<(Seq<char>, DirTreeView)>,
)
    ensures
        nested_records(config, directories).len() == nested_file_paths(directories).len(),
        forall|i: int|
            0 <= i < nested_records(config, directories).len() ==> (#[trigger] nested_records(
                config,
                directories,
            )[i]).priority == config.xml_priority,
    decreases directories,
{
    if directories.len() > 0 {
        lemma_records_of_directories(config, directories.drop_last());
        lemma_one_record_per_file(config, directories.last().1);
    }
}

} // verus!
