//! The pages of one directory: the metadata of each, ordered by weight.

use crate::config::{local_root, webpath_to_localpath, SiteConfig, SiteConfigView};
use crate::error::SiteError;
use crate::meta::{ContentMeta, ContentMetaView};
use crate::order::{ascending, lemma_placed_ascending, rank, rank_from};
use crate::paths::{file_name, file_name_of, file_stem, join, joined, stem_of};
use crate::sidecar::{content_meta_for, read_content_meta};
use crate::store::{holds_directory, ContentStore, StoreView};
use crate::text::{char_len, ends_with, same_text, texts};
use vstd::prelude::*;

verus! {

/// The values of a list of page metadata.
pub open spec fn metas_view(list: Seq<ContentMeta>) -> Seq<ContentMetaView> {
    Seq::new(list.len(), |i: int| list[i]@)
}

/// The weights of a list of page metadata.
pub open spec fn meta_weights(metas: Seq<ContentMetaView>) -> Seq<u32> {
    Seq::new(metas.len(), |i: int| metas[i].weight)
}

/// The metadata with `meta` placed among them by its weight: behind those of
/// that weight or a lower one.
pub open spec fn placed_meta(metas: Seq<ContentMetaView>, meta: ContentMetaView) -> Seq<
    ContentMetaView,
> {
    metas.insert(rank(meta_weights(metas), meta.weight), meta)
}

/// Whether `path` is the path of an entry of the directory `dir`.
pub open spec fn is_entry_of(dir: Seq<char>, path: Seq<char>) -> bool {
    file_name_of(path).len() > 0 && path == joined(dir, file_name_of(path))
}

/// Whether `path` is a body file of a page of the directory `dir`: an entry of
/// the directory whose path does not end in `meta`.
pub open spec fn is_page_body(dir: Seq<char>, path: Seq<char>) -> bool {
    is_entry_of(dir, path) && !"meta"@.is_suffix_of(path)
}

/// What a walk over the body files of a directory has gathered: the metadata of
/// the pages, ordered by weight, and the stems of the pages that were read.
pub ghost struct Gathered {
    pub metas: Seq<ContentMetaView>,
    pub seen: Seq<Seq<char>>,
}

/// What the walk over the first `n` body files of the store gathers for the
/// directory `dir`, and the store afterwards. A page is read once, whatever the
/// number of its body files.
pub open spec fn gathered_upto(store: StoreView, base: Seq<char>, dir: Seq<char>, n: nat) -> (
    Result<Gathered, SiteError>,
    StoreView,
)
    decreases n,
{
    if n == 0 || n > store.bodies.len() {
        (Ok(Gathered { metas: Seq::empty(), seen: Seq::empty() }), store)
    } else {
        let before = gathered_upto(store, base, dir, (n - 1) as nat);
        let path = store.bodies[n - 1].0;
        let stem = stem_of(file_name_of(path));
        match before.0 {
            Err(e) => before,
            Ok(so_far) => {
                if !is_page_body(dir, path) || so_far.seen.contains(stem) {
                    before
                } else {
                    let found = content_meta_for(before.1, base, path);
                    match found.0 {
                        Ok(meta) => (
                            Ok(
                                Gathered {
                                    metas: placed_meta(so_far.metas, meta),
                                    seen: so_far.seen.push(stem),
                                },
                            ),
                            found.1,
                        ),
                        Err(e) => (Err(e), found.1),
                    }
                }
            },
        }
    }
}

/// The metadata of the pages of the directory at the web path `web_path_dir`,
/// ordered by weight, and the store afterwards: a filesystem error where the
/// store holds no such directory.
pub open spec fn directory_metas(store: StoreView, config: SiteConfigView, web_path_dir: Seq<char>) -> (
    Result<Seq<ContentMetaView>, SiteError>,
    StoreView,
) {
    let dir = local_root(config) + web_path_dir;
    if !holds_directory(store, dir) {
        (Err(SiteError::Filesystem), store)
    } else {
        let walked = gathered_upto(store, config.base_dir, dir, store.bodies.len());
        match walked.0 {
            Ok(all) => (Ok(all.metas), walked.1),
            Err(e) => (Err(e), walked.1),
        }
    }
}

/// The value of a result that holds a list of page metadata.
pub open spec fn metas_result_view(r: Result<Vec<ContentMeta>, SiteError>) -> Result<
    Seq<ContentMetaView>,
    SiteError,
> {
    match r {
        Ok(list) => Ok(metas_view(list@)),
        Err(e) => Err(e),
    }
}

/// Once reading a page has failed, the failure is what the whole walk comes to.
pub proof fn lemma_walk_failure_stays(
    store: StoreView,
    base: Seq<char>,
    dir: Seq<char>,
    k: nat,
    n: nat,
)
    requires
        k <= n <= store.bodies.len(),
        gathered_upto(store, base, dir, k).0 is Err,
    ensures
        gathered_upto(store, base, dir, n) == gathered_upto(store, base, dir, k),
    decreases n,
{
    if k < n {
        lemma_walk_failure_stays(store, base, dir, k, (n - 1) as nat);
    }
}

/// The walk leaves the body files of the store as they are.
pub proof fn lemma_walk_keeps_bodies(store: StoreView, base: Seq<char>, dir: Seq<char>, n: nat)
    ensures
        gathered_upto(store, base, dir, n).1.bodies == store.bodies,
        gathered_upto(store, base, dir, n).1.directories == store.directories,
        gathered_upto(store, base, dir, n).1.menu_sidecars == store.menu_sidecars,
    decreases n,
{
    if n != 0 && n <= store.bodies.len() {
        lemma_walk_keeps_bodies(store, base, dir, (n - 1) as nat);
    }
}

/// Places metadata among those of a list by their weight: behind those of that
/// weight or a lower one.
pub fn place_meta(list: &mut Vec<ContentMeta>, meta: ContentMeta)
    ensures
        metas_view(final(list)@) == placed_meta(metas_view(old(list)@), meta@),
{
    let ghost before = metas_view(list@);
    let ghost weights = meta_weights(before);
    let weight: u32 = meta.weight;
    let mut i: usize = 0;
    while i < list.len() && list[i].weight <= weight
        invariant
            i <= list.len(),
            list@ == old(list)@,
            before == metas_view(list@),
            weights == meta_weights(before),
            weight == meta@.weight,
            rank_from(weights, weight, 0) == rank_from(weights, weight, i as int),
        decreases list.len() - i,
    {
        assert(weights[i as int] == list@[i as int].weight);
        i = i + 1;
    }
    proof {
        if i < list.len() {
            assert(weights[i as int] == list@[i as int].weight);
        }
        assert(rank(weights, weight) == i);
    }
    list.insert(i, meta);
    proof {
        assert(metas_view(list@) =~= before.insert(i as int, meta@));
    }
}

/// Whether one of the texts of the list is `text`.
pub fn contains_text(list: &Vec<String>, text: &str) -> (r: bool)
    ensures
        r == texts(list@).contains(text@),
{
    let mut i: usize = 0;
    while i < list.len()
        invariant
            i <= list.len(),
            forall|j: int| 0 <= j < i ==> texts(list@)[j] != text@,
        decreases list.len() - i,
    {
        if same_text(list[i].as_str(), text) {
            assert(texts(list@)[i as int] == text@);
            return true;
        }
        i = i + 1;
    }
    false
}

/// Whether `path` is a body file of a page of the directory `dir`.
pub fn names_page_body(dir: &str, path: &str) -> (r: bool)
    ensures
        r == is_page_body(dir@, path@),
{
    let name = file_name(path);
    if char_len(name.as_str()) == 0 {
        return false;
    }
    let expected = join(dir, name.as_str());
    same_text(path, expected.as_str()) && !ends_with(path, "meta")
}

/// Reads the metadata of every page of the directory at the web path
/// `web_path_dir` and orders them by weight. A page with several body files is
/// read once.
pub fn read_full_dir_sorted(store: &mut ContentStore, config: &SiteConfig, web_path_dir: &str) -> (r:
    Result<Vec<ContentMeta>, SiteError>)
    ensures
        (metas_result_view(r), final(store)@) == directory_metas(
            old(store)@,
            config@,
            web_path_dir@,
        ),
{
    let local_path = webpath_to_localpath(config, web_path_dir);
    if !store.has_directory(local_path.as_str()) {
        return Err(SiteError::Filesystem);
    }
    let ghost start = store@;
    let ghost base = config@.base_dir;
    let mut page_metas: Vec<ContentMeta> = Vec::new();
    let mut entries_read: Vec<String> = Vec::new();
    let mut i: usize = 0;
    proof {
        assert(metas_view(page_metas@) =~= Seq::<ContentMetaView>::empty());
        assert(texts(entries_read@) =~= Seq::<Seq<char>>::empty());
    }
    while i < store.bodies.len()
        invariant
            i <= store.bodies.len(),
            start == old(store)@,
            base == config@.base_dir,
            local_path@ == local_root(config@) + web_path_dir@,
            holds_directory(start, local_path@),
            store@.bodies == start.bodies,
            store.bodies@.len() == start.bodies.len(),
            (
                Ok::<Gathered, SiteError>(
                    Gathered { metas: metas_view(page_metas@), seen: texts(entries_read@) },
                ),
                store@,
            ) == gathered_upto(start, base, local_path@, i as nat),
        decreases store.bodies.len() - i,
    {
        let this_path = store.bodies[i].path.clone();
        assert(store@.bodies[i as int].0 == this_path@);
        if names_page_body(local_path.as_str(), this_path.as_str()) {
            let name = file_name(this_path.as_str());
            let stem = file_stem(name.as_str());
            if !contains_text(&entries_read, stem.as_str()) {
                let ghost seen_before = texts(entries_read@);
                match read_content_meta(store, config, this_path.as_str()) {
                    Ok(meta) => {
                        entries_read.push(stem);
                        place_meta(&mut page_metas, meta);
                        proof {
                            assert(texts(entries_read@) =~= seen_before.push(stem@));
                        }
                    },
                    Err(e) => {
                        proof {
                            lemma_walk_failure_stays(
                                start,
                                base,
                                local_path@,
                                (i + 1) as nat,
                                start.bodies.len(),
                            );
                        }
                        return Err(e);
                    },
                }
            }
        }
        i = i + 1;
    }
    Ok(page_metas)
}

/// The metadata that a walk gathers are ordered by ascending weight.
pub proof fn lemma_walk_ordered(store: StoreView, base: Seq<char>, dir: Seq<char>, n: nat)
    ensures
        match gathered_upto(store, base, dir, n).0 {
            Ok(all) => ascending(meta_weights(all.metas)),
            Err(_) => true,
        },
    decreases n,
{
    if n != 0 && n <= store.bodies.len() {
        lemma_walk_ordered(store, base, dir, (n - 1) as nat);
        let before = gathered_upto(store, base, dir, (n - 1) as nat);
        let path = store.bodies[n - 1].0;
        match before.0 {
            Ok(so_far) => {
                let found = content_meta_for(before.1, base, path);
                match found.0 {
                    Ok(meta) => {
                        let weights = meta_weights(so_far.metas);
                        lemma_placed_ascending(weights, meta.weight);
                        assert(meta_weights(placed_meta(so_far.metas, meta)) =~= weights.insert(
                            rank(weights, meta.weight),
                            meta.weight,
                        ));
                    },
                    Err(_) => {},
                }
            },
            Err(_) => {},
        }
    } else {
        assert(meta_weights(Seq::<ContentMetaView>::empty()) =~= Seq::<u32>::empty());
    }
}

} // verus!
