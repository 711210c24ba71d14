//! The navigation menu: one node for every directory below the root of a tree.

use crate::config::{base_is_closed, below_base, strip_base, SiteConfig};
use crate::error::SiteError;
use crate::file_tree::{well_formed, DirTree, DirTreeView};
use crate::keyed::keys_of;
use crate::meta::{default_menu_meta, MenuItemMeta, MenuItemMetaView};
use crate::sidecar::{add_menu_metadata, menu_meta_for};
use crate::store::{ContentStore, StoreView};
use vstd::prelude::*;

verus! {

/// A node of the menu under the name of its directory.
#[derive(Debug, PartialEq, Eq)]
pub struct MenuEntry {
    pub name: String,
    pub item: MenuItem,
}

/// A node of the menu: a directory with its metadata, the number of its files,
/// its path below the base directory, and the nodes of its subdirectories.
#[derive(Debug, PartialEq, Eq)]
pub struct MenuItem {
    pub menu_meta: MenuItemMeta,
    pub number_of_files: u32,
    pub relative_path: String,
    pub children: Vec<MenuEntry>,
}

/// The mathematical value of a `MenuItem`.
pub ghost struct MenuItemView {
    pub menu_meta: MenuItemMetaView,
    pub number_of_files: u32,
    pub relative_path: Seq<char>,
    pub children: Seq<(Seq<char>, MenuItemView)>,
}

/// The names and values of a list of menu nodes.
pub open spec fn menu_entries_view(list: Seq<MenuEntry>) -> Seq<(Seq<char>, MenuItemView)>
    decreases list,
{
    Seq::new(
        list.len(),
        |i: int|
            if 0 <= i < list.len() {
                (list[i].name@, menu_item_view(list[i].item))
            } else {
                (Seq::empty(), arbitrary())
            },
    )
}

/// The value of a menu node.
pub open spec fn menu_item_view(item: MenuItem) -> MenuItemView
    decreases item,
{
    MenuItemView {
        menu_meta: item.menu_meta@,
        number_of_files: item.number_of_files,
        relative_path: item.relative_path@,
        children: menu_entries_view(item.children@),
    }
}

impl View for MenuItem {
    type V = MenuItemView;

    open spec fn view(&self) -> MenuItemView {
        menu_item_view(*self)
    }
}

impl Clone for MenuItem {
    fn clone(&self) -> (r: Self)
        ensures
            r@ == self@,
        decreases self,
    {
        let mut children: Vec<MenuEntry> = Vec::new();
        let mut i: usize = 0;
        while i < self.children.len()
            invariant
                i <= self.children.len(),
                menu_entries_view(children@) == menu_entries_view(self.children@).take(i as int),
            decreases self.children.len() - i,
        {
            let ghost earlier = children@;
            let entry = &self.children[i];
            children.push(MenuEntry { name: entry.name.clone(), item: entry.item.clone() });
            proof {
                assert(menu_entries_view(earlier).len() == earlier.len());
                assert forall|j: int| 0 <= j < i implies menu_entries_view(children@)[j]
                    == menu_entries_view(self.children@)[j] by {
                    assert(menu_entries_view(earlier)[j] == menu_entries_view(self.children@).take(
                        i as int,
                    )[j]);
                }
                assert(menu_entries_view(children@) =~= menu_entries_view(self.children@).take(
                    i + 1,
                ));
            }
            i = i + 1;
        }
        proof {
            assert(menu_entries_view(self.children@).take(i as int) =~= menu_entries_view(
                self.children@,
            ));
        }
        MenuItem {
            menu_meta: self.menu_meta.clone(),
            number_of_files: self.number_of_files,
            relative_path: self.relative_path.clone(),
            children,
        }
    }
}

impl Default for MenuItem {
    fn default() -> (r: Self)
        ensures
            r@.menu_meta == default_menu_meta(),
            r@.number_of_files == 0,
            r@.relative_path == "Default"@,
            r@.children.len() == 0,
    {
        MenuItem {
            menu_meta: MenuItemMeta::default(),
            number_of_files: 0,
            relative_path: String::from_str("Default"),
            children: Vec::new(),
        }
    }
}

/// Whether every directory below the root of the tree lies in the base
/// directory.
pub open spec fn placed(base: Seq<char>, t: DirTreeView) -> bool
    decreases t,
{
    forall|i: int|
        0 <= i < t.directories.len() ==> {
            &&& below_base(base, (#[trigger] t.directories[i]).1.relative_path) is Some
            &&& placed(base, t.directories[i].1)
        }
}

/// The menu node of a directory: its metadata from the store, the number of
/// its files, what follows the base directory in its relative path, and the
/// nodes of its subdirectories.
pub open spec fn menu_item_of(store: StoreView, base: Seq<char>, t: DirTreeView) -> MenuItemView
    decreases t, 1int,
{
    MenuItemView {
        menu_meta: menu_meta_for(store, t.absolute_path),
        number_of_files: t.files.len() as u32,
        relative_path: below_base(base, t.relative_path).unwrap(),
        children: menus_of(store, base, t),
    }
}

/// The menu nodes of the subdirectories of a directory, each under the key of
/// its subdirectory and in their order.
pub open spec fn menus_of(store: StoreView, base: Seq<char>, t: DirTreeView) -> Seq<
    (Seq<char>, MenuItemView),
>
    decreases t, 0int,
{
    Seq::new(
        t.directories.len(),
        |i: int|
            if 0 <= i < t.directories.len() {
                (t.directories[i].0, menu_item_of(store, base, t.directories[i].1))
            } else {
                (Seq::empty(), arbitrary())
            },
    )
}

/// What the menus of a tree come to: a configuration error where the base
/// directory does not end with a separator or a directory of the tree lies
/// outside it, the menu nodes of the root's subdirectories otherwise.
pub open spec fn menus_for(store: StoreView, base: Seq<char>, t: DirTreeView) -> Result<
    Seq<(Seq<char>, MenuItemView)>,
    SiteError,
> {
    if !base_is_closed(base) || !placed(base, t) {
        Err(SiteError::Configuration)
    } else {
        Ok(menus_of(store, base, t))
    }
}

/// The value of a result that holds menu nodes.
pub open spec fn menus_result_view(r: Result<Vec<MenuEntry>, SiteError>) -> Result<
    Seq<(Seq<char>, MenuItemView)>,
    SiteError,
> {
    match r {
        Ok(list) => Ok(menu_entries_view(list@)),
        Err(e) => Err(e),
    }
}

/// Builds the menu of a tree: a node for each subdirectory of the root, under
/// the key of the subdirectory, with the nodes of its own subdirectories as
/// children. The metadata of a node come from the store.
pub fn tree_to_menus(store: &ContentStore, config: &SiteConfig, dir_tree: &DirTree) -> (r: Result<
    Vec<MenuEntry>,
    SiteError,
>)
    ensures
        menus_result_view(r) == menus_for(store@, config@.base_dir, dir_tree@),
    decreases dir_tree,
{
    if !config.has_closed_base() {
        return Err(SiteError::Configuration);
    }
    let ghost wanted = menus_of(store@, config@.base_dir, dir_tree@);
    let mut menus: Vec<MenuEntry> = Vec::new();
    let mut i: usize = 0;
    while i < dir_tree.directories.len()
        invariant
            i <= dir_tree.directories.len(),
            base_is_closed(config@.base_dir),
            wanted == menus_of(store@, config@.base_dir, dir_tree@),
            wanted.len() == dir_tree.directories@.len(),
            forall|j: int|
                0 <= j < i ==> {
                    &&& below_base(
                        config@.base_dir,
                        (#[trigger] dir_tree@.directories[j]).1.relative_path,
                    ) is Some
                    &&& placed(config@.base_dir, dir_tree@.directories[j].1)
                },
            menu_entries_view(menus@) == wanted.take(i as int),
        decreases dir_tree.directories.len() - i,
    {
        let ghost earlier = menus@;
        let entry = &dir_tree.directories[i];
        assert(dir_tree@.directories[i as int] == (entry.name@, entry.tree@));
        let relative_path = match strip_base(
            config.base_dir.as_str(),
            entry.tree.relative_path.as_str(),
        ) {
            Some(rest) => rest,
            None => {
                return Err(SiteError::Configuration);
            },
        };
        let children = match tree_to_menus(store, config, &entry.tree) {
            Ok(list) => list,
            Err(e) => {
                return Err(e);
            },
        };
        let item = MenuItem {
            menu_meta: add_menu_metadata(store, entry.tree.absolute_path.as_str()),
            number_of_files: #[verifier::truncate]
            (entry.tree.files.len() as u32),
            relative_path,
            children,
        };
        assert(entry.tree@.files.len() == entry.tree.files@.len());
        assert(item@ == menu_item_of(store@, config@.base_dir, entry.tree@));
        menus.push(MenuEntry { name: entry.name.clone(), item });
        proof {
            assert(menu_entries_view(earlier).len() == earlier.len());
            assert(menu_entries_view(menus@)[i as int] == wanted[i as int]);
            assert forall|j: int| 0 <= j < i implies menu_entries_view(menus@)[j] == wanted[j] by {
                assert(menu_entries_view(earlier)[j] == wanted.take(i as int)[j]);
            }
            assert(menu_entries_view(menus@) =~= wanted.take(i + 1));
        }
        i = i + 1;
    }
    proof {
        assert(wanted.take(i as int) =~= wanted);
    }
    Ok(menus)
}

/// Whether no name occurs twice among the nodes of a menu, nor among the
/// children of any node.
pub open spec fn distinct_names(menus: Seq<(Seq<char>, MenuItemView)>) -> bool
    decreases menus,
{
    &&& keys_of(menus).no_duplicates()
    &&& forall|i: int| 0 <= i < menus.len() ==> distinct_names((#[trigger] menus[i]).1.children)
}

/// The menu has one node for every subdirectory, under the subdirectory's key
/// and in the same order, at every depth; where no key occurs twice in the
/// tree, no name occurs twice in the menu.
pub proof fn lemma_menu_mirrors_tree(store: StoreView, base: Seq<char>, t: DirTreeView)
    ensures
        keys_of(menus_of(store, base, t)) == keys_of(t.directories),
        forall|i: int|
            0 <= i < t.directories.len() ==> (#[trigger] menus_of(store, base, t)[i]).1.children
                == menus_of(store, base, t.directories[i].1),
        well_formed(t) ==> distinct_names(menus_of(store, base, t)),
    decreases t,
{
    let menus = menus_of(store, base, t);
    assert(keys_of(menus) =~= keys_of(t.directories));
    if well_formed(t) {
        assert forall|i: int| 0 <= i < menus.len() implies distinct_names(
            (#[trigger] menus[i]).1.children,
        ) by {
            assert(well_formed(t.directories[i].1));
            lemma_menu_mirrors_tree(store, base, t.directories[i].1);
        }
    }
}

} // verus!
