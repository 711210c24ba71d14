use n4::config::SiteConfig;
use n4::error::SiteError;
use n4::file_tree::{dir_to_tree, DirListing, FileMeta, ListedFile};
use n4::menu::{tree_to_menus, MenuItem};
use n4::meta::MenuItemMeta;
use n4::sidecar::{add_menu_metadata, read_menu_meta_file, read_section_meta};
use n4::store::{ContentStore, MenuRead, MenuSidecar};

fn config(base_dir: &str) -> SiteConfig {
    SiteConfig {
        prod_host: String::from("https://host"),
        xml_priority: String::from("0.64"),
        base_dir: String::from(base_dir),
        local_content_dir: String::from("/srv"),
    }
}

fn file(name: &str) -> ListedFile {
    ListedFile { name: String::from(name), meta: FileMeta::default() }
}

fn dir(name: &str, files: Vec<ListedFile>, directories: Vec<DirListing>) -> DirListing {
    DirListing { name: String::from(name), meta: FileMeta::default(), files, directories }
}

fn docs_meta() -> MenuItemMeta {
    let mut m = MenuItemMeta::default();
    m.description = String::from("The documentation");
    m.weight = 7;
    m.section_css_include = vec![String::from("/docs.css")];
    m
}

fn store() -> ContentStore {
    let mut s = ContentStore::new();
    s.menu_sidecars.push(MenuSidecar {
        path: String::from("/srv/site/docs.menu_meta"),
        content: MenuRead::Parsed(docs_meta()),
    });
    s.menu_sidecars.push(MenuSidecar {
        path: String::from("/srv/site/broken.menu_meta"),
        content: MenuRead::Corrupt(String::from("expected value at line 1 column 1")),
    });
    s
}

#[test]
fn default_menu_meta_values() {
    let m = MenuItemMeta::default();
    assert_eq!(m.menu_icon, "/static/images/menu_default_icon.svg");
    assert_eq!(m.description, "Menu default description.");
    assert_eq!(m.weight, 100);
    assert_eq!(m.section_template, "article");
    assert_eq!(m.template_override, "");
    assert_eq!(m.content_type, "directory");
    assert_eq!(m.section_class, "section");
    assert_eq!(m.content_class, "directory-page");
    assert!(m.section_javascript_include.is_empty());
    assert!(m.javascript_include.is_empty());
    assert_eq!(m.javascript_inline, "");
    assert!(m.section_css_include.is_empty());
    assert!(m.css_include.is_empty());
    assert_eq!(m.css_inline, "");
}

#[test]
fn default_menu_item_values() {
    let m = MenuItem::default();
    assert_eq!(m.menu_meta, MenuItemMeta::default());
    assert_eq!(m.number_of_files, 0);
    assert_eq!(m.relative_path, "Default");
    assert!(m.children.is_empty());
}

#[test]
fn menu_meta_clone_keeps_every_field() {
    let m = docs_meta();
    assert_eq!(m.clone(), m);
}

#[test]
fn menu_meta_file_is_read_or_replaced_by_the_default() {
    let s = store();
    assert_eq!(read_menu_meta_file(&s, "/srv/site/docs.menu_meta"), Ok(docs_meta()));
    assert_eq!(read_menu_meta_file(&s, "/srv/site/broken.menu_meta"), Ok(MenuItemMeta::default()));
    assert_eq!(read_menu_meta_file(&s, "/srv/site/none.menu_meta"), Err(SiteError::Filesystem));
}

#[test]
fn menu_metadata_of_a_directory() {
    let s = store();
    assert_eq!(add_menu_metadata(&s, "/srv/site/docs"), docs_meta());
    assert_eq!(add_menu_metadata(&s, "/srv/site/broken"), MenuItemMeta::default());
    assert_eq!(add_menu_metadata(&s, "/srv/site/blog"), MenuItemMeta::default());
}

#[test]
fn section_metadata_come_from_the_parent_directory() {
    let s = store();
    assert_eq!(read_section_meta(&s, "/srv/site/docs/intro"), docs_meta());
    assert_eq!(read_section_meta(&s, "/srv/site/blog/post1"), MenuItemMeta::default());
}

#[test]
fn menu_paths_have_the_base_directory_stripped() {
    let listing = dir("site", vec![file("index.md")], vec![
        dir("docs", vec![file("a.md"), file("b.md"), file("b.json")], vec![dir(
            "deep",
            vec![file("c.md")],
            vec![],
        )]),
        dir("blog", vec![], vec![]),
    ]);
    let tree = dir_to_tree("/srv/site/", "", &listing);
    let menus = tree_to_menus(&store(), &config("/site/"), &tree).unwrap();
    assert_eq!(menus.len(), 2);
    assert_eq!(menus[0].name, "docs");
    assert_eq!(menus[0].item.relative_path, "docs");
    assert_eq!(menus[0].item.number_of_files, 2);
    assert_eq!(menus[0].item.menu_meta, docs_meta());
    assert_eq!(menus[0].item.children.len(), 1);
    assert_eq!(menus[0].item.children[0].name, "deep");
    assert_eq!(menus[0].item.children[0].item.relative_path, "docs/deep");
    assert_eq!(menus[0].item.children[0].item.number_of_files, 1);
    assert_eq!(menus[0].item.children[0].item.menu_meta, MenuItemMeta::default());
    assert!(menus[0].item.children[0].item.children.is_empty());
    assert_eq!(menus[1].name, "blog");
    assert_eq!(menus[1].item.relative_path, "blog");
    assert_eq!(menus[1].item.number_of_files, 0);
    assert_eq!(menus[1].item.menu_meta, MenuItemMeta::default());
    assert!(menus[1].item.children.is_empty());
}

#[test]
fn menu_of_a_tree_without_directories() {
    let tree = dir_to_tree("/srv/site/", "", &dir("site", vec![file("index.md")], vec![]));
    assert_eq!(tree_to_menus(&store(), &config("/site/"), &tree), Ok(vec![]));
}

#[test]
fn menu_needs_a_closed_base_directory() {
    let tree = dir_to_tree("/srv/site/", "", &dir("site", vec![], vec![]));
    assert_eq!(tree_to_menus(&store(), &config("/site"), &tree), Err(SiteError::Configuration));
}

#[test]
fn menu_needs_directories_in_the_base_directory() {
    let listing = dir("site", vec![], vec![dir("docs", vec![], vec![])]);
    let tree = dir_to_tree("/srv/site/", "", &listing);
    assert_eq!(tree_to_menus(&store(), &config("/content/"), &tree), Err(SiteError::Configuration));
}

#[test]
fn menu_item_clone_keeps_the_whole_node() {
    let listing = dir("site", vec![], vec![dir(
        "docs",
        vec![file("a.md")],
        vec![dir("deep", vec![file("c.md")], vec![])],
    )]);
    let tree = dir_to_tree("/srv/site/", "", &listing);
    let menus = tree_to_menus(&store(), &config("/site/"), &tree).unwrap();
    let copy = menus[0].item.clone();
    assert_eq!(copy, menus[0].item);
    assert_eq!(copy.children[0].item.relative_path, "docs/deep");
}
