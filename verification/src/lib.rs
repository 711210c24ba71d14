//! A flat-file content model: a scanned directory tree, the navigation menu and
//! the sitemap derived from it, and the pages resolved from a content store.

pub mod clock;
pub mod config;
pub mod content;
pub mod directory;
pub mod error;
pub mod escape;
pub mod file_tree;
pub mod keyed;
pub mod markup;
pub mod menu;
pub mod meta;
pub mod order;
pub mod page;
pub mod paths;
pub mod sidecar;
pub mod sitemap;
pub mod store;
pub mod text;

pub use clock::{unix_time_to_iso, UtcDateTime};
pub use config::{generate_robot_food, localpath_to_webpath, webpath_to_localpath, SiteConfig};
pub use content::{
    check_path_alternatives, does_content_exist, does_directory_exist, read_css_from_path,
    read_file_creation_time, read_file_modified_time, read_html_content, read_html_from_path,
    read_json_content, read_json_from_path, read_markdown_content, read_markdown_from_path,
    DirContent, HTMLContent, JSONContent, MDContent,
};
pub use directory::read_full_dir_sorted;
pub use error::SiteError;
pub use menu::{tree_to_menus, MenuEntry, MenuItem};
pub use meta::{ContentMeta, MenuItemMeta};
pub use page::{read_content_list, read_single_page, PageContent};
pub use paths::string_from_stem;
pub use sidecar::{
    add_menu_metadata, read_content_meta, read_content_meta_file, read_menu_meta_file,
    read_section_meta,
};
pub use sitemap::{generate_content_state, generate_sitemap, tree_to_sitemap, SiteMapEntry};
pub use store::ContentStore;
