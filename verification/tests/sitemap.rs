use n4::clock::{unix_time_to_iso, UtcDateTime};
use n4::config::{
    config_file_path, generate_robot_food, localpath_to_webpath, starter_config, strip_base,
    webpath_to_localpath, SiteConfig,
};
use n4::error::SiteError;
use n4::escape::escape;
use n4::file_tree::{dir_to_tree, DirListing, FileMeta, ListedFile, Timestamp};
use n4::sitemap::{generate_content_state, generate_sitemap, tree_to_sitemap, SiteMapEntry};

fn config(base_dir: &str) -> SiteConfig {
    SiteConfig {
        prod_host: String::from("https://host"),
        xml_priority: String::from("0.64"),
        base_dir: String::from(base_dir),
        local_content_dir: String::from("/srv"),
    }
}

fn file(name: &str, modified: u64) -> ListedFile {
    ListedFile {
        name: String::from(name),
        meta: FileMeta {
            created: Timestamp { secs: 1, nanos: 0 },
            modified: Timestamp { secs: modified, nanos: 999_999_999 },
            size: 3,
        },
    }
}

fn dir(name: &str, files: Vec<ListedFile>, directories: Vec<DirListing>) -> DirListing {
    DirListing { name: String::from(name), meta: FileMeta::default(), files, directories }
}

fn entry(location: &str, secs: i64) -> SiteMapEntry {
    SiteMapEntry {
        location: String::from(location),
        lastmod: UtcDateTime { secs },
        priority: String::from("0.64"),
    }
}

#[test]
fn local_path_appends_the_base_directory() {
    assert_eq!(config("/content/").local_path(), "/srv/content/");
    assert_eq!(config("/content/").root(), "/srv/content/");
}

#[test]
fn robots_point_to_the_sitemap() {
    assert_eq!(
        generate_robot_food(&config("/content/")),
        "User-agents: *\nAllow: *\n\nSitemap: https://host/sitemap.xml"
    );
}

#[test]
fn starter_config_values() {
    let c = starter_config();
    assert_eq!(c.prod_host, "https://localhost:8000");
    assert_eq!(c.xml_priority, "0.64");
    assert_eq!(c.base_dir, "/");
    assert_eq!(c.local_content_dir, "/");
    assert_eq!(config_file_path("/home/u/.config"), "/home/u/.config/n4/default.json");
}

#[test]
fn web_and_local_paths() {
    let c = config("/content/");
    assert_eq!(webpath_to_localpath(&c, "blog/post1"), "/srv/content/blog/post1");
    assert_eq!(
        localpath_to_webpath(&c, "/srv/content/blog/post1.content_meta"),
        Some(String::from("/blog/post1"))
    );
    assert_eq!(localpath_to_webpath(&c, "/srv/site/blog/post1.md"), None);
}

#[test]
fn strip_base_takes_the_base_off() {
    assert_eq!(strip_base("/content/", "content/blog"), Some(String::from("blog")));
    assert_eq!(strip_base("/content/", "content/blog/"), Some(String::from("blog")));
    assert_eq!(strip_base("/content/", "content/blog/2020"), Some(String::from("blog/2020")));
    assert_eq!(strip_base("/content/", "content"), Some(String::from("")));
    assert_eq!(strip_base("/content/", "content/"), Some(String::from("")));
    assert_eq!(strip_base("content/", "content/blog"), Some(String::from("blog")));
    assert_eq!(strip_base("/content/", "contents/blog"), None);
    assert_eq!(strip_base("/content/", "site/blog"), None);
    assert_eq!(strip_base("/", "srv/blog"), Some(String::from("srv/blog")));
}

#[test]
fn escape_replaces_the_six_characters() {
    assert_eq!(escape("a<b>&\"c'/d"), "a&lt;b&gt;&amp;&quot;c&#x27;&#x2f;d");
    assert_eq!(escape("blog"), "blog");
    assert_eq!(escape(""), "");
    assert_eq!(escape("caf\u{e9}/x"), "caf\u{e9}&#x2f;x");
}

#[test]
fn time_drops_what_is_past_the_second() {
    let t = Timestamp { secs: 1_431_648_000, nanos: 999_999_999 };
    assert_eq!(unix_time_to_iso(t), Some(UtcDateTime { secs: 1_431_648_000 }));
    assert_eq!(unix_time_to_iso(Timestamp { secs: 0, nanos: 0 }), Some(UtcDateTime::unix_epoch()));
    assert_eq!(UtcDateTime { secs: 77 }.timestamp(), 77);
}

#[test]
fn time_beyond_the_calendar_has_no_moment() {
    assert_eq!(unix_time_to_iso(Timestamp { secs: u64::MAX, nanos: 0 }), None);
    assert_eq!(unix_time_to_iso(Timestamp { secs: i64::MAX as u64, nanos: 0 }), None);
    assert_eq!(unix_time_to_iso(Timestamp { secs: 1u64 << 62, nanos: 0 }), None);
}

#[test]
fn sitemap_locations_strip_the_base_directory() {
    let listing = dir("content", vec![file("post1.md", 100)], vec![dir(
        "blog",
        vec![file("post1.md", 200), file("post2.html", 300)],
        vec![],
    )]);
    let c = config("/content/");
    let tree = dir_to_tree("/srv/content/", "", &listing);
    let sitemap = tree_to_sitemap(&c, &tree).unwrap();
    assert_eq!(
        sitemap,
        vec![
            entry("https://host/post1", 100),
            entry("https://host/blog/post1", 200),
            entry("https://host/blog/post2", 300),
        ]
    );
}

#[test]
fn sitemap_escapes_the_directory() {
    let listing = dir("content", vec![], vec![dir(
        "a&b",
        vec![file("x.md", 1)],
        vec![dir("c", vec![file("y.md", 2)], vec![])],
    )]);
    let c = config("/content/");
    let sitemap = generate_sitemap(&c, &listing).unwrap();
    assert_eq!(
        sitemap,
        vec![
            entry("https://host/a&amp;b/x", 1),
            entry("https://host/a&amp;b&#x2f;c/y", 2),
        ]
    );
}

#[test]
fn sitemap_of_a_directory_outside_the_base() {
    let listing = dir("site", vec![file("x.md", 1)], vec![]);
    let c = config("/content/");
    let tree = dir_to_tree("/srv/site", "", &listing);
    assert_eq!(tree_to_sitemap(&c, &tree).unwrap(), vec![entry("https://host/x", 1)]);
}

#[test]
fn sitemap_needs_a_closed_base_directory() {
    let listing = dir("content", vec![], vec![]);
    let tree = dir_to_tree("/srv/content", "", &listing);
    assert_eq!(tree_to_sitemap(&config("/content"), &tree), Err(SiteError::Configuration));
    assert_eq!(tree_to_sitemap(&config(""), &tree), Err(SiteError::Configuration));
    assert_eq!(tree_to_sitemap(&config("/content/"), &tree), Ok(vec![]));
}

#[test]
fn sitemap_fails_on_a_time_beyond_the_calendar() {
    let listing = dir("content", vec![file("a.md", 1)], vec![dir(
        "blog",
        vec![file("b.md", u64::MAX)],
        vec![],
    )]);
    assert_eq!(generate_sitemap(&config("/content/"), &listing), Err(SiteError::Filesystem));
}

#[test]
fn content_state_is_the_tree_at_the_local_root() {
    let listing = dir("content", vec![file("a.md", 1)], vec![]);
    let tree = generate_content_state(&config("/content/"), &listing);
    assert_eq!(tree.absolute_path, "/srv/content/");
    assert_eq!(tree.relative_path, "content");
    assert_eq!(tree.files.len(), 1);
    assert_eq!(tree.files[0].name, "a");
}

#[test]
fn error_messages() {
    assert_eq!(SiteError::Filesystem.message(), "A file or its metadata could not be read.");
    assert_eq!(
        SiteError::Configuration.message(),
        "Base dir is missing the trailing directory delimiter."
    );
    assert_eq!(SiteError::CycleDetected.message(), "The content list is nested too deep.");
}
