use n4::clock::UtcDateTime;
use n4::config::SiteConfig;
use n4::content::{
    check_path_alternatives, does_content_exist, does_directory_exist, read_css_from_path,
    read_file_creation_time, read_file_modified_time, read_html_content, read_html_from_path,
    read_json_content, read_json_from_path, read_markdown_content, read_markdown_from_path,
    HTMLContent, JSONContent, MDContent,
};
use n4::directory::{place_meta, read_full_dir_sorted};
use n4::error::SiteError;
use n4::file_tree::Timestamp;
use n4::markup::markdown_to_html;
use n4::meta::{ContentMeta, MenuItemMeta};
use n4::page::{place_page, read_content_list, read_single_page, PageContent};
use n4::sidecar::{read_content_meta, read_content_meta_file};
use n4::store::{BodyFile, ContentStore, MenuRead, MenuSidecar, PageRead, PageSidecar};

fn config() -> SiteConfig {
    SiteConfig {
        prod_host: String::from("https://host"),
        xml_priority: String::from("0.64"),
        base_dir: String::from("/content/"),
        local_content_dir: String::from("/srv"),
    }
}

fn body(path: &str, text: &str, created: u64, modified: u64) -> BodyFile {
    BodyFile {
        path: String::from(path),
        text: String::from(text),
        created: Timestamp { secs: created, nanos: 1 },
        modified: Timestamp { secs: modified, nanos: 2 },
    }
}

fn weighted(title: &str, path: &str, weight: u32) -> ContentMeta {
    let mut m = ContentMeta::default();
    m.title = String::from(title);
    m.path = String::from(path);
    m.weight = weight;
    m
}

fn sidecar(path: &str, meta: ContentMeta) -> PageSidecar {
    PageSidecar { path: String::from(path), content: PageRead::Parsed(meta) }
}

fn store() -> ContentStore {
    let mut s = ContentStore::new();
    s.directories.push(String::from("/srv/content/"));
    s.directories.push(String::from("/srv/content/blog"));
    s.bodies.push(body("/srv/content/index.md", "# Hi Mercury!", 10, 20));
    s.bodies.push(body("/srv/content/blog/heavy.md", "heavy", 30, 40));
    s.bodies.push(body("/srv/content/blog/heavy.html", "<p>raw</p>", 31, 41));
    s.bodies.push(body("/srv/content/blog/light.json", "{\"a\": 1}", 50, 60));
    s.bodies.push(body("/srv/content/blog/middle.md", "*m*", 70, 80));
    s.bodies.push(body("/srv/content/blog/notes.meta", "x", 1, 1));
    s.bodies.push(body("/srv/content/blog/deep/far.md", "far", 1, 1));
    s.page_sidecars.push(sidecar("/srv/content/blog/heavy.content_meta", weighted("Heavy", "/blog/heavy", 300)));
    s.page_sidecars.push(sidecar("/srv/content/blog/light.content_meta", weighted("Light", "/blog/light", 5)));
    let mut index = weighted("Index", "/index", 1);
    index.content_list = vec![
        String::from("blog/heavy"),
        String::from("blog/missing"),
        String::from("blog/light"),
    ];
    s.page_sidecars.push(sidecar("/srv/content/index.content_meta", index));
    s.page_sidecars.push(PageSidecar {
        path: String::from("/srv/content/blog/broken.content_meta"),
        content: PageRead::Corrupt(String::from("EOF while parsing a value at line 1 column 0")),
    });
    let mut section = MenuItemMeta::default();
    section.description = String::from("The blog");
    s.menu_sidecars.push(MenuSidecar {
        path: String::from("/srv/content/blog.menu_meta"),
        content: MenuRead::Parsed(section),
    });
    s
}

#[test]
fn default_content_meta_values() {
    let m = ContentMeta::default();
    assert_eq!(m.title, "Default ContentMeta struct title");
    assert_eq!(m.path, "/");
    assert_eq!(m.content_icon, "/static/images/content_default_icon.svg");
    assert_eq!(m.description, "Default description value");
    assert_eq!(m.weight, 100);
    assert_eq!(m.author, "Default");
    assert_eq!(m.license, "cc-by-sa");
    assert!(m.content_list.is_empty());
    assert_eq!(m.content_type, "page");
    assert_eq!(m.content_class, "basic-page");
    assert_eq!(m.template_override, "");
    assert!(m.javascript_include.is_empty());
    assert_eq!(m.javascript_inline, "");
    assert!(m.css_include.is_empty());
    assert_eq!(m.css_inline, "");
    assert_eq!(m.created_time_default, "markdown");
    assert_eq!(m.modified_time_default, "markdown");
}

#[test]
fn default_bodies() {
    let md = MDContent::default();
    assert_eq!(md.created, UtcDateTime { secs: 0 });
    assert_eq!(md.modified, UtcDateTime { secs: 0 });
    assert_eq!(md.body, "Default value");
    assert_eq!(HTMLContent::default().body, "None");
    assert_eq!(HTMLContent::default().created, UtcDateTime { secs: 0 });
    assert_eq!(JSONContent::default().body, "None");
    assert_eq!(JSONContent::default().modified, UtcDateTime { secs: 0 });
}

#[test]
fn default_page() {
    let p = PageContent::default();
    assert_eq!(p.markdown, MDContent::default());
    assert_eq!(p.html, None);
    assert_eq!(p.json, None);
    assert!(p.list.is_empty());
    assert_eq!(p.meta, ContentMeta::default());
    assert_eq!(p.section_meta, MenuItemMeta::default());
}

#[test]
fn content_meta_clone_keeps_every_field() {
    let mut m = weighted("T", "/t", 3);
    m.content_list = vec![String::from("a"), String::from("b")];
    m.css_include = vec![String::from("c.css")];
    assert_eq!(m.clone(), m);
}

#[test]
fn markdown_becomes_html() {
    assert_eq!(markdown_to_html("# Hi Mercury!"), "<h1>Hi Mercury!</h1>");
    assert_eq!(markdown_to_html("*m*"), "<p><em>m</em></p>");
}

#[test]
fn files_are_read_from_the_store() {
    let s = store();
    assert_eq!(
        read_markdown_from_path(&s, "/srv/content/index.md"),
        Ok(String::from("<h1>Hi Mercury!</h1>"))
    );
    assert_eq!(read_markdown_from_path(&s, "/srv/content/none.md"), Err(SiteError::Filesystem));
    assert_eq!(
        read_html_from_path(&s, "/srv/content/blog/heavy.html"),
        Ok(String::from("<p>raw</p>"))
    );
    assert_eq!(read_html_from_path(&s, "/srv/content/none.html"), Err(SiteError::Filesystem));
    assert_eq!(
        read_json_from_path(&s, "/srv/content/blog/light.json"),
        Ok(String::from("{\"a\": 1}"))
    );
    assert_eq!(read_json_from_path(&s, "/srv/content/none.json"), Err(SiteError::Filesystem));
    assert_eq!(read_css_from_path(&s, "/srv/content/blog/notes.meta"), Ok(String::from("x")));
    assert_eq!(read_css_from_path(&s, "/srv/content/none.css"), Err(SiteError::Filesystem));
}

#[test]
fn file_times_become_calendar_moments() {
    let mut s = store();
    assert_eq!(read_file_creation_time(&s, "/srv/content/index.md"), Ok(UtcDateTime { secs: 10 }));
    assert_eq!(read_file_modified_time(&s, "/srv/content/index.md"), Ok(UtcDateTime { secs: 20 }));
    assert_eq!(read_file_creation_time(&s, "/srv/content/none.md"), Err(SiteError::Filesystem));
    assert_eq!(read_file_modified_time(&s, "/srv/content/none.md"), Err(SiteError::Filesystem));
    s.bodies.push(body("/srv/content/late.md", "", u64::MAX, u64::MAX));
    assert_eq!(read_file_creation_time(&s, "/srv/content/late.md"), Err(SiteError::Filesystem));
    assert_eq!(read_file_modified_time(&s, "/srv/content/late.md"), Err(SiteError::Filesystem));
}

#[test]
fn markdown_body_or_placeholder() {
    let s = store();
    assert_eq!(
        read_markdown_content(&s, "/srv/content/index"),
        Ok(MDContent {
            created: UtcDateTime { secs: 10 },
            modified: UtcDateTime { secs: 20 },
            body: String::from("<h1>Hi Mercury!</h1>"),
        })
    );
    assert_eq!(
        read_markdown_content(&s, "/srv/content/blog/light"),
        Ok(MDContent {
            created: UtcDateTime { secs: 0 },
            modified: UtcDateTime { secs: 0 },
            body: String::from("Markdown file does not exist: /srv/content/blog/light.md"),
        })
    );
}

#[test]
fn raw_bodies_are_optional() {
    let s = store();
    assert_eq!(
        read_html_content(&s, "/srv/content/blog/heavy"),
        Ok(Some(HTMLContent {
            created: UtcDateTime { secs: 31 },
            modified: UtcDateTime { secs: 41 },
            body: String::from("<p>raw</p>"),
        }))
    );
    assert_eq!(read_html_content(&s, "/srv/content/index"), Ok(None));
    assert_eq!(
        read_json_content(&s, "/srv/content/blog/light"),
        Ok(Some(JSONContent {
            created: UtcDateTime { secs: 50 },
            modified: UtcDateTime { secs: 60 },
            body: String::from("{\"a\": 1}"),
        }))
    );
    assert_eq!(read_json_content(&s, "/srv/content/index"), Ok(None));
}

#[test]
fn a_body_with_a_time_beyond_the_calendar_fails() {
    let mut s = ContentStore::new();
    s.bodies.push(body("/srv/content/a.md", "a", 1, u64::MAX));
    s.bodies.push(body("/srv/content/a.html", "a", u64::MAX, 1));
    s.bodies.push(body("/srv/content/a.json", "a", u64::MAX, u64::MAX));
    assert_eq!(read_markdown_content(&s, "/srv/content/a"), Err(SiteError::Filesystem));
    assert_eq!(read_html_content(&s, "/srv/content/a"), Err(SiteError::Filesystem));
    assert_eq!(read_json_content(&s, "/srv/content/a"), Err(SiteError::Filesystem));
}

#[test]
fn content_exists_under_any_of_three_extensions() {
    let s = store();
    let c = config();
    assert!(does_content_exist(&s, &c, "index"));
    assert!(does_content_exist(&s, &c, "blog/heavy"));
    assert!(does_content_exist(&s, &c, "blog/light"));
    assert!(does_content_exist(&s, &c, "blog/light.md"));
    assert!(!does_content_exist(&s, &c, "blog/missing"));
    assert!(!does_content_exist(&s, &c, "blog/notes"));
    assert!(!does_content_exist(&s, &c, "blog"));
}

#[test]
fn directories_exist_apart_from_content() {
    let s = store();
    let c = config();
    assert!(does_directory_exist(&s, &c, "blog"));
    assert!(does_directory_exist(&s, &c, "blog/"));
    assert!(does_directory_exist(&s, &c, ""));
    assert!(!does_directory_exist(&s, &c, "index"));
    assert!(!does_directory_exist(&s, &c, "docs"));
}

#[test]
fn path_alternatives() {
    let s = store();
    assert!(check_path_alternatives(&s, "/srv/content/blog/heavy", "html"));
    assert!(check_path_alternatives(&s, "/srv/content/blog/heavy.md", "content_meta"));
    assert!(check_path_alternatives(&s, "/srv/content/blog", "menu_meta"));
    assert!(!check_path_alternatives(&s, "/srv/content/blog/heavy", "json"));
}

#[test]
fn content_meta_file_is_read_or_marked_as_broken() {
    let s = store();
    assert_eq!(
        read_content_meta_file(&s, "/srv/content/blog/heavy.content_meta"),
        Ok(weighted("Heavy", "/blog/heavy", 300))
    );
    let mut broken = ContentMeta::default();
    broken.title = String::from("Error parsing metadata file");
    broken.description =
        String::from("JSON Parse Error: EOF while parsing a value at line 1 column 0");
    assert_eq!(read_content_meta_file(&s, "/srv/content/blog/broken.content_meta"), Ok(broken));
    assert_eq!(
        read_content_meta_file(&s, "/srv/content/blog/none.content_meta"),
        Err(SiteError::Filesystem)
    );
}

#[test]
fn missing_content_meta_is_made_up_and_saved_once() {
    let mut s = store();
    let c = config();
    let before = s.page_sidecars.len();
    let first = read_content_meta(&mut s, &c, "/srv/content/blog/middle").unwrap();
    assert_eq!(first.title, "middle");
    assert_eq!(first.path, "/blog/middle");
    assert_eq!(first, weighted("middle", "/blog/middle", 100));
    assert_eq!(s.page_sidecars.len(), before + 1);
    assert_eq!(s.page_sidecars[before], sidecar("/srv/content/blog/middle.content_meta", weighted("middle", "/blog/middle", 100)));
    let second = read_content_meta(&mut s, &c, "/srv/content/blog/middle").unwrap();
    assert_eq!(second, first);
    assert_eq!(s.page_sidecars.len(), before + 1);
}

#[test]
fn existing_content_meta_is_read_without_saving() {
    let mut s = store();
    let c = config();
    let before = s.page_sidecars.len();
    assert_eq!(
        read_content_meta(&mut s, &c, "/srv/content/blog/heavy.md"),
        Ok(weighted("Heavy", "/blog/heavy", 300))
    );
    assert_eq!(s.page_sidecars.len(), before);
    assert_eq!(s, store());
}

#[test]
fn content_meta_outside_the_base_directory_cannot_be_made_up() {
    let mut s = store();
    let c = config();
    assert_eq!(read_content_meta(&mut s, &c, "/srv/site/page"), Err(SiteError::Configuration));
    assert_eq!(s, store());
}

#[test]
fn saving_content_meta_replaces_what_was_there() {
    let mut s = store();
    let before = s.page_sidecars.len();
    s.save_content_meta_file("/srv/content/blog/heavy.content_meta", &weighted("H2", "/h2", 2));
    assert_eq!(s.page_sidecars.len(), before);
    assert_eq!(s.page_sidecars[0], sidecar("/srv/content/blog/heavy.content_meta", weighted("H2", "/h2", 2)));
    s.save_content_meta_file("/srv/content/new.content_meta", &weighted("N", "/new", 9));
    assert_eq!(s.page_sidecars.len(), before + 1);
    assert_eq!(s.page_sidecars[before], sidecar("/srv/content/new.content_meta", weighted("N", "/new", 9)));
}

#[test]
fn a_page_without_list() {
    let mut s = store();
    let page = read_single_page(&mut s, &config(), "blog/heavy", 0).unwrap();
    assert_eq!(page.meta, weighted("Heavy", "/blog/heavy", 300));
    assert_eq!(page.section_meta.description, "The blog");
    assert_eq!(page.markdown.body, "<p>heavy</p>");
    assert_eq!(page.markdown.created, UtcDateTime { secs: 30 });
    assert_eq!(page.markdown.modified, UtcDateTime { secs: 40 });
    assert_eq!(page.html.unwrap().body, "<p>raw</p>");
    assert_eq!(page.json, None);
    assert!(page.list.is_empty());
    assert_eq!(s, store());
}

#[test]
fn a_page_lists_existing_pages_by_weight() {
    let mut s = store();
    let page = read_single_page(&mut s, &config(), "index", 1).unwrap();
    assert_eq!(page.meta.title, "Index");
    assert_eq!(page.section_meta, MenuItemMeta::default());
    assert_eq!(page.markdown.body, "<h1>Hi Mercury!</h1>");
    assert_eq!(page.list.len(), 2);
    assert_eq!(page.list[0].meta.title, "Light");
    assert_eq!(page.list[0].meta.weight, 5);
    assert_eq!(
        page.list[0].markdown.body,
        "Markdown file does not exist: /srv/content/blog/light.md"
    );
    assert_eq!(page.list[0].json.as_ref().unwrap().body, "{\"a\": 1}");
    assert_eq!(page.list[1].meta.title, "Heavy");
    assert_eq!(page.list[1].meta.weight, 300);
    assert_eq!(page.list[1].section_meta.description, "The blog");
}

#[test]
fn list_order_does_not_matter() {
    let c = config();
    let mut s = store();
    let one = read_content_list(
        &mut s,
        &c,
        &vec![String::from("blog/heavy"), String::from("blog/light")],
        0,
    )
    .unwrap();
    let other = read_content_list(
        &mut s,
        &c,
        &vec![String::from("blog/light"), String::from("blog/heavy")],
        0,
    )
    .unwrap();
    assert_eq!(one.len(), 2);
    assert_eq!(one, other);
    assert_eq!(one[0].meta.weight, 5);
    assert_eq!(one[1].meta.weight, 300);
}

#[test]
fn a_missing_listed_page_is_left_out() {
    let mut s = store();
    let list = read_content_list(&mut s, &config(), &vec![String::from("blog/missing")], 3).unwrap();
    assert!(list.is_empty());
    assert_eq!(s, store());
}

#[test]
fn listed_pages_get_their_metadata_made_up() {
    let mut s = store();
    let before = s.page_sidecars.len();
    let list = read_content_list(
        &mut s,
        &config(),
        &vec![String::from("blog/heavy"), String::from("blog/middle"), String::from("blog/light")],
        0,
    )
    .unwrap();
    assert_eq!(list.len(), 3);
    assert_eq!(list[0].meta.title, "Light");
    assert_eq!(list[1].meta.title, "middle");
    assert_eq!(list[1].meta.path, "/blog/middle");
    assert_eq!(list[1].meta.weight, 100);
    assert_eq!(list[2].meta.title, "Heavy");
    assert_eq!(s.page_sidecars.len(), before + 1);
}

#[test]
fn nesting_beyond_the_depth_is_an_error() {
    let mut s = store();
    assert_eq!(read_single_page(&mut s, &config(), "index", 0), Err(SiteError::CycleDetected));
}

#[test]
fn a_page_that_lists_itself_is_an_error_at_any_depth() {
    let mut s = ContentStore::new();
    s.bodies.push(body("/srv/content/loop.md", "l", 1, 1));
    let mut m = weighted("Loop", "/loop", 1);
    m.content_list = vec![String::from("loop")];
    s.page_sidecars.push(sidecar("/srv/content/loop.content_meta", m));
    assert_eq!(read_single_page(&mut s, &config(), "loop", 0), Err(SiteError::CycleDetected));
    assert_eq!(read_single_page(&mut s, &config(), "loop", 5), Err(SiteError::CycleDetected));
}

#[test]
fn a_page_fails_with_its_body() {
    let mut s = ContentStore::new();
    s.bodies.push(body("/srv/content/a.md", "a", u64::MAX, 1));
    assert_eq!(read_single_page(&mut s, &config(), "a", 1), Err(SiteError::Filesystem));
}

#[test]
fn pages_of_equal_weight_keep_their_order() {
    let mut list: Vec<PageContent> = Vec::new();
    for (title, weight) in [("a", 5u32), ("b", 1), ("c", 5), ("d", 3), ("e", 1)] {
        let mut p = PageContent::default();
        p.meta = weighted(title, "/", weight);
        place_page(&mut list, p);
    }
    let titles: Vec<String> = list.iter().map(|p| p.meta.title.clone()).collect();
    assert_eq!(titles, vec!["b", "e", "d", "a", "c"]);
}

#[test]
fn metadata_of_equal_weight_keep_their_order() {
    let mut list: Vec<ContentMeta> = Vec::new();
    for (title, weight) in [("a", 5u32), ("b", 1), ("c", 5), ("d", 0), ("e", 1)] {
        place_meta(&mut list, weighted(title, "/", weight));
    }
    let titles: Vec<String> = list.iter().map(|m| m.title.clone()).collect();
    assert_eq!(titles, vec!["d", "b", "e", "a", "c"]);
}

#[test]
fn a_directory_lists_each_page_once_by_weight() {
    let mut s = store();
    let before = s.page_sidecars.len();
    let metas = read_full_dir_sorted(&mut s, &config(), "blog").unwrap();
    let titles: Vec<String> = metas.iter().map(|m| m.title.clone()).collect();
    assert_eq!(titles, vec!["Light", "middle", "Heavy"]);
    assert_eq!(metas[1].path, "/blog/middle");
    assert_eq!(s.page_sidecars.len(), before + 1);
}

#[test]
fn a_directory_that_is_not_there() {
    let mut s = store();
    assert_eq!(read_full_dir_sorted(&mut s, &config(), "docs"), Err(SiteError::Filesystem));
    assert_eq!(s, store());
}

#[test]
fn the_root_directory_lists_its_own_pages_only() {
    let mut s = store();
    let metas = read_full_dir_sorted(&mut s, &config(), "").unwrap();
    assert_eq!(metas.len(), 1);
    assert_eq!(metas[0].title, "Index");
}
