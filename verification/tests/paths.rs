use n4::paths::{file_name, file_stem, join, parent, string_from_stem, with_extension};
use n4::text::{
    append_text, ends_with, find, rfind_char, same_text, starts_with, strip_prefix, strip_suffix,
};

#[test]
fn it_works() {
    assert_eq!(2 + 2, 4);
}

#[test]
fn stem_is_the_name_up_to_the_last_dot() {
    assert_eq!(file_stem("index.md"), "index");
    assert_eq!(file_stem("archive.tar.gz"), "archive.tar");
    assert_eq!(file_stem("README"), "README");
}

#[test]
fn stem_of_a_hidden_file_is_the_whole_name() {
    assert_eq!(file_stem(".gitignore"), ".gitignore");
    assert_eq!(file_stem(".."), "..");
    assert_eq!(file_stem(".config.json"), ".config");
    assert_eq!(file_stem(""), "");
}

#[test]
fn stem_counts_characters_not_bytes() {
    assert_eq!(file_stem("cr\u{e8}me.md"), "cr\u{e8}me");
    assert_eq!(file_stem("\u{65e5}\u{672c}.\u{8a9e}"), "\u{65e5}\u{672c}");
}

#[test]
fn file_name_follows_the_last_separator() {
    assert_eq!(file_name("/srv/content/blog/post1.md"), "post1.md");
    assert_eq!(file_name("post1.md"), "post1.md");
    assert_eq!(file_name("/srv/content/"), "");
}

#[test]
fn string_from_stem_names_the_page() {
    assert_eq!(string_from_stem("/srv/content/blog/post1.content_meta"), "post1");
    assert_eq!(string_from_stem("/srv/content/"), "Default file stem value ERROR.");
    assert_eq!(string_from_stem(""), "Default file stem value ERROR.");
}

#[test]
fn with_extension_replaces_or_adds() {
    assert_eq!(with_extension("/srv/content/blog/post1", "md"), "/srv/content/blog/post1.md");
    assert_eq!(with_extension("/srv/content/blog/post1.md", "html"), "/srv/content/blog/post1.html");
    assert_eq!(with_extension("/srv/content.d/post1", "json"), "/srv/content.d/post1.json");
    assert_eq!(with_extension("post1.tar.gz", "zip"), "post1.tar.zip");
}

#[test]
fn with_empty_extension_removes_it() {
    assert_eq!(with_extension("/srv/content/blog/post1.content_meta", ""), "/srv/content/blog/post1");
    assert_eq!(with_extension("/srv/content/blog/post1", ""), "/srv/content/blog/post1");
}

#[test]
fn with_extension_leaves_a_path_without_file_name() {
    assert_eq!(with_extension("/srv/content/", "md"), "/srv/content/");
    assert_eq!(with_extension("", "md"), "");
}

#[test]
fn parent_drops_the_last_component() {
    assert_eq!(parent("/srv/content/blog/post1"), "/srv/content/blog");
    assert_eq!(parent("/srv"), "/");
    assert_eq!(parent("/"), "/");
    assert_eq!(parent("post1"), "");
}

#[test]
fn join_adds_one_separator() {
    assert_eq!(join("/srv/content", "blog"), "/srv/content/blog");
    assert_eq!(join("/srv/content/", "blog"), "/srv/content/blog");
    assert_eq!(join("", "blog"), "blog");
}

#[test]
fn text_prefixes_and_suffixes() {
    assert!(starts_with("content/blog", "content"));
    assert!(starts_with("content", ""));
    assert!(!starts_with("con", "content"));
    assert!(ends_with("post1.content_meta", "meta"));
    assert!(!ends_with("post1.md", "meta"));
    assert_eq!(strip_prefix("content/blog", "content/"), Some(String::from("blog")));
    assert_eq!(strip_prefix("content/blog", "site/"), None);
    assert_eq!(strip_suffix("/content/", "/"), Some(String::from("/content")));
    assert_eq!(strip_suffix("/content", "/"), None);
}

#[test]
fn text_search() {
    assert_eq!(find("/srv/content/blog/content/x", "/content/"), Some(4));
    assert_eq!(find("/srv/site/blog", "/content/"), None);
    assert_eq!(find("abc", ""), Some(0));
    assert_eq!(find("", "a"), None);
    assert_eq!(rfind_char("a.b.c", '.'), Some(3));
    assert_eq!(rfind_char("abc", '.'), None);
    assert_eq!(rfind_char("\u{e8}.\u{e8}.x", '.'), Some(3));
}

#[test]
fn text_concat_and_equality() {
    assert_eq!(append_text("/srv", "/content/"), "/srv/content/");
    assert!(same_text("blog", "blog"));
    assert!(!same_text("blog", "blo"));
    assert!(!same_text("blog", "blag"));
}
