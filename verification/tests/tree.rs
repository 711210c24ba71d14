use n4::file_tree::{
    dir_to_tree, files_in_tree, get_file_metadata, insert_file, key_of_file, relative_path_of,
    DirListing, DirTree, FileEntry, FileMeta, ListedFile, Timestamp,
};

fn meta(secs: u64, size: u64) -> FileMeta {
    FileMeta {
        created: Timestamp { secs, nanos: 0 },
        modified: Timestamp { secs: secs + 1, nanos: 500 },
        size,
    }
}

fn file(name: &str, secs: u64) -> ListedFile {
    ListedFile { name: String::from(name), meta: meta(secs, 10) }
}

fn dir(name: &str, files: Vec<ListedFile>, directories: Vec<DirListing>) -> DirListing {
    DirListing { name: String::from(name), meta: meta(1, 4096), files, directories }
}

fn sample() -> DirListing {
    dir(
        "content",
        vec![file("index.md", 10), file("about.html", 20)],
        vec![
            dir("blog", vec![file("post1.md", 30), file("post2.md", 40)], vec![
                dir("2020", vec![file("old.md", 50)], vec![]),
            ]),
            dir("docs", vec![], vec![]),
        ],
    )
}

fn names(entries: &Vec<FileEntry>) -> Vec<String> {
    entries.iter().map(|e| e.name.clone()).collect()
}

#[test]
fn default_meta_is_blank() {
    let m = FileMeta::default();
    assert_eq!(m.created, Timestamp { secs: 0, nanos: 0 });
    assert_eq!(m.modified, Timestamp { secs: 0, nanos: 0 });
    assert_eq!(m.size, 0);
}

#[test]
fn default_tree_is_empty() {
    let t = DirTree::default();
    assert_eq!(t.absolute_path, "");
    assert_eq!(t.relative_path, "");
    assert_eq!(t.dir_meta, FileMeta::default());
    assert!(t.files.is_empty());
    assert!(t.directories.is_empty());
}

#[test]
fn file_metadata_keeps_its_parts() {
    let m = get_file_metadata(Timestamp { secs: 5, nanos: 6 }, Timestamp { secs: 7, nanos: 8 }, 9);
    assert_eq!(m.created, Timestamp { secs: 5, nanos: 6 });
    assert_eq!(m.modified, Timestamp { secs: 7, nanos: 8 });
    assert_eq!(m.size, 9);
}

#[test]
fn relative_path_of_the_root_has_no_separator_in_front() {
    assert_eq!(relative_path_of("", "content"), "content");
    assert_eq!(relative_path_of("content", "blog"), "content/blog");
    assert_eq!(relative_path_of("/content", "blog"), "content/blog");
}

#[test]
fn file_key_is_the_stem() {
    assert_eq!(key_of_file("index.md"), "index");
    assert_eq!(key_of_file("index"), "index");
    assert_eq!(key_of_file(""), "ERROR_File_stem_not_parsed");
}

#[test]
fn tree_mirrors_the_listing() {
    let tree = dir_to_tree("/srv/content/", "", &sample());
    assert_eq!(tree.absolute_path, "/srv/content/");
    assert_eq!(tree.relative_path, "content");
    assert_eq!(tree.dir_meta, meta(1, 4096));
    assert_eq!(names(&tree.files), vec!["index", "about"]);
    assert_eq!(tree.files[0].meta, meta(10, 10));
    assert_eq!(tree.directories.len(), 2);
    let blog = &tree.directories[0];
    assert_eq!(blog.name, "blog");
    assert_eq!(blog.tree.absolute_path, "/srv/content/blog");
    assert_eq!(blog.tree.relative_path, "content/blog");
    assert_eq!(names(&blog.tree.files), vec!["post1", "post2"]);
    let year = &blog.tree.directories[0];
    assert_eq!(year.name, "2020");
    assert_eq!(year.tree.absolute_path, "/srv/content/blog/2020");
    assert_eq!(year.tree.relative_path, "content/blog/2020");
    assert_eq!(names(&year.tree.files), vec!["old"]);
    assert!(year.tree.directories.is_empty());
    let docs = &tree.directories[1];
    assert_eq!(docs.name, "docs");
    assert_eq!(docs.tree.relative_path, "content/docs");
    assert!(docs.tree.files.is_empty());
}

#[test]
fn a_directory_with_a_dot_keeps_its_name() {
    let listing = dir("content", vec![], vec![dir("v1.2", vec![file("a.md", 1)], vec![])]);
    let tree = dir_to_tree("/srv/content", "", &listing);
    assert_eq!(tree.directories[0].name, "v1.2");
    assert_eq!(tree.directories[0].tree.relative_path, "content/v1.2");
    assert_eq!(tree.directories[0].tree.absolute_path, "/srv/content/v1.2");
}

#[test]
fn files_that_share_a_stem_collapse_to_the_last() {
    let listing = dir(
        "content",
        vec![file("index.md", 10), file("other.md", 20), file("index.json", 30)],
        vec![],
    );
    let tree = dir_to_tree("/srv/content", "", &listing);
    assert_eq!(names(&tree.files), vec!["index", "other"]);
    assert_eq!(tree.files[0].meta, meta(30, 10));
    assert_eq!(tree.files[1].meta, meta(20, 10));
}

#[test]
fn insert_file_replaces_or_appends() {
    let mut files: Vec<FileEntry> = Vec::new();
    insert_file(&mut files, String::from("a"), meta(1, 1));
    insert_file(&mut files, String::from("b"), meta(2, 2));
    insert_file(&mut files, String::from("a"), meta(3, 3));
    assert_eq!(names(&files), vec!["a", "b"]);
    assert_eq!(files[0].meta, meta(3, 3));
    assert_eq!(files[1].meta, meta(2, 2));
}

#[test]
fn files_in_tree_lists_own_files_first() {
    let tree = dir_to_tree("/srv/content/", "", &sample());
    assert_eq!(
        files_in_tree(&tree),
        vec![
            "content/index",
            "content/about",
            "content/blog/post1",
            "content/blog/post2",
            "content/blog/2020/old",
        ]
    );
}

#[test]
fn files_in_an_empty_tree() {
    let tree = dir_to_tree("/srv/content", "", &dir("content", vec![], vec![]));
    assert!(files_in_tree(&tree).is_empty());
}
