use ghucl::file_tree::{DirEntryInfo, FileTree, FileTreeItem};

fn entry(name: &str, parent: &str, is_file: bool) -> DirEntryInfo {
    DirEntryInfo {
        name: name.to_string(),
        path: format!("{parent}/{name}"),
        is_file,
        is_dir: !is_file,
    }
}

fn names(tree: &FileTree) -> Vec<String> {
    let mut out = vec![];
    for i in 0..tree.item_count() {
        out.push(tree.item_at(i).get_name());
    }
    out
}

#[test]
fn listing_order_files_then_directories_sorted() {
    let entries = vec![
        entry("b.txt", "/r", true),
        entry("z", "/r", false),
        entry("a.txt", "/r", true),
        entry("y", "/r", false),
    ];
    let tree = FileTree::from_path(&"/r".to_string(), &entries);
    assert_eq!(
        names(&tree),
        vec![
            "..".to_string(),
            "a.txt".to_string(),
            "b.txt".to_string(),
            "y".to_string(),
            "z".to_string()
        ]
    );
    assert_eq!(
        tree.item_at(0),
        &FileTreeItem::Control { name: "..".to_string(), path: "/r".to_string() }
    );
    assert_eq!(
        tree.item_at(1),
        &FileTreeItem::File { name: "a.txt".to_string(), path: "/r/a.txt".to_string() }
    );
    assert_eq!(
        tree.item_at(3),
        &FileTreeItem::Directory { name: "y".to_string(), path: "/r/y".to_string() }
    );
    assert_eq!(tree.item_at(1).get_path(), "/r/a.txt".to_string());
    assert_eq!(tree.item_at(2).get_name(), "b.txt".to_string());
}

#[test]
fn navigation_outside_root_is_a_no_op() {
    let entries = vec![entry("a.txt", "/r", true)];
    let mut tree = FileTree::from_path(&"/r".to_string(), &entries);
    let before = names(&tree);
    let other = vec![entry("evil", "/outside", true)];
    tree.navigate(&"/outside".to_string(), Some(&other));
    assert_eq!(names(&tree), before);
    assert!(!tree.in_root(&"/outside".to_string()));
}

#[test]
fn navigation_failed_read_keeps_prior_listing() {
    let entries = vec![entry("a.txt", "/r", true)];
    let mut tree = FileTree::from_path(&"/r".to_string(), &entries);
    let before = names(&tree);
    tree.navigate(&"/r/sub".to_string(), None);
    assert_eq!(names(&tree), before);
}

#[test]
fn navigation_into_child_relists_with_parent_as_up_target() {
    let entries = vec![entry("sub", "/r", false)];
    let mut tree = FileTree::from_path(&"/r".to_string(), &entries);
    let sub_entries = vec![entry("inner.txt", "/r/sub", true)];
    tree.navigate(&"/r/sub".to_string(), Some(&sub_entries));
    assert_eq!(
        tree.item_at(0),
        &FileTreeItem::Control { name: "..".to_string(), path: "/r".to_string() }
    );
    assert_eq!(
        tree.item_at(1),
        &FileTreeItem::File { name: "inner.txt".to_string(), path: "/r/sub/inner.txt".to_string() }
    );
    assert_eq!(tree.item_count(), 2);
}

#[test]
fn listing_order_is_independent_of_enumeration_order() {
    let expected = vec![
        "..".to_string(),
        "a.txt".to_string(),
        "b.txt".to_string(),
        "y".to_string(),
        "z".to_string(),
    ];
    let orders = vec![
        vec![
            entry("z", "/r", false),
            entry("y", "/r", false),
            entry("b.txt", "/r", true),
            entry("a.txt", "/r", true),
        ],
        vec![
            entry("a.txt", "/r", true),
            entry("y", "/r", false),
            entry("z", "/r", false),
            entry("b.txt", "/r", true),
        ],
    ];
    for entries in orders {
        let tree = FileTree::from_path(&"/r".to_string(), &entries);
        assert_eq!(names(&tree), expected);
    }
}

#[test]
fn navigation_with_trailing_separator_still_finds_the_parent() {
    let entries = vec![entry("sub", "/r", false)];
    let mut tree = FileTree::from_path(&"/r".to_string(), &entries);
    let sub_entries = vec![entry("inner.txt", "/r/sub", true)];
    tree.navigate(&"/r/sub/".to_string(), Some(&sub_entries));
    assert_eq!(
        tree.item_at(0),
        &FileTreeItem::Control { name: "..".to_string(), path: "/r".to_string() }
    );
}

#[test]
fn navigation_to_root_clamps_up_target_to_root() {
    let entries = vec![entry("sub", "/r/x", false)];
    let mut tree = FileTree::from_path(&"/r/x".to_string(), &entries);
    tree.navigate(&"/r/x".to_string(), Some(&entries));
    // the parent "/r" would leave the root "/r/x", so the up entry clamps
    assert_eq!(
        tree.item_at(0),
        &FileTreeItem::Control { name: "..".to_string(), path: "/r/x".to_string() }
    );
}

#[test]
fn initial_listing_up_entry_targets_the_root() {
    let tree = FileTree::from_path(&"/r".to_string(), &vec![]);
    assert_eq!(tree.item_count(), 1);
    assert_eq!(
        tree.item_at(0),
        &FileTreeItem::Control { name: "..".to_string(), path: "/r".to_string() }
    );
}

#[test]
fn file_names_projects_files_only_in_order() {
    let entries = vec![
        entry("b.txt", "/r", true),
        entry("z", "/r", false),
        entry("a.txt", "/r", true),
    ];
    let tree = FileTree::from_path(&"/r".to_string(), &entries);
    assert_eq!(tree.get_file_names(), vec!["a.txt".to_string(), "b.txt".to_string()]);
}

#[test]
fn entries_neither_file_nor_directory_are_skipped() {
    let odd = DirEntryInfo {
        name: "link".to_string(),
        path: "/r/link".to_string(),
        is_file: false,
        is_dir: false,
    };
    let tree = FileTree::from_path(&"/r".to_string(), &vec![odd]);
    assert_eq!(tree.item_count(), 1);
}
