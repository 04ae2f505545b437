use tucha::{Dir, File, FileMetadata, Path};

fn file(path: &str, id: i32, name: &str) -> File {
    File::new(FileMetadata::new(path.to_string()), id, name.to_string())
}

fn sorted_ids(d: &Dir) -> Vec<i32> {
    let mut ids = d.get_files_messages_ids();
    ids.sort();
    ids
}

fn assert_same_tree(a: &Dir, b: &Dir) {
    assert_eq!(a.name, b.name);
    assert_eq!(sorted_ids(a), sorted_ids(b));
    let ca = a.get_children_dirs();
    let cb = b.get_children_dirs();
    assert_eq!(ca.len(), cb.len());
    for child in ca {
        let other = cb
            .iter()
            .find(|c| c.name == child.name)
            .unwrap_or_else(|| panic!("missing child {}", child.name));
        assert_same_tree(child, other);
    }
}

#[test]
fn new_and_root_names() {
    let d = Dir::new("docs");
    assert_eq!(d.name, "docs".to_string());
    assert!(d.files.is_empty());
    assert!(d.get_children_dirs().is_empty());
    let r = Dir::root();
    assert_eq!(r.name, "/".to_string());
}

#[test]
fn add_new_path_creates_missing_chain() {
    let mut root = Dir::root();
    root.add_new_path(&vec!["a".to_string(), "b".to_string()]);
    let kids = root.get_children_dirs();
    assert_eq!(kids.len(), 1);
    assert_eq!(kids[0].name, "a".to_string());
    let grand = kids[0].get_children_dirs();
    assert_eq!(grand.len(), 1);
    assert_eq!(grand[0].name, "b".to_string());
}

#[test]
fn add_new_path_twice_creates_no_duplicate() {
    let mut root = Dir::root();
    let comps = vec!["a".to_string(), "b".to_string()];
    root.add_new_path(&comps);
    root.add_new_path(&comps);
    let kids = root.get_children_dirs();
    assert_eq!(kids.len(), 1);
    assert_eq!(kids[0].get_children_dirs().len(), 1);
    assert_eq!(kids[0].get_children_dirs()[0].name, "b".to_string());
    assert!(kids[0].get_children_dirs()[0].get_children_dirs().is_empty());
}

#[test]
fn find_directory_resolves_existing_chain() {
    let mut root = Dir::root();
    root.add_new_path(&vec!["a".to_string(), "b".to_string()]);
    let found = root.find_directory_by_relative_path(&Path::new("a/b"));
    assert!(found.is_some());
    assert_eq!(found.unwrap().name, "b".to_string());
}

#[test]
fn find_directory_not_found_when_tail_missing() {
    let mut root = Dir::root();
    root.add_new_path(&vec!["a".to_string()]);
    assert!(root.find_directory_by_relative_path(&Path::new("a")).is_some());
    assert!(root.find_directory_by_relative_path(&Path::new("a/b")).is_none());
}

#[test]
fn files_message_ids_are_direct_only() {
    let files = vec![file("/x/one", 1, "one"), file("/x/two", 2, "two"), file("/x/y/three", 3, "three")];
    let root = Dir::build_tree(&files);
    let x = root.find_directory_by_relative_path(&Path::new("x")).unwrap();
    assert_eq!(sorted_ids(x), vec![1, 2]);
    let y = x.find_directory_by_relative_path(&Path::new("y")).unwrap();
    assert_eq!(sorted_ids(y), vec![3]);
    assert_eq!(sorted_ids(&root), Vec::<i32>::new());
}

#[test]
fn build_tree_places_top_level_files_at_root() {
    let files = vec![file("note", 7, "note")];
    let root = Dir::build_tree(&files);
    assert_eq!(sorted_ids(&root), vec![7]);
    assert!(root.get_children_dirs().is_empty());
}

#[test]
fn build_tree_is_order_insensitive() {
    let a = vec![
        file("/a/b/one", 1, "one"),
        file("/a/two", 2, "two"),
        file("three", 3, "three"),
        file("/a/b/four", 4, "four"),
    ];
    let b = vec![
        file("/a/b/four", 4, "four"),
        file("three", 3, "three"),
        file("/a/b/one", 1, "one"),
        file("/a/two", 2, "two"),
    ];
    let ta = Dir::build_tree(&a);
    let tb = Dir::build_tree(&b);
    assert_same_tree(&ta, &tb);
}

#[test]
fn build_tree_twice_same_list_is_identical() {
    let files = vec![file("/a/one", 1, "one"), file("/a/two", 2, "two")];
    let t1 = Dir::build_tree(&files);
    let t2 = Dir::build_tree(&files);
    assert_same_tree(&t1, &t2);
}
