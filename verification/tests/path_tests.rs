use tucha::Path;

fn comps(p: &Path) -> Vec<String> {
    p.components()
}

#[test]
fn new_drops_empty_segments_and_keeps_order() {
    let p = Path::new("/a//b/");
    assert_eq!(comps(&p), vec!["a".to_string(), "b".to_string()]);
    assert_eq!(p.path(), "/a//b/".to_string());
}

#[test]
fn new_empty_text_has_no_components() {
    let p = Path::new("");
    assert_eq!(comps(&p), Vec::<String>::new());
}

#[test]
fn new_bare_separator_has_no_components() {
    let p = Path::new("/");
    assert_eq!(comps(&p), Vec::<String>::new());
}

#[test]
fn new_plain_path() {
    let p = Path::new("a/b/c");
    assert_eq!(comps(&p), vec!["a".to_string(), "b".to_string(), "c".to_string()]);
}

#[test]
fn name_is_last_component() {
    let p = Path::new("a/b/c");
    assert_eq!(p.name(), Some("c"));
    let root = Path::new("/");
    assert_eq!(root.name(), None);
}

#[test]
fn parent_removes_last_component() {
    let p = Path::new("a/b/c");
    let parent = p.parent();
    assert_eq!(comps(&parent), vec!["a".to_string(), "b".to_string()]);
    assert_eq!(parent.path(), "a/b".to_string());
}

#[test]
fn parent_of_single_component_is_root() {
    let p = Path::new("a");
    let parent = p.parent();
    assert_eq!(comps(&parent), Vec::<String>::new());
    assert_eq!(parent.path(), "".to_string());
}

#[test]
fn parent_components_equal_fresh_path() {
    let p = Path::new("a/b/c").parent();
    let q = Path::new("a/b");
    assert_eq!(comps(&p), comps(&q));
    assert_eq!(p, q);
}

#[test]
fn join_appends_raw_text() {
    let p = Path::new("/a");
    let joined = p.join("/b");
    assert_eq!(comps(&joined), vec!["a".to_string(), "b".to_string()]);
    assert_eq!(joined.path(), "/a/b".to_string());
}

#[test]
fn push_appends_segment_and_separator() {
    let mut p = Path::new("/");
    p.push("docs");
    assert_eq!(comps(&p), vec!["docs".to_string()]);
    assert_eq!(p.path(), "/docs/".to_string());
    p.push("img");
    assert_eq!(comps(&p), vec!["docs".to_string(), "img".to_string()]);
    assert_eq!(p.path(), "/docs/img/".to_string());
}

#[test]
fn push_separates_from_a_bare_last_component() {
    let mut p = Path::new("a");
    p.push("b");
    assert_eq!(comps(&p), vec!["a".to_string(), "b".to_string()]);
    assert_eq!(p.path(), "a/b/".to_string());
}

#[test]
fn push_appends_every_component_of_the_text() {
    let mut p = Path::new("/");
    p.push("x/y");
    assert_eq!(comps(&p), vec!["x".to_string(), "y".to_string()]);
}

#[test]
fn pop_removes_last_component_and_rebuilds_text() {
    let mut p = Path::new("/a/b/");
    p.pop();
    assert_eq!(comps(&p), vec!["a".to_string()]);
    assert_eq!(p.path(), "/a/".to_string());
    p.pop();
    assert_eq!(comps(&p), Vec::<String>::new());
    assert_eq!(p.path(), "/".to_string());
    p.pop();
    assert_eq!(comps(&p), Vec::<String>::new());
    assert_eq!(p.path(), "/".to_string());
}

#[test]
fn default_is_root() {
    let p = Path::default();
    assert_eq!(p.path(), "/".to_string());
    assert_eq!(comps(&p), Vec::<String>::new());
}

#[test]
fn equality_is_by_component_sequences() {
    assert_eq!(Path::new("a/b"), Path::new("a/b"));
    assert_eq!(Path::new("/a/"), Path::new("a"));
    assert_ne!(Path::new("a"), Path::new("b"));
    assert_ne!(Path::new("a/b"), Path::new("a"));
}
