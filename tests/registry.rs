use project_store::recent::{
    load_recent, remove_file, remove_path, render_recent, retain_live, touch, touch_file,
    MAX_RECENT,
};

fn s(x: &str) -> String {
    x.to_string()
}

#[test]
fn touch_promotes_without_duplicating() {
    let mut l: Vec<String> = Vec::new();
    touch(&mut l, s("A"));
    touch(&mut l, s("B"));
    touch(&mut l, s("A"));
    assert_eq!(l, vec![s("A"), s("B")]);
}

#[test]
fn eleventh_entry_drops_the_oldest() {
    let mut l: Vec<String> = Vec::new();
    for i in 0..10 {
        touch(&mut l, format!("p{}", i));
    }
    assert_eq!(l.len(), MAX_RECENT);
    assert_eq!(l[9], "p0");
    touch(&mut l, s("new"));
    assert_eq!(l.len(), 10);
    assert_eq!(l[0], "new");
    assert_eq!(l[9], "p1");
    assert!(!l.contains(&s("p0")));
}

#[test]
fn remove_absent_leaves_list() {
    let mut l = vec![s("a"), s("b")];
    remove_path(&mut l, &s("c"));
    assert_eq!(l, vec![s("a"), s("b")]);
    remove_path(&mut l, &s("a"));
    assert_eq!(l, vec![s("b")]);
}

#[test]
fn dead_projects_are_filtered_in_order() {
    let l = vec![s("a"), s("b"), s("c")];
    assert_eq!(retain_live(&l, &[true, false, true]), vec![s("a"), s("c")]);
    assert_eq!(l.len(), 3);
}

#[test]
fn missing_or_corrupt_list_reads_empty() {
    assert!(load_recent(None).is_empty());
    assert!(load_recent(Some("{not json")).is_empty());
    assert_eq!(load_recent(Some("[\"x\", \"y\"]")), vec![s("x"), s("y")]);
}

#[test]
fn list_file_round_trip() {
    let l = vec![s("/a/b"), s("c \"d\"")];
    let text = render_recent(&l).unwrap();
    assert!(text.contains('\n'));
    assert_eq!(load_recent(Some(&text)), l);
}

#[test]
fn touch_file_writes_new_text() {
    let text = touch_file(None, s("p")).unwrap();
    assert_eq!(load_recent(Some(&text)), vec![s("p")]);
    let text = touch_file(Some(&text), s("q")).unwrap();
    assert_eq!(load_recent(Some(&text)), vec![s("q"), s("p")]);
    let text = touch_file(Some("garbage"), s("r")).unwrap();
    assert_eq!(load_recent(Some(&text)), vec![s("r")]);
}

#[test]
fn remove_file_keeps_absent_file_absent() {
    assert_eq!(remove_file(None, &s("p")).unwrap(), None);
    let text = render_recent(&vec![s("p"), s("q")]).unwrap();
    let new_text = remove_file(Some(&text), &s("p")).unwrap().unwrap();
    assert_eq!(load_recent(Some(&new_text)), vec![s("q")]);
    let same = remove_file(Some(&new_text), &s("zzz")).unwrap().unwrap();
    assert_eq!(load_recent(Some(&same)), vec![s("q")]);
}
