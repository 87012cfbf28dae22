use agent_k_backend::snapshot::{diff_snapshots, Change, Snapshot};

fn snap(pairs: &[(&str, &str)]) -> Snapshot {
    let mut s = Snapshot::new();
    for (p, sig) in pairs {
        s.insert(p.to_string(), sig.to_string());
    }
    s
}

fn path_of(c: &Change) -> String {
    match c {
        Change::Created(p) | Change::Modified(p) | Change::Removed(p) => p.clone(),
    }
}

#[test]
fn diff_detects_add_change_remove() {
    let prev = snap(&[("/m/a", "1"), ("/m/b", "1")]);
    let next = snap(&[("/m/a", "1"), ("/m/b", "2"), ("/m/c", "1")]);
    let mut got = diff_snapshots(&prev, &next);
    got.sort_by_key(path_of);
    assert_eq!(
        got,
        vec![Change::Modified("/m/b".into()), Change::Created("/m/c".into()),]
    );
}

#[test]
fn diff_detects_removal() {
    let prev = snap(&[("/m/a", "1")]);
    let next = snap(&[]);
    assert_eq!(diff_snapshots(&prev, &next), vec![Change::Removed("/m/a".into())]);
}

#[test]
fn identical_snapshots_have_no_changes() {
    let prev = snap(&[("/m/a", "1:10"), ("/m/b", "2:20")]);
    let next = snap(&[("/m/b", "2:20"), ("/m/a", "1:10")]);
    assert!(diff_snapshots(&prev, &next).is_empty());
}

#[test]
fn a_later_signature_replaces_the_earlier() {
    let mut s = snap(&[("/m/a", "1")]);
    s.insert("/m/a".to_string(), "2".to_string());
    assert_eq!(s.len(), 1);
    assert_eq!(s.get("/m/a").unwrap(), "2");
}
