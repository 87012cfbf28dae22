use agent_k_backend::knowledge::{
    check_ref_target, clean_target, cx, is_ref_file, is_safe_target, is_under_knowledge,
    is_valid_ref_name, keep_reference_target, ref_name_for, ref_path,
};

#[test]
fn clean_target_requires_absolute_normal_path() {
    assert_eq!(clean_target("/files/a.md").unwrap(), "/files/a.md");
    assert_eq!(clean_target("  /a//b/ ").unwrap(), "/a/b");
    assert!(clean_target("a.md").is_err());
    assert!(clean_target("/").is_err());
    assert!(clean_target("/../etc/passwd").is_err());
    assert!(clean_target("/a/./b").is_err());
}

#[test]
fn safe_target_rules() {
    assert!(is_safe_target("/files/a.md"));
    assert!(!is_safe_target("a.md"));
    assert!(!is_safe_target("/a/../b"));
    assert!(!is_safe_target("/"));
}

#[test]
fn clean_target_error_messages() {
    assert_eq!(
        clean_target("a.md").unwrap_err(),
        "target_path must be an absolute unified-tree path"
    );
    assert_eq!(clean_target("///").unwrap_err(), "target_path must not be the root");
    assert_eq!(
        clean_target("/a/../b").unwrap_err(),
        "target_path must not contain '.' or '..'"
    );
}

#[test]
fn knowledge_dir_membership() {
    assert!(is_under_knowledge("/files/knowledge"));
    assert!(is_under_knowledge("files/knowledge/a.ref"));
    assert!(!is_under_knowledge("/files/knowledgebase/a"));
    assert!(!keep_reference_target("/files/knowledge/x.md"));
    assert!(keep_reference_target("/files/docs/x.md"));
    assert!(!keep_reference_target("docs/x.md"));
}

#[test]
fn reference_names() {
    assert!(is_ref_file("notes-1234abcd.ref"));
    assert!(!is_ref_file("notes.md"));
    assert!(is_valid_ref_name("a.ref"));
    assert!(!is_valid_ref_name("a/b.ref"));
    assert!(!is_valid_ref_name("..a.ref"));
    assert!(!is_valid_ref_name("a.md"));
    assert_eq!(ref_path("a.ref"), "/files/knowledge/a.ref");
    assert_eq!(cx("/files/a.md"), "files/a.md");
}

#[test]
fn ref_name_uses_the_stem_and_a_random_suffix() {
    let n = ref_name_for("/files/docs/Q3 report.final.pdf");
    assert!(n.starts_with("Q3-report-"), "{n}");
    assert!(n.ends_with(".ref"));
    assert_eq!(n.len(), "Q3-report-".len() + 8 + ".ref".len());
    let m = ref_name_for("/files/docs/...");
    assert!(m.starts_with("item-"), "{m}");
}

#[test]
fn create_ref_target_checks() {
    let e = check_ref_target("/files/knowledge/x").err().unwrap();
    assert_eq!(e.status, 400);
    assert_eq!(e.message, "cannot reference the knowledge directory itself");
    let e = check_ref_target("relative").err().unwrap();
    assert_eq!(e.status, 400);
    assert_eq!(check_ref_target(" /files//a.md ").ok().unwrap(), "/files/a.md");
}

#[test]
fn cleaning_a_cleaned_target_changes_nothing() {
    for raw in ["  /files//docs/./x.md ", "/files/docs/", "//a//b//", "/notion/page"] {
        if let Ok(t) = clean_target(raw) {
            assert!(t.starts_with('/') && !t.ends_with('/'), "{t}");
            assert!(!t.contains("//"), "{t}");
            assert_eq!(clean_target(&t), Ok(t.clone()));
        }
    }
    assert_eq!(clean_target("//a//b//"), Ok("/a/b".to_string()));
}
