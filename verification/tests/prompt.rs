use agent_k_backend::prompt::{tunnel_available, workspace_prompt, GUEST_MOUNT_ROOT};

#[test]
fn names_the_mount_root_and_connected_sources() {
    let p = workspace_prompt(&["notion".to_string(), "gmail".to_string()]);
    assert!(p.contains(GUEST_MOUNT_ROOT), "must name the entry point");
    assert!(p.contains("notion, gmail"), "must list the connected sources: {p}");
}

#[test]
fn a_workspace_with_no_providers_still_describes_the_mount() {
    let p = workspace_prompt(&[]);
    assert!(p.contains(GUEST_MOUNT_ROOT));
    assert!(p.contains("files/"));
    assert!(p.contains("none are connected yet"));
}

#[test]
fn appends_as_its_own_section() {
    let p = workspace_prompt(&[]);
    assert!(p.starts_with("\n\n## "), "must not run into the prior text");
}

#[test]
fn single_source_and_walk_warning() {
    let p = workspace_prompt(&["s3-prod".to_string()]);
    assert!(p.contains("Connected sources: s3-prod."));
    assert!(p.contains("Do not run recursive `find` or `grep -r` over `/mnt/workspace`."));
    assert!(p.ends_with("Task outputs still belong in the artifacts directory."));
}

#[test]
fn tunnel_needs_an_embedded_pump() {
    assert!(!tunnel_available(&[]));
    assert!(tunnel_available(&[0x7f, b'E', b'L', b'F']));
}
