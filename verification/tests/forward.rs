use agent_k_backend::forward::{
    command_op, find_subslice, parse_query, parse_request_head, percent_decode, plan_request,
    read_range, response_head, ForwardAction,
};

#[test]
fn request_head_is_parsed() {
    let head = "PUT /write?path=%2Fs3%2Fa+b.txt HTTP/1.1\r\nHost: x\r\nX-VFS-Token:  secret \r\ncontent-length: 12\r\nContent-Length: +7";
    let r = parse_request_head(head);
    assert_eq!(r.method, "PUT");
    assert_eq!(r.path, "/write");
    assert_eq!(r.query, "path=%2Fs3%2Fa+b.txt");
    assert_eq!(r.token.as_deref(), Some("secret"));
    assert_eq!(r.content_length, 7);
}

#[test]
fn bad_length_reads_as_zero_and_missing_target_as_root() {
    let r = parse_request_head("GET\r\ncontent-length: twelve");
    assert_eq!(r.method, "GET");
    assert_eq!(r.path, "/");
    assert_eq!(r.query, "");
    assert_eq!(r.token, None);
    assert_eq!(r.content_length, 0);
}

#[test]
fn requests_are_routed_after_the_token_check() {
    let ok = parse_request_head("GET /read?path=/m/f&offset=3&size=4 HTTP/1.1\r\nx-vfs-token: t");
    match plan_request(&ok, "t") {
        ForwardAction::Read { path, offset, size } => {
            assert_eq!(path, "/m/f");
            assert_eq!((offset, size), (Some(3), Some(4)));
        }
        _ => panic!("expected a read"),
    }
    assert!(matches!(plan_request(&ok, "other"), ForwardAction::Forbidden));
    let none = parse_request_head("GET /stat HTTP/1.1");
    assert!(matches!(plan_request(&none, "t"), ForwardAction::Forbidden));
    let unknown = parse_request_head("PATCH /stat HTTP/1.1\r\nx-vfs-token: t");
    assert!(matches!(plan_request(&unknown, "t"), ForwardAction::NotFound));
    let stat = parse_request_head("GET /stat HTTP/1.1\r\nx-vfs-token: t");
    match plan_request(&stat, "t") {
        ForwardAction::Stat { path } => assert_eq!(path, "/"),
        _ => panic!("expected a stat"),
    }
    let mv = parse_request_head("POST /rename?path=/a&to=/b HTTP/1.1\r\nx-vfs-token: t");
    match plan_request(&mv, "t") {
        ForwardAction::Rename { path, to } => assert_eq!((path.as_str(), to.as_str()), ("/a", "/b")),
        _ => panic!("expected a rename"),
    }
}

#[test]
fn query_and_percent_decoding() {
    assert_eq!(percent_decode("a%20b+c%2"), "a b c%2");
    let q = parse_query("path=%2Fx&&flag&path=%2Fy");
    assert_eq!(q.get("path").as_deref(), Some("/y"));
    assert_eq!(q.get("flag").as_deref(), Some(""));
    assert_eq!(q.get("missing"), None);
}

#[test]
fn head_end_search_and_ranges() {
    assert_eq!(find_subslice(b"GET / HTTP/1.1\r\n\r\nbody", b"\r\n\r\n"), Some(14));
    assert_eq!(find_subslice(b"partial\r\n", b"\r\n\r\n"), None);
    assert_eq!(read_range(Some(3), Some(4)), Some((3, 7)));
    assert_eq!(read_range(Some(3), None), None);
    assert_eq!(command_op("/.cmd/send").as_deref(), Some("send"));
    assert_eq!(command_op("/inbox/a"), None);
}

#[test]
fn response_heads() {
    assert_eq!(
        response_head(404, "text/plain", 9),
        "HTTP/1.1 404 Not Found\r\nContent-Type: text/plain\r\nContent-Length: 9\r\nConnection: close\r\n\r\n"
    );
    assert!(response_head(500, "text/plain", 0).starts_with("HTTP/1.1 500 Internal Server Error\r\n"));
    assert!(response_head(200, "application/json", 1234).contains("Content-Length: 1234\r\n"));
}
