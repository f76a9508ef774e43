use rust_serv::content_type::content_type_for;
use rust_serv::dispatch::{begin, on_index, on_listing, on_target, Config, Found, Next, Report};
use rust_serv::listing::render_listing;
use rust_serv::request::{parse_request_line, split_words, Method, RequestError};
use rust_serv::resolve::{is_entry_name, path_of, resolve_target, split_pieces, UriError};
use rust_serv::response::{head, not_allowed, not_found, not_permitted, respond_file, FileBody, Status};

fn b(s: &str) -> Vec<u8> {
    s.as_bytes().to_vec()
}

fn segs(parts: &[&str]) -> Vec<Vec<u8>> {
    parts.iter().map(|p| b(p)).collect()
}

fn text_of(v: &[u8]) -> String {
    String::from_utf8(v.to_vec()).unwrap()
}

fn header_of(bytes: &[u8]) -> String {
    let t = text_of(bytes);
    let end = t.find("\r\n\r\n").unwrap() + 4;
    t[..end].to_string()
}

fn body_of(bytes: &[u8]) -> String {
    let t = text_of(bytes);
    let end = t.find("\r\n\r\n").unwrap() + 4;
    t[end..].to_string()
}

fn without_date(header: &str) -> String {
    header.lines().filter(|l| !l.starts_with("Date:")).collect::<Vec<_>>().join("\n")
}

fn config(index: &str, list_dir: bool) -> Config {
    Config { index: b(index), list_dir }
}

#[test]
fn content_types_by_extension() {
    assert_eq!(content_type_for(b"/index.html"), "text/html");
    assert_eq!(content_type_for(b"/a/page.htm"), "text/html");
    assert_eq!(content_type_for(b"/data.json"), "application/json");
    assert_eq!(content_type_for(b"/s/style.css"), "text/css");
    assert_eq!(content_type_for(b"/app.js"), "text/javascript");
    assert_eq!(content_type_for(b"/notes.txt"), "text/plain");
    assert_eq!(content_type_for(b"/README"), "text/plain");
}

#[test]
fn content_type_edge_cases() {
    assert_eq!(content_type_for(b"/.json"), "text/plain");
    assert_eq!(content_type_for(b"/a.json/"), "application/json");
    assert_eq!(content_type_for(b"/a.json/."), "application/json");
    assert_eq!(content_type_for(b"/a.json/.."), "text/plain");
    assert_eq!(content_type_for(b"/x.tar.json"), "application/json");
    assert_eq!(content_type_for(b"/PAGE.HTML"), "text/plain");
    assert_eq!(content_type_for(b"./dir/index.html"), "text/html");
    assert_eq!(content_type_for(b""), "text/plain");
}

#[test]
fn json_and_unknown_extensions() {
    for uri in ["/a.json", "/deep/dir/b.json", "c.json"] {
        assert_eq!(content_type_for(uri.as_bytes()), "application/json");
    }
    for uri in ["/a.md", "/b", "/c.", "/d.jsonx", "/e.JSON"] {
        assert_eq!(content_type_for(uri.as_bytes()), "text/plain");
    }
}

#[test]
fn split_pieces_keeps_empty_pieces() {
    assert_eq!(split_pieces(b"/a//b"), segs(&["", "a", "", "b"]));
    assert_eq!(split_pieces(b""), segs(&[""]));
}

#[test]
fn words_split_on_whitespace() {
    assert_eq!(split_words(b"  GET\t/x   HTTP/1.1\r\n"), segs(&["GET", "/x", "HTTP/1.1"]));
    assert_eq!(split_words(b" \r\n"), Vec::<Vec<u8>>::new());
}

#[test]
fn parse_get_and_head() {
    let r = parse_request_line(b"GET /index.html HTTP/1.1\r\n").unwrap();
    assert_eq!(r.method, Method::Get);
    assert_eq!(r.target, b("/index.html"));
    let r = parse_request_line(b"HEAD / HTTP/1.1\n").unwrap();
    assert_eq!(r.method, Method::Head);
    assert_eq!(r.target, b("/"));
    let r = parse_request_line(b"GET /a HTTP/1.1 extra").unwrap();
    assert_eq!(r.target, b("/a"));
}

#[test]
fn parse_errors() {
    assert_eq!(parse_request_line(b"GET /x\r\n").unwrap_err(), RequestError::MalformedRequest);
    assert_eq!(parse_request_line(b"").unwrap_err(), RequestError::MalformedRequest);
    assert_eq!(parse_request_line(b"GET /x HTTP/1.0\r\n").unwrap_err(), RequestError::UnsupportedProtocol);
    assert_eq!(parse_request_line(b"POST /x HTTP/1.1\r\n").unwrap_err(), RequestError::MethodNotAllowed);
    assert_eq!(parse_request_line(b"get /x HTTP/1.1\r\n").unwrap_err(), RequestError::MethodNotAllowed);
}

#[test]
fn resolve_plain_targets() {
    assert_eq!(resolve_target(b"/a/b.txt").unwrap(), segs(&["a", "b.txt"]));
    assert_eq!(resolve_target(b"/").unwrap(), segs(&[]));
    assert_eq!(resolve_target(b"/./a//b/").unwrap(), segs(&["a", "b"]));
    assert_eq!(resolve_target(b"a/b").unwrap(), segs(&["a", "b"]));
}

#[test]
fn resolve_parent_within_root() {
    assert_eq!(resolve_target(b"/a/../b").unwrap(), segs(&["b"]));
    assert_eq!(resolve_target(b"/a/b/../../c").unwrap(), segs(&["c"]));
    assert_eq!(resolve_target(b"/a/..").unwrap(), segs(&[]));
}

#[test]
fn resolve_refuses_escapes() {
    assert_eq!(resolve_target(b"/..").unwrap_err(), UriError::IllegalPath);
    assert_eq!(resolve_target(b"/../../etc/passwd").unwrap_err(), UriError::IllegalPath);
    assert_eq!(resolve_target(b"/a/../../b").unwrap_err(), UriError::IllegalPath);
    assert_eq!(resolve_target(b"/a/../x/../../b/c").unwrap_err(), UriError::IllegalPath);
}

#[test]
fn fs_paths_are_under_the_root() {
    assert_eq!(path_of(&segs(&[])), b("."));
    assert_eq!(path_of(&segs(&["assets", "a.txt"])), b("./assets/a.txt"));
}

#[test]
fn header_layout() {
    let r = head("text/css", 1234, b("Mon, 19 Oct 2026 10:42:00 UTC"));
    assert_eq!(
        text_of(&r.to_bytes()),
        "HTTP/1.1 200 OK\r\nDate: Mon, 19 Oct 2026 10:42:00 UTC\r\nConnection: close\r\n\
         Server: Rust Serv/0.2\r\nAllow: GET, HEAD\r\nContent-Type: text/css\r\n\
         Content-Length: 1234\r\n\r\n"
    );
}

#[test]
fn content_length_digits() {
    for (n, s) in [(0usize, "0"), (7, "7"), (10, "10"), (90210, "90210")] {
        let r = head("text/plain", n, b("D"));
        assert!(header_of(&r.to_bytes()).contains(&format!("\r\nContent-Length: {}\r\n", s)));
    }
}

#[test]
fn bare_answers() {
    let r = not_permitted(b("D"));
    assert_eq!(r.status, Status::NotPermitted);
    let t = text_of(&r.to_bytes());
    assert!(t.starts_with("HTTP/1.1 403 Not Permitted\r\n"));
    assert!(t.ends_with("Content-Length: 0\r\n\r\n"));
    let r = not_allowed(b("D"));
    let t = text_of(&r.to_bytes());
    assert!(t.starts_with("HTTP/1.1 405 Method Not Allowed\r\n"));
    assert!(t.contains("\r\nAllow: GET, HEAD\r\n"));
    assert!(t.ends_with("Content-Length: 0\r\n\r\n"));
}

#[test]
fn not_found_names_the_uri() {
    let r = not_found(Method::Get, b"/nope", b("D"));
    let bytes = r.to_bytes();
    assert!(text_of(&bytes).starts_with("HTTP/1.1 404 Not Found\r\n"));
    assert_eq!(body_of(&bytes), "Resource '/nope' not found");
    assert!(header_of(&bytes).contains("\r\nContent-Length: 26\r\n"));
}

#[test]
fn file_get_and_head() {
    let get = respond_file(Method::Get, b"/a.json", FileBody::Contents(b("{\"k\":1}")), b("D"));
    let bytes = get.to_bytes();
    assert!(header_of(&bytes).contains("Content-Type: application/json\r\n"));
    assert!(header_of(&bytes).contains("Content-Length: 7\r\n"));
    assert_eq!(body_of(&bytes), "{\"k\":1}");
    let head = respond_file(Method::Head, b"/a.json", FileBody::Size(7), b("D"));
    let hb = head.to_bytes();
    assert_eq!(header_of(&hb), header_of(&bytes));
    assert_eq!(body_of(&hb), "");
}

#[test]
fn head_and_get_headers_agree() {
    let data = b("hello, world\n");
    let get = respond_file(Method::Get, b"/h.txt", FileBody::Contents(data.clone()), b("D"));
    let head = respond_file(Method::Head, b"/h.txt", FileBody::Contents(data.clone()), b("D"));
    assert_eq!(header_of(&head.to_bytes()), header_of(&get.to_bytes()));
    assert!(head.body.is_empty());
    assert_eq!(get.content_length, 13);
    assert_eq!(head.content_length, 13);
}

#[test]
fn repeated_get_is_identical() {
    let data = b("same bytes");
    let a = respond_file(Method::Get, b"/s.txt", FileBody::Contents(data.clone()), b("D1"));
    let c = respond_file(Method::Get, b"/s.txt", FileBody::Contents(data.clone()), b("D2"));
    assert_eq!(a.body, c.body);
    assert_eq!(a.content_length, c.content_length);
    assert_eq!(without_date(&header_of(&a.to_bytes())), without_date(&header_of(&c.to_bytes())));
}

#[test]
fn listing_page_layout() {
    let page = render_listing(&segs(&["assets"]), &segs(&["a.txt"]));
    assert_eq!(
        text_of(&page),
        "<html><head><title>./assets</title></head><body>Index for ./assets\
         <ul><li><a href=\"/assets/a.txt\">assets/a.txt</a></li></ul></body></html>"
    );
    let root = render_listing(&segs(&[]), &segs(&[".hidden"]));
    assert!(text_of(&root).contains("<li><a href=\"/.hidden\">.hidden</a></li>"));
    let empty = render_listing(&segs(&[]), &segs(&[]));
    assert!(text_of(&empty).contains("<ul></ul>"));
}

#[test]
fn traversal_target_is_forbidden() {
    match begin(b"GET /../../etc/passwd HTTP/1.1\r\n") {
        Next::Reply(resp, None) => {
            let bytes = resp.to_bytes();
            assert!(text_of(&bytes).starts_with("HTTP/1.1 403 Not Permitted\r\n"));
            assert_eq!(body_of(&bytes), "");
        }
        other => panic!("unexpected {:?}", other),
    }
}

#[test]
fn missing_file_is_not_found() {
    let (method, target, s) = match begin(b"GET /missing.txt HTTP/1.1\r\n") {
        Next::LookUp { method, target, segs, path } => {
            assert_eq!(path, b("./missing.txt"));
            (method, target, segs)
        }
        other => panic!("unexpected {:?}", other),
    };
    match on_target(method, &target, s, Found::Missing, &config("index.html", true)) {
        Next::Reply(resp, None) => {
            let bytes = resp.to_bytes();
            assert!(text_of(&bytes).starts_with("HTTP/1.1 404 Not Found\r\n"));
            assert_eq!(body_of(&bytes), "Resource '/missing.txt' not found");
        }
        other => panic!("unexpected {:?}", other),
    }
}

#[test]
fn root_serves_index_file() {
    let cfg = config("index.html", true);
    let (method, target, s) = match begin(b"GET / HTTP/1.1\r\n") {
        Next::LookUp { method, target, segs, path } => {
            assert_eq!(path, b("."));
            (method, target, segs)
        }
        other => panic!("unexpected {:?}", other),
    };
    let dir = match on_target(method, &target, s, Found::Directory, &cfg) {
        Next::OpenIndex { dir, path, .. } => {
            assert_eq!(path, b("./index.html"));
            dir
        }
        other => panic!("unexpected {:?}", other),
    };
    let page = b("<h1>home</h1>");
    match on_index(method, dir, Some(FileBody::Contents(page.clone())), &cfg) {
        Next::Reply(resp, None) => {
            let bytes = resp.to_bytes();
            assert!(text_of(&bytes).starts_with("HTTP/1.1 200 OK\r\n"));
            assert!(header_of(&bytes).contains("Content-Type: text/html\r\n"));
            assert_eq!(body_of(&bytes), "<h1>home</h1>");
            assert!(!body_of(&bytes).contains("Index for"));
        }
        other => panic!("unexpected {:?}", other),
    }
}

#[test]
fn directory_without_index_is_listed() {
    let cfg = config("", true);
    let (method, target, s) = match begin(b"GET /assets/ HTTP/1.1\r\n") {
        Next::LookUp { method, target, segs, .. } => (method, target, segs),
        other => panic!("unexpected {:?}", other),
    };
    let (dir, path) = match on_target(method, &target, s, Found::Directory, &cfg) {
        Next::ListDirectory { dir, path, .. } => (dir, path),
        other => panic!("unexpected {:?}", other),
    };
    assert_eq!(path, b("./assets"));
    let resp = on_listing(method, &dir, &segs(&["b.txt", "a.txt"]));
    let bytes = resp.to_bytes();
    assert!(text_of(&bytes).starts_with("HTTP/1.1 200 OK\r\n"));
    assert!(header_of(&bytes).contains("Content-Type: text/html\r\n"));
    let body = body_of(&bytes);
    assert_eq!(body.matches("<a href=").count(), 2);
    assert!(body.contains("<a href=\"/assets/a.txt\">"));
    assert!(body.contains("<a href=\"/assets/b.txt\">"));
    assert!(header_of(&bytes).contains(&format!("Content-Length: {}\r\n", body.len())));
}

#[test]
fn missing_index_falls_back_to_listing_or_404() {
    let listed = on_index(Method::Get, segs(&["d"]), None, &config("index.html", true));
    assert!(matches!(listed, Next::ListDirectory { .. }));
    match on_index(Method::Get, segs(&["d"]), None, &config("index.html", false)) {
        Next::Reply(resp, Some(Report::ListingDisabled)) => {
            assert_eq!(body_of(&resp.to_bytes()), "Resource './d' not found");
        }
        other => panic!("unexpected {:?}", other),
    }
    match on_target(Method::Head, b"/d", segs(&["d"]), Found::Directory, &config("", false)) {
        Next::Reply(resp, Some(Report::ListingDisabled)) => assert_eq!(resp.status, Status::NotFound),
        other => panic!("unexpected {:?}", other),
    }
}

#[test]
fn head_listing_reports_length_without_body() {
    let get = on_listing(Method::Get, &segs(&["x"]), &segs(&["f"]));
    let head = on_listing(Method::Head, &segs(&["x"]), &segs(&["f"]));
    assert!(head.body.is_empty());
    assert_eq!(head.content_length, get.body.len());
    assert_eq!(without_date(&header_of(&head.to_bytes())), without_date(&header_of(&get.to_bytes())));
}

#[test]
fn post_is_not_allowed() {
    match begin(b"POST /x HTTP/1.1\r\n") {
        Next::Reply(resp, Some(Report::MethodNotAllowed)) => {
            let bytes = resp.to_bytes();
            assert!(text_of(&bytes).starts_with("HTTP/1.1 405 Method Not Allowed\r\n"));
            assert!(header_of(&bytes).contains("\r\nAllow: GET, HEAD\r\n"));
            assert!(header_of(&bytes).contains("\r\nContent-Length: 0\r\n"));
            assert_eq!(body_of(&bytes), "");
        }
        other => panic!("unexpected {:?}", other),
    }
}

#[test]
fn old_protocol_aborts_without_response() {
    assert!(matches!(begin(b"GET /x HTTP/1.0\r\n"), Next::Abort(RequestError::UnsupportedProtocol)));
    assert!(matches!(begin(b"GET /x\r\n"), Next::Abort(RequestError::MalformedRequest)));
}

#[test]
fn head_of_a_file_through_the_steps() {
    match on_target(Method::Head, b"/style.css", segs(&["style.css"]), Found::File(FileBody::Size(42)), &config("", true)) {
        Next::Reply(resp, None) => {
            let bytes = resp.to_bytes();
            assert!(header_of(&bytes).contains("Content-Type: text/css\r\n"));
            assert!(header_of(&bytes).contains("Content-Length: 42\r\n"));
            assert_eq!(body_of(&bytes), "");
        }
        other => panic!("unexpected {:?}", other),
    }
}

#[test]
fn head_of_missing_file_has_no_body() {
    match on_target(Method::Head, b"/missing.txt", segs(&["missing.txt"]), Found::Missing, &config("", true)) {
        Next::Reply(resp, None) => {
            let bytes = resp.to_bytes();
            assert!(text_of(&bytes).starts_with("HTTP/1.1 404 Not Found\r\n"));
            assert!(header_of(&bytes).contains("\r\nContent-Length: 33\r\n"));
            assert_eq!(body_of(&bytes), "");
        }
        other => panic!("unexpected {:?}", other),
    }
    let get = not_found(Method::Get, b"/missing.txt", b("D"));
    let head = not_found(Method::Head, b"/missing.txt", b("D"));
    assert_eq!(header_of(&head.to_bytes()), header_of(&get.to_bytes()));
    assert!(head.body.is_empty());
}

#[test]
fn head_of_unlisted_directory_has_no_body() {
    match on_index(Method::Head, segs(&["d"]), None, &config("index.html", false)) {
        Next::Reply(resp, Some(Report::ListingDisabled)) => {
            assert!(resp.body.is_empty());
            assert_eq!(resp.content_length, "Resource './d' not found".len());
        }
        other => panic!("unexpected {:?}", other),
    }
}

#[test]
fn index_setting_must_be_one_name() {
    assert!(config("index.html", true).is_valid());
    assert!(config("", true).is_valid());
    assert!(!config("../x", true).is_valid());
    assert!(!config("a/b.html", true).is_valid());
    assert!(!config("..", true).is_valid());
    assert!(!config(".", true).is_valid());
    assert!(is_entry_name(b".hidden"));
    assert!(!is_entry_name(b""));
}

#[test]
fn words_split_on_unicode_whitespace() {
    let r = parse_request_line("GET\u{a0}/x HTTP/1.1\r\n".as_bytes()).unwrap();
    assert_eq!(r.method, Method::Get);
    assert_eq!(r.target, b("/x"));
    let line = "HEAD\u{3000}/y\u{2003}HTTP/1.1\u{85}";
    assert_eq!(split_words(line.as_bytes()), segs(&["HEAD", "/y", "HTTP/1.1"]));
    assert_eq!(split_words("a\u{1680}b\u{205f}c\u{202f}d\u{2029}e".as_bytes()), segs(&["a", "b", "c", "d", "e"]));
    assert_eq!(split_words("\u{e9}t\u{e9} x".as_bytes()), segs(&["\u{e9}t\u{e9}", "x"]));
}
