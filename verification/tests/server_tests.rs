use httpy::request::{chunk_budget, parse_request_target, read_step};
use httpy::response::{complete_file, file_body, html, index, not_found, ok};
use httpy::server::{Dispatch, Handler, HttpServer};

const NOT_FOUND: &[u8] = b"HTTP/1.1 404 NOT FOUND\r\n\r\n";

fn reply_of(d: Dispatch) -> Vec<u8> {
    match d {
        Dispatch::Reply(b) => b,
        Dispatch::FetchFile(p) => panic!("expected a finished reply, got a file fetch for {p}"),
    }
}

fn fetch_of(d: Dispatch) -> String {
    match d {
        Dispatch::Reply(b) => panic!("expected a file fetch, got a reply of {} bytes", b.len()),
        Dispatch::FetchFile(p) => p,
    }
}

#[test]
fn ok_is_bare_status_line() {
    assert_eq!(ok(), "HTTP/1.1 200 OK\r\n\r\n");
}

#[test]
fn html_wraps_body_under_ok() {
    assert_eq!(html("hello"), "HTTP/1.1 200 OK\r\n\r\nhello");
    assert_eq!(html(""), "HTTP/1.1 200 OK\r\n\r\n");
}

#[test]
fn index_serves_page_contents_ignoring_data() {
    let page = "<h1>welcome</h1>";
    assert_eq!(index("", Some(page)), "HTTP/1.1 200 OK\r\n\r\n<h1>welcome</h1>");
    // The handler's `data` argument does not influence the response.
    assert_eq!(index("anything", Some(page)), index("", Some(page)));
    // An unreadable index page is a clean 404, not a crash.
    assert_eq!(index("", None), "HTTP/1.1 404 NOT FOUND\r\n\r\n");
}

#[test]
fn file_body_wraps_contents() {
    assert_eq!(file_body("<p>hi</p>"), "HTTP/1.1 200 OK\r\n\r\n<p>hi</p>");
}

#[test]
fn not_found_exact_bytes() {
    assert_eq!(not_found(), NOT_FOUND.to_vec());
}

#[test]
fn parse_extracts_target() {
    let req = b"GET /a.txt HTTP/1.1\r\nHost: x\r\n\r\n".to_vec();
    assert_eq!(parse_request_target(&req), Some(b"/a.txt".to_vec()));
}

#[test]
fn parse_rejects_short_and_non_get() {
    assert_eq!(parse_request_target(&b"".to_vec()), None);
    assert_eq!(parse_request_target(&b"GE".to_vec()), None);
    assert_eq!(parse_request_target(&b"POST / HTTP/1.1\r\n\r\n".to_vec()), None);
}

#[test]
fn parse_rejects_missing_marker() {
    assert_eq!(parse_request_target(&b"GET /nothing-more".to_vec()), None);
    assert_eq!(parse_request_target(&b"GET".to_vec()), None);
    // The marker right after the method leaves no room for a target.
    assert_eq!(parse_request_target(&b"GET HTTP/1.1".to_vec()), None);
}

#[test]
fn parse_empty_target() {
    // A marker at position 4 yields the empty target.
    assert_eq!(parse_request_target(&b"GET  HTTP/1.1".to_vec()), Some(b"".to_vec()));
}

#[test]
fn registered_path_served_with_handler_bytes() {
    let mut server = HttpServer::new();
    server.add_get("/", Handler::Fixed(html("hello")));
    let req = b"GET / HTTP/1.1\r\nHost: x\r\n\r\n".to_vec();
    let reply = reply_of(server.dispatch(&req));
    assert_eq!(reply, b"HTTP/1.1 200 OK\r\n\r\nhello".to_vec());
}

#[test]
fn unknown_path_gets_exact_not_found() {
    let mut server = HttpServer::new();
    server.add_get("/", Handler::Fixed(ok()));
    let req = b"GET /missing HTTP/1.1\r\n\r\n".to_vec();
    assert_eq!(reply_of(server.dispatch(&req)), NOT_FOUND.to_vec());
}

#[test]
fn non_get_gets_same_not_found_as_unknown_path() {
    let mut server = HttpServer::new();
    server.add_get("/", Handler::Fixed(ok()));
    let post = b"POST / HTTP/1.1\r\n\r\n".to_vec();
    let unknown = b"GET /missing HTTP/1.1\r\n\r\n".to_vec();
    assert_eq!(reply_of(server.dispatch(&post)), reply_of(server.dispatch(&unknown)));
    assert_eq!(reply_of(server.dispatch(&post)), NOT_FOUND.to_vec());
    // Too short to hold a method token: answered the same way.
    let short = b"GE".to_vec();
    assert_eq!(reply_of(server.dispatch(&short)), NOT_FOUND.to_vec());
}

#[test]
fn last_registration_wins() {
    let mut server = HttpServer::new();
    server.add_get("/page", Handler::Fixed(html("first")));
    server.add_get("/page", Handler::Fixed(html("second")));
    let req = b"GET /page HTTP/1.1\r\n\r\n".to_vec();
    assert_eq!(reply_of(server.dispatch(&req)), b"HTTP/1.1 200 OK\r\n\r\nsecond".to_vec());
}

#[test]
fn file_routes_yield_fetch_then_complete() {
    let mut server = HttpServer::new();
    server.add_get("/notes", Handler::File(String::from("/srv/notes.txt")));
    let req = b"GET /notes HTTP/1.1\r\n\r\n".to_vec();
    let path = fetch_of(server.dispatch(&req));
    assert_eq!(path, "/srv/notes.txt");
    assert_eq!(
        complete_file(Some("contents")),
        b"HTTP/1.1 200 OK\r\n\r\ncontents".to_vec()
    );
    // A backing file that vanished is a clean 404, not a crash.
    assert_eq!(complete_file(None), NOT_FOUND.to_vec());
}

#[test]
fn statics_register_relative_paths_and_root_alias() {
    let mut server = HttpServer::new();
    server.set_root_dir("/var/www/html/");
    let files = vec![
        String::from("/var/www/html/a.txt"),
        String::from("/var/www/html/sub/b.txt"),
        String::from("/var/www/html/index.html"),
    ];
    server.handle_all_statics(&files);

    let cases: [(&[u8], &str); 4] = [
        (b"GET /a.txt HTTP/1.1\r\n\r\n", "/var/www/html/a.txt"),
        (b"GET /sub/b.txt HTTP/1.1\r\n\r\n", "/var/www/html/sub/b.txt"),
        (b"GET /index.html HTTP/1.1\r\n\r\n", "/var/www/html/index.html"),
        (b"GET / HTTP/1.1\r\n\r\n", "/var/www/html/index.html"),
    ];
    for (req, want) in cases {
        let path = fetch_of(server.dispatch(&req.to_vec()));
        assert_eq!(path, want);
        // Each such route answers 200 with the file's contents as body.
        let contents = format!("contents of {path}");
        let reply = complete_file(Some(contents.as_str()));
        let want_reply = format!("HTTP/1.1 200 OK\r\n\r\n{contents}");
        assert_eq!(reply, want_reply.into_bytes());
    }
}

#[test]
fn statics_lookups_do_not_depend_on_walk_order() {
    let mut server = HttpServer::new();
    server.set_root_dir("/var/www/html/");
    let files = vec![
        String::from("/var/www/html/index.html"),
        String::from("/var/www/html/sub/b.txt"),
        String::from("/var/www/html/a.txt"),
    ];
    server.handle_all_statics(&files);
    let cases: [(&[u8], &str); 4] = [
        (b"GET /a.txt HTTP/1.1\r\n\r\n", "/var/www/html/a.txt"),
        (b"GET /sub/b.txt HTTP/1.1\r\n\r\n", "/var/www/html/sub/b.txt"),
        (b"GET /index.html HTTP/1.1\r\n\r\n", "/var/www/html/index.html"),
        (b"GET / HTTP/1.1\r\n\r\n", "/var/www/html/index.html"),
    ];
    for (req, want) in cases {
        assert_eq!(fetch_of(server.dispatch(&req.to_vec())), want);
    }
}

#[test]
fn read_step_truncates_at_the_limit() {
    let mut buf: Vec<u8> = Vec::new();
    // Budget of 10 bytes, chunks of 8.
    let done = read_step(&mut buf, b"abcdefgh", 8, 10);
    assert!(!done);
    assert_eq!(buf, b"abcdefgh".to_vec());
    // The next full chunk overruns the budget: only two bytes are kept.
    let done = read_step(&mut buf, b"ijklmnop", 8, 10);
    assert!(done);
    assert_eq!(buf, b"abcdefghij".to_vec());
    // The retained prefix still parses on its own.
    let mut buf: Vec<u8> = Vec::new();
    let done = read_step(&mut buf, b"GET /a HTTP/1.1\r\nHost: x\r\n\r\n", 64, 16);
    assert!(done);
    assert_eq!(buf, b"GET /a HTTP/1.1\r".to_vec());
    assert_eq!(parse_request_target(&buf), Some(b"/a".to_vec()));
}

#[test]
fn read_step_exact_boundary_and_short_chunks() {
    let mut buf: Vec<u8> = Vec::new();
    // A request exactly at the limit is kept whole.
    let done = read_step(&mut buf, b"GET / HTTP/1.1", 14, 14);
    assert!(done);
    assert_eq!(buf, b"GET / HTTP/1.1".to_vec());
    // A short chunk means the client is done sending.
    let mut buf: Vec<u8> = Vec::new();
    let done = read_step(&mut buf, b"abc", 1024, 4096);
    assert!(done);
    assert_eq!(buf, b"abc".to_vec());
    // An empty chunk adds nothing and ends the read.
    let done = read_step(&mut buf, b"", 1024, 4096);
    assert!(done);
    assert_eq!(buf, b"abc".to_vec());
}

#[test]
fn chunk_budget_covers_the_limit() {
    assert_eq!(chunk_budget(4096, 1024), 4);
    assert_eq!(chunk_budget(4097, 1024), 5);
    assert_eq!(chunk_budget(1, 1024), 1);
    assert_eq!(chunk_budget(0, 1024), 0);
    assert_eq!(chunk_budget(1023, 1024), 1);
}

#[test]
fn configuration_defaults_and_setters() {
    let mut server = HttpServer::new();
    assert_eq!(server.ip, "127.0.0.1");
    assert_eq!(server.port, 8080);
    assert_eq!(server.root, "");
    assert_eq!(server.time, 1000);
    assert_eq!(server.rqml, 4096);
    assert!(!server.is_alive());

    server.set_ip("0.0.0.0");
    server.set_port(8081);
    server.set_root_dir("/srv/www/");
    server.set_timeout(250);
    server.set_max_request_length(512);
    assert_eq!(server.ip, "0.0.0.0");
    assert_eq!(server.port, 8081);
    assert_eq!(server.root, "/srv/www/");
    assert_eq!(server.time, 250);
    assert_eq!(server.rqml, 512);

    server.start();
    assert!(server.is_alive());
    server.stop();
    assert!(!server.is_alive());
}
