use std::sync::Arc;

use httpy::server::{Dispatch, Handler, HttpServer};

// Two in-flight requests to two different existing routes both succeed and
// cannot disturb each other: dispatch only reads the shared table, so the
// tasks run without any lock over it.
#[test]
fn concurrent_requests_to_different_routes_succeed() {
    let mut server = HttpServer::new();
    server.add_get("/a", Handler::Fixed(String::from("HTTP/1.1 200 OK\r\n\r\nalpha")));
    server.add_get("/b", Handler::Fixed(String::from("HTTP/1.1 200 OK\r\n\r\nbeta")));
    let shared = Arc::new(server);

    let runtime = tokio::runtime::Builder::new_multi_thread()
        .worker_threads(2)
        .build()
        .expect("runtime");

    let (got_a, got_b) = runtime.block_on(async {
        let sa = Arc::clone(&shared);
        let sb = Arc::clone(&shared);
        let ta = tokio::spawn(async move {
            let req = b"GET /a HTTP/1.1\r\nHost: x\r\n\r\n".to_vec();
            sa.dispatch(&req)
        });
        let tb = tokio::spawn(async move {
            let req = b"GET /b HTTP/1.1\r\nHost: x\r\n\r\n".to_vec();
            sb.dispatch(&req)
        });
        (ta.await.expect("task a"), tb.await.expect("task b"))
    });

    match got_a {
        Dispatch::Reply(b) => assert_eq!(b, b"HTTP/1.1 200 OK\r\n\r\nalpha".to_vec()),
        Dispatch::FetchFile(_) => panic!("route /a should reply directly"),
    }
    match got_b {
        Dispatch::Reply(b) => assert_eq!(b, b"HTTP/1.1 200 OK\r\n\r\nbeta".to_vec()),
        Dispatch::FetchFile(_) => panic!("route /b should reply directly"),
    }
}
