//! Response builders: the canned status lines and body wrappers that route
//! handlers produce, together with their byte-level specifications.
//!
//! The wire format is deliberately minimal: every response is
//! `HTTP/1.1 <status> <reason>\r\n\r\n<body>` with no headers. Only the
//! statuses `200 OK` and `404 NOT FOUND` are ever produced.

use vstd::prelude::*;
use vstd::string::StringExecFns;
use vstd::slice::slice_to_vec;
use vstd::utf8::encode_utf8;
use vstd::utf8::is_ascii_chars;
use vstd::utf8::is_ascii_chars_encode_utf8;

verus! {

/// The exact bytes of the `404 NOT FOUND` response, as they go on the wire.
pub open spec fn resp_404() -> Seq<u8> {
    seq![
        72u8, 84u8, 84u8, 80u8, 47u8, 49u8, 46u8, 49u8,  // "HTTP/1.1"
        32u8, 52u8, 48u8, 52u8,                          // " 404"
        32u8, 78u8, 79u8, 84u8,                          // " NOT"
        32u8, 70u8, 79u8, 85u8, 78u8, 68u8,              // " FOUND"
        13u8, 10u8, 13u8, 10u8,                          // "\r\n\r\n"
    ]
}

/// The bytes of the `200 OK` status line and blank line, which prefix every
/// successful response.
pub open spec fn resp_200_prefix() -> Seq<u8> {
    seq![
        72u8, 84u8, 84u8, 80u8, 47u8, 49u8, 46u8, 49u8,  // "HTTP/1.1"
        32u8, 50u8, 48u8, 48u8,                          // " 200"
        32u8, 79u8, 75u8,                                // " OK"
        13u8, 10u8, 13u8, 10u8,                          // "\r\n\r\n"
    ]
}

/// The `200 OK` status line equals `resp_200_prefix()` once encoded.
pub proof fn lemma_ok_line_bytes()
    ensures
        encode_utf8("HTTP/1.1 200 OK\r\n\r\n"@) =~= resp_200_prefix(),
{
    reveal_strlit("HTTP/1.1 200 OK\r\n\r\n");
    let s = "HTTP/1.1 200 OK\r\n\r\n"@;
    assert(is_ascii_chars(s));
    is_ascii_chars_encode_utf8(s);
}

/// The `404 NOT FOUND` response text equals `resp_404()` once encoded.
pub proof fn lemma_not_found_bytes()
    ensures
        encode_utf8("HTTP/1.1 404 NOT FOUND\r\n\r\n"@) =~= resp_404(),
{
    reveal_strlit("HTTP/1.1 404 NOT FOUND\r\n\r\n");
    let s = "HTTP/1.1 404 NOT FOUND\r\n\r\n"@;
    assert(is_ascii_chars(s));
    is_ascii_chars_encode_utf8(s);
}

/// A bare `200 OK` response: status line and blank line, empty body.
pub fn ok() -> (r: String)
    ensures
        r@ == "HTTP/1.1 200 OK\r\n\r\n"@,
{
    "HTTP/1.1 200 OK\r\n\r\n".to_owned()
}

/// Wraps a body under a `200 OK` status line.
pub fn html(body: &str) -> (r: String)
    ensures
        r@ == "HTTP/1.1 200 OK\r\n\r\n"@ + body@,
{
    ok().concat(body)
}

/// The sample index handler: serves the site's index page under `200 OK`.
/// The page is fixed at registration, so `data` is ignored and the result
/// does not depend on it. Reading the page's file is the caller's business;
/// `page` is that read's outcome, and a page that could not be read is
/// answered with the `404 NOT FOUND` text rather than aborting.
pub fn index(data: &str, page: Option<&str>) -> (r: String)
    ensures
        match page {
            Some(c) => r@ == "HTTP/1.1 200 OK\r\n\r\n"@ + c@,
            None => r@ == "HTTP/1.1 404 NOT FOUND\r\n\r\n"@,
        },
{
    match page {
        Some(c) => file_body(c),
        None => "HTTP/1.1 404 NOT FOUND\r\n\r\n".to_owned(),
    }
}

/// Wraps a file's contents under a `200 OK` status line. Reading the file is
/// the caller's business; this is the pure formatting half.
pub fn file_body(contents: &str) -> (r: String)
    ensures
        r@ == "HTTP/1.1 200 OK\r\n\r\n"@ + contents@,
{
    html(contents)
}

/// The UTF-8 bytes of a response string, ready to write to a socket.
pub fn response_bytes(s: &str) -> (r: Vec<u8>)
    ensures
        r@ == encode_utf8(s@),
{
    slice_to_vec(s.as_bytes())
}

/// The `404 NOT FOUND` response, ready to write to a socket.
pub fn not_found() -> (r: Vec<u8>)
    ensures
        r@ == resp_404(),
{
    proof {
        lemma_not_found_bytes();
    }
    response_bytes("HTTP/1.1 404 NOT FOUND\r\n\r\n")
}

/// Turns the outcome of reading a route's backing file into a response:
/// the wrapped contents when the read succeeded, and `404 NOT FOUND` when the
/// file was missing or unreadable, so a stale route never aborts a connection.
pub fn complete_file(contents: Option<&str>) -> (r: Vec<u8>)
    ensures
        match contents {
            Some(c) => r@ == resp_200_prefix() + encode_utf8(c@),
            None => r@ == resp_404(),
        },
{
    match contents {
        Some(c) => {
            let body = file_body(c);
            proof {
                lemma_ok_line_bytes();
                lemma_encode_utf8_concat("HTTP/1.1 200 OK\r\n\r\n"@, c@);
            }
            response_bytes(body.as_str())
        },
        None => not_found(),
    }
}

/// UTF-8 encoding distributes over concatenation.
pub proof fn lemma_encode_utf8_concat(a: Seq<char>, b: Seq<char>)
    ensures
        encode_utf8(a + b) =~= encode_utf8(a) + encode_utf8(b),
    decreases a.len(),
{
    if a.len() == 0 {
        assert(a + b =~= b);
    } else {
        lemma_encode_utf8_concat(a.drop_first(), b);
        assert((a + b).drop_first() =~= a.drop_first() + b);
        assert((a + b)[0] == a[0]);
    }
}

} // verus!
