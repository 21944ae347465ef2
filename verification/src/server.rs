//! The server state: configuration, the route table, and request dispatch.
//!
//! The route table maps a request target (a byte string with leading `/`) to
//! a handler binding. Registration appends; lookup scans from the newest
//! entry backwards, so the last registration under a path wins. Once serving
//! starts the table is only ever read — [`HttpServer::dispatch`] takes
//! `&self` — so concurrently handled connections cannot disturb each other.
//!
//! Dispatch itself is pure: it turns the retained request bytes into either a
//! complete reply or the path of a backing file still to be read. The caller
//! owns every socket and file read and feeds the results back in.

use vstd::prelude::*;
use vstd::slice::slice_to_vec;
use vstd::string::StringExecFns;
use vstd::string::StringSliceAdditionalSpecFns;
use vstd::utf8::encode_utf8;
use crate::request::{parse_request_target, spec_parse_target};
use crate::response::{not_found, resp_404, response_bytes};

verus! {

/// A handler binding: what a registered route answers with.
///
/// A binding pairs a response-producing function with the fixed argument it
/// will be invoked on, so over its lifetime it denotes either one prepared
/// response or one file to serve.
pub enum Handler {
    /// Reply with these prepared response bytes, exactly as stored.
    Fixed(String),
    /// Reply with the contents of the file at this path, wrapped under
    /// `200 OK`; the file is read anew at request time.
    File(String),
}

/// One route: a target path (bytes, with leading `/`) and its handler.
pub struct RouteEntry {
    pub path: Vec<u8>,
    pub handler: Handler,
}

/// The server: configuration plus the route table.
pub struct HttpServer {
    /// Address to bind, as text.
    pub ip: String,
    /// Port to bind.
    pub port: i16,
    /// Filesystem root that static routes are served from.
    pub root: String,
    /// Whether the accept loop should keep running.
    pub state: bool,
    /// Read timeout in milliseconds.
    pub time: i32,
    /// Maximum number of request bytes retained per connection.
    pub rqml: usize,
    /// The route table.
    pub routes: Vec<RouteEntry>,
}

/// What dispatching a request yields: either a finished reply, or the path
/// of the backing file whose contents the caller must still fetch.
pub enum Dispatch {
    /// Write these bytes to the client.
    Reply(Vec<u8>),
    /// Read this file; then [`crate::response::complete_file`] finishes the
    /// reply from whatever the read returned.
    FetchFile(String),
}

/// The abstract value of a [`Dispatch`].
pub enum DispatchV {
    Reply(Seq<u8>),
    FetchFile(Seq<char>),
}

impl View for Dispatch {
    type V = DispatchV;

    open spec fn view(&self) -> DispatchV {
        match self {
            Dispatch::Reply(b) => DispatchV::Reply(b@),
            Dispatch::FetchFile(p) => DispatchV::FetchFile(p@),
        }
    }
}

impl HttpServer {
    /// The route table as a sequence of (path bytes, handler) pairs, oldest
    /// first.
    pub open spec fn routes_view(&self) -> Seq<(Seq<u8>, Handler)> {
        self.routes@.map_values(|e: RouteEntry| (e.path@, e.handler))
    }

    /// Everything but the route table, for stating what a method leaves
    /// untouched.
    pub open spec fn config_view(&self) -> (Seq<char>, i16, Seq<char>, bool, i32, usize) {
        (self.ip@, self.port, self.root@, self.state, self.time, self.rqml)
    }

    /// A fresh server: loopback address, port 8080, empty filesystem root,
    /// not serving, a one second read timeout, a 4 KiB request cap, and no
    /// routes.
    pub fn new() -> (r: Self)
        ensures
            r.ip@ == "127.0.0.1"@,
            r.port == 8080i16,
            r.root@ == Seq::<char>::empty(),
            r.state == false,
            r.time == 1000i32,
            r.rqml == 4096usize,
            r.routes_view() == Seq::<(Seq<u8>, Handler)>::empty(),
    {
        let r = HttpServer {
            ip: String::from_str("127.0.0.1"),
            port: 8080,
            root: String::new(),
            state: false,
            time: 1000,
            rqml: 4096,
            routes: Vec::new(),
        };
        assert(r.routes_view() =~= Seq::<(Seq<u8>, Handler)>::empty());
        r
    }

    /// Records the address to bind. The caller rebinds its socket.
    pub fn set_ip(&mut self, ip: &str)
        ensures
            final(self).ip@ == ip@,
            final(self).port == old(self).port,
            final(self).root == old(self).root,
            final(self).state == old(self).state,
            final(self).time == old(self).time,
            final(self).rqml == old(self).rqml,
            final(self).routes == old(self).routes,
    {
        self.ip = ip.to_owned();
    }

    /// Records the port to bind. The caller rebinds its socket.
    pub fn set_port(&mut self, port: i16)
        ensures
            final(self).port == port,
            final(self).ip == old(self).ip,
            final(self).root == old(self).root,
            final(self).state == old(self).state,
            final(self).time == old(self).time,
            final(self).rqml == old(self).rqml,
            final(self).routes == old(self).routes,
    {
        self.port = port;
    }

    /// Sets the filesystem root that static routes are registered from.
    pub fn set_root_dir(&mut self, path: &str)
        ensures
            final(self).root@ == path@,
            final(self).ip == old(self).ip,
            final(self).port == old(self).port,
            final(self).state == old(self).state,
            final(self).time == old(self).time,
            final(self).rqml == old(self).rqml,
            final(self).routes == old(self).routes,
    {
        self.root = path.to_owned();
    }

    /// Sets the read timeout in milliseconds.
    pub fn set_timeout(&mut self, ms: i32)
        ensures
            final(self).time == ms,
            final(self).ip == old(self).ip,
            final(self).port == old(self).port,
            final(self).root == old(self).root,
            final(self).state == old(self).state,
            final(self).rqml == old(self).rqml,
            final(self).routes == old(self).routes,
    {
        self.time = ms;
    }

    /// Sets the maximum number of request bytes retained per connection.
    pub fn set_max_request_length(&mut self, len: usize)
        ensures
            final(self).rqml == len,
            final(self).ip == old(self).ip,
            final(self).port == old(self).port,
            final(self).root == old(self).root,
            final(self).state == old(self).state,
            final(self).time == old(self).time,
            final(self).routes == old(self).routes,
    {
        self.rqml = len;
    }

    /// Flips the serving flag on: the accept loop may run.
    pub fn start(&mut self)
        ensures
            final(self).state == true,
            final(self).ip == old(self).ip,
            final(self).port == old(self).port,
            final(self).root == old(self).root,
            final(self).time == old(self).time,
            final(self).rqml == old(self).rqml,
            final(self).routes == old(self).routes,
    {
        self.state = true;
    }

    /// Flips the serving flag off: the accept loop stops taking new
    /// connections; handlers already running finish on their own.
    pub fn stop(&mut self)
        ensures
            final(self).state == false,
            final(self).ip == old(self).ip,
            final(self).port == old(self).port,
            final(self).root == old(self).root,
            final(self).time == old(self).time,
            final(self).rqml == old(self).rqml,
            final(self).routes == old(self).routes,
    {
        self.state = false;
    }

    /// Whether the serving flag is on.
    pub fn is_alive(&self) -> (r: bool)
        ensures
            r == self.state,
    {
        self.state
    }

    /// Registers `handler` under `path`, superseding any earlier
    /// registration for the same path.
    pub fn add_get(&mut self, path: &str, handler: Handler)
        ensures
            final(self).routes_view() == old(self).routes_view().push(
                (encode_utf8(path@), handler),
            ),
            final(self).config_view() == old(self).config_view(),
    {
        let entry = RouteEntry { path: slice_to_vec(path.as_bytes()), handler };
        self.routes.push(entry);
        assert(self.routes_view() =~= old(self).routes_view().push(
            (encode_utf8(path@), handler),
        ));
    }

    /// Looks `path` up in the route table: the handler of the newest entry
    /// registered under that exact path, if any. No normalization, no
    /// wildcards.
    pub fn lookup(&self, path: &Vec<u8>) -> (r: Option<&Handler>)
        ensures
            match r {
                Some(h) => spec_lookup(self.routes_view(), path@) == Some(*h),
                None => spec_lookup(self.routes_view(), path@) is None,
            },
    {
        let rv = Ghost(self.routes_view());
        let mut k = self.routes.len();
        assert(rv@.take(k as int) =~= rv@);
        while k > 0
            invariant
                rv@ == self.routes_view(),
                k <= self.routes@.len(),
                rv@.len() == self.routes@.len(),
                spec_lookup(rv@, path@) == spec_lookup(rv@.take(k as int), path@),
            decreases k,
        {
            let e = &self.routes[k - 1];
            assert(rv@.take(k as int).last() == (e.path@, e.handler));
            if bytes_eq(e.path.as_slice(), path.as_slice()) {
                return Some(&e.handler);
            }
            assert(rv@.take(k as int).drop_last() =~= rv@.take(k as int - 1));
            k = k - 1;
        }
        None
    }

    /// Populates the route table from the files found under the filesystem
    /// root: each file is registered under its path relative to the root
    /// (with leading slash), and a root-level `index.html` or `index.php`
    /// is additionally registered under `/`. The caller walks the directory
    /// tree and passes the full paths of the regular files it found, in
    /// order; entries shorter than the root are ignored. Earlier
    /// registrations under the same path are superseded, last write wins.
    pub fn handle_all_statics(&mut self, files: &Vec<String>)
        ensures
            final(self).routes_view() == old(self).routes_view() + static_routes(
                encode_utf8(old(self).root@),
                files@,
            ),
            final(self).config_view() == old(self).config_view(),
    {
        let ghost rootb: Seq<u8> = encode_utf8(self.root@);
        let rb = self.root.as_str().as_bytes();
        let root_len = rb.len();
        proof {
            assert(rb@ == encode_utf8(self.root@));
            assert(root_len == rootb.len());
        }
        let mut idx: usize = 0;
        assert(self.routes_view() =~= old(self).routes_view() + static_routes(
            rootb,
            files@.take(0),
        ));
        while idx < files.len()
            invariant
                idx <= files@.len(),
                rootb == encode_utf8(self.root@),
                root_len == rootb.len(),
                self.config_view() == old(self).config_view(),
                self.routes_view() == old(self).routes_view() + static_routes(
                    rootb,
                    files@.take(idx as int),
                ),
            decreases files@.len() - idx,
        {
            let f = &files[idx];
            let fb = f.as_str().as_bytes();
            if root_len >= 1 && fb.len() >= root_len {
                let mut rel: Vec<u8> = Vec::new();
                let mut j: usize = root_len - 1;
                while j < fb.len()
                    invariant
                        root_len >= 1,
                        root_len - 1 <= j <= fb@.len(),
                        rel@ =~= fb@.subrange(root_len - 1, j as int),
                    decreases fb@.len() - j,
                {
                    let b = fb[j];
                    rel.push(b);
                    assert(rel@ =~= fb@.subrange(root_len - 1, j + 1));
                    j = j + 1;
                }
                let is_index = bytes_eq(rel.as_slice(), "/index.html".as_bytes()) || bytes_eq(
                    rel.as_slice(),
                    "/index.php".as_bytes(),
                );
                self.routes.push(RouteEntry { path: rel, handler: Handler::File(f.clone()) });
                if is_index {
                    self.routes.push(
                        RouteEntry {
                            path: slice_to_vec("/".as_bytes()),
                            handler: Handler::File(f.clone()),
                        },
                    );
                }
                assert(self.routes_view() =~= old(self).routes_view() + static_routes(
                    rootb,
                    files@.take(idx as int),
                ) + static_entries(rootb, files@[idx as int]));
            } else {
                assert(static_entries(rootb, files@[idx as int]) =~= Seq::<(
                    Seq<u8>,
                    Handler,
                )>::empty());
            }
            proof {
                assert(files@.take(idx + 1).drop_last() =~= files@.take(idx as int));
                assert(files@.take(idx + 1).last() == files@[idx as int]);
                assert(self.routes_view() =~= old(self).routes_view() + static_routes(
                    rootb,
                    files@.take(idx + 1),
                ));
            }
            idx = idx + 1;
        }
        assert(files@.take(files@.len() as int) =~= files@);
    }

    /// Turns a request's retained bytes into a reply or a file to fetch,
    /// reading the route table and nothing else.
    pub fn dispatch(&self, req: &Vec<u8>) -> (r: Dispatch)
        ensures
            r@ == spec_dispatch(self.routes_view(), req@),
    {
        match parse_request_target(req) {
            None => Dispatch::Reply(not_found()),
            Some(target) => match self.lookup(&target) {
                None => Dispatch::Reply(not_found()),
                Some(h) => match h {
                    Handler::Fixed(s) => Dispatch::Reply(response_bytes(s.as_str())),
                    Handler::File(p) => Dispatch::FetchFile(p.clone()),
                },
            },
        }
    }
}

/// The newest handler registered under `path`, scanning from the end.
pub open spec fn spec_lookup(routes: Seq<(Seq<u8>, Handler)>, path: Seq<u8>) -> Option<Handler>
    decreases routes.len(),
{
    if routes.len() == 0 {
        None
    } else if routes.last().0 == path {
        Some(routes.last().1)
    } else {
        spec_lookup(routes.drop_last(), path)
    }
}

/// Looking a key up in concatenated route runs: the newer run answers if it
/// knows the key at all, the older one otherwise.
pub proof fn lemma_lookup_concat(
    a: Seq<(Seq<u8>, Handler)>,
    b: Seq<(Seq<u8>, Handler)>,
    key: Seq<u8>,
)
    ensures
        spec_lookup(a + b, key) == match spec_lookup(b, key) {
            Some(h) => Some(h),
            None => spec_lookup(a, key),
        },
    decreases b.len(),
{
    if b.len() == 0 {
        assert(a + b =~= a);
    } else {
        assert((a + b).drop_last() =~= a + b.drop_last());
        assert((a + b).last() == b.last());
        lemma_lookup_concat(a, b.drop_last(), key);
    }
}

/// What a handler binding answers with: a `Fixed` handler's stored bytes
/// verbatim, or the path of a `File` handler's backing file, to fetch.
pub open spec fn handler_reply(h: Handler) -> DispatchV {
    match h {
        Handler::Fixed(s) => DispatchV::Reply(encode_utf8(s@)),
        Handler::File(p) => DispatchV::FetchFile(p@),
    }
}

/// What serving `req` against `routes` yields: the `404` reply when the
/// request line does not parse or the target is unregistered, and the bound
/// handler's own reply otherwise.
pub open spec fn spec_dispatch(routes: Seq<(Seq<u8>, Handler)>, req: Seq<u8>) -> DispatchV {
    match spec_parse_target(req) {
        None => DispatchV::Reply(resp_404()),
        Some(target) => match spec_lookup(routes, target) {
            None => DispatchV::Reply(resp_404()),
            Some(h) => handler_reply(h),
        },
    }
}

/// The path of `fb` relative to the root, with leading slash: the root is
/// expected to end in a separator, so the slash before the relative part is
/// the root's last byte.
pub open spec fn rel_of(root: Seq<u8>, fb: Seq<u8>) -> Seq<u8> {
    fb.subrange(root.len() - 1, fb.len() as int)
}

/// The route entries that registering the file at full path `f` under `root`
/// adds: the file under its relative path, plus `/` when it is a root-level
/// index file. A path shorter than the root adds nothing.
pub open spec fn static_entries(root: Seq<u8>, f: String) -> Seq<(Seq<u8>, Handler)> {
    let fb = encode_utf8(f@);
    if root.len() < 1 || fb.len() < root.len() {
        Seq::empty()
    } else {
        let rel = rel_of(root, fb);
        let base = seq![(rel, Handler::File(f))];
        if rel == encode_utf8("/index.html"@) || rel == encode_utf8("/index.php"@) {
            base.push((encode_utf8("/"@), Handler::File(f)))
        } else {
            base
        }
    }
}

/// The route entries that registering `files` in order under `root` adds.
pub open spec fn static_routes(root: Seq<u8>, files: Seq<String>) -> Seq<(Seq<u8>, Handler)>
    decreases files.len(),
{
    if files.len() == 0 {
        Seq::empty()
    } else {
        static_routes(root, files.drop_last()) + static_entries(root, files.last())
    }
}

/// Byte-for-byte equality of two slices.
pub fn bytes_eq(a: &[u8], b: &[u8]) -> (r: bool)
    ensures
        r == (a@ == b@),
{
    if a.len() != b.len() {
        return false;
    }
    let mut i: usize = 0;
    while i < a.len()
        invariant
            a@.len() == b@.len(),
            i <= a@.len(),
            forall|j: int| 0 <= j < i ==> a@[j] == b@[j],
        decreases a@.len() - i,
    {
        if a[i] != b[i] {
            return false;
        }
        i = i + 1;
    }
    assert(a@ =~= b@);
    true
}

} // verus!
