//! The library-wide laws: how dispatch treats well-formed, unknown and
//! malformed requests, and how repeated registration resolves.

use vstd::prelude::*;
use vstd::utf8::encode_utf8;
use crate::request::{find_marker, get_token, http_marker, lemma_find_marker_first, marker_at,
    spec_parse_target};
use crate::response::resp_404;
use crate::server::{handler_reply, lemma_lookup_concat, rel_of, spec_dispatch, spec_lookup,
    static_entries, static_routes, DispatchV, Handler};

verus! {

/// The bytes of a well-formed request line for `target`: the `GET` method,
/// the target, then the ` HTTP` marker opening the protocol version, then
/// whatever else the client sent (the rest of the version, headers, body).
pub open spec fn get_request(target: Seq<u8>, tail: Seq<u8>) -> Seq<u8> {
    seq![71u8, 69u8, 84u8, 32u8] + target + http_marker() + tail
}

/// Whether a target can stand in an unambiguous request line: no space
/// byte, and not opening with `HTTP` (which would collide with the method's
/// own trailing space to form an early ` HTTP` marker).
pub open spec fn unambiguous_target(target: Seq<u8>) -> bool {
    &&& !target.contains(32u8)
    &&& !(target.len() >= 4 && target.subrange(0, 4) == seq![72u8, 84u8, 84u8, 80u8])
}

/// A target that neither holds a space byte nor opens with `HTTP` cannot
/// produce an ` HTTP` marker before the one that closes it.
proof fn lemma_no_early_marker(target: Seq<u8>, tail: Seq<u8>, i: int)
    requires
        unambiguous_target(target),
        0 <= i < 4 + target.len(),
    ensures
        !marker_at(get_request(target, tail), i),
{
    let req = get_request(target, tail);
    if marker_at(req, i) {
        assert(req.subrange(i, i + 5)[0] == http_marker()[0]);
        assert(req[i] == 32u8);
        if i < 3 {
            assert(req[i] == seq![71u8, 69u8, 84u8, 32u8][i]);
            assert(false);
        } else if i == 3 {
            // The marker's `HTTP` would have to open the target.
            if target.len() >= 4 {
                assert forall|k: int| 0 <= k < 4 implies target.subrange(0, 4)[k] == seq![
                    72u8,
                    84u8,
                    84u8,
                    80u8,
                ][k] by {
                    assert(req.subrange(3, 8)[k + 1] == http_marker()[k + 1]);
                    assert(req[4 + k] == target[k]);
                }
                assert(target.subrange(0, 4) =~= seq![72u8, 84u8, 84u8, 80u8]);
                assert(false);
            } else {
                // Too short: the byte after the target is the closing
                // marker's space, where `HTTP` would need a letter.
                let k = target.len() as int;
                assert(req.subrange(3, 8)[k + 1] == http_marker()[k + 1]);
                assert(req[4 + k] == http_marker()[0]);
                assert(http_marker()[k + 1] != 32u8);
                assert(false);
            }
        } else {
            // A space inside the target.
            assert(req[i] == target[i - 4]);
            assert(target.contains(32u8));
            assert(false);
        }
    }
}

/// A well-formed `GET` request for `target` parses to exactly `target`, and
/// dispatch answers it with what the registered handler produces for its
/// bound argument — or with the exact `404 NOT FOUND` bytes when no route is
/// registered under `target`. The target must not hold a space byte and must
/// not open with `HTTP`, which is what keeps the request line unambiguous.
pub proof fn lemma_well_formed_get(
    routes: Seq<(Seq<u8>, Handler)>,
    target: Seq<u8>,
    tail: Seq<u8>,
)
    requires
        unambiguous_target(target),
    ensures
        spec_parse_target(get_request(target, tail)) == Some(target),
        spec_dispatch(routes, get_request(target, tail)) == match spec_lookup(routes, target) {
            None => DispatchV::Reply(resp_404()),
            Some(h) => handler_reply(h),
        },
{
    let req = get_request(target, tail);
    let m = 4 + target.len() as int;
    assert(req.subrange(0, 3) =~= get_token());
    assert(req.subrange(m, m + 5) =~= http_marker());
    assert forall|i: int| 0 <= i < m implies !marker_at(req, i) by {
        lemma_no_early_marker(target, tail, i);
    }
    lemma_find_marker_first(req, 0, m);
    assert(req.subrange(4, m) =~= target);
}

/// A request that is too short or does not begin with `GET` is answered with
/// the exact `404 NOT FOUND` bytes — the same reply an unknown path gets.
pub proof fn lemma_non_get_answered_not_found(routes: Seq<(Seq<u8>, Handler)>, req: Seq<u8>)
    requires
        req.len() < 3 || req.subrange(0, 3) != get_token(),
    ensures
        spec_dispatch(routes, req) == DispatchV::Reply(resp_404()),
{
}

/// Requests served against one table cannot disturb each other: two
/// well-formed requests for two registered paths are each answered with
/// their own route's reply, whatever the other asked for — the outcome for
/// a connection is a function of the shared read-only table and that
/// connection's bytes alone.
pub proof fn lemma_requests_independent(
    routes: Seq<(Seq<u8>, Handler)>,
    t1: Seq<u8>,
    tail1: Seq<u8>,
    t2: Seq<u8>,
    tail2: Seq<u8>,
)
    requires
        unambiguous_target(t1),
        unambiguous_target(t2),
        spec_lookup(routes, t1) is Some,
        spec_lookup(routes, t2) is Some,
    ensures
        spec_dispatch(routes, get_request(t1, tail1)) == handler_reply(
            spec_lookup(routes, t1).unwrap(),
        ),
        spec_dispatch(routes, get_request(t2, tail2)) == handler_reply(
            spec_lookup(routes, t2).unwrap(),
        ),
{
    lemma_well_formed_get(routes, t1, tail1);
    lemma_well_formed_get(routes, t2, tail2);
}

/// Whether registering the file at `f` under `root` aliases it as the
/// root-level index page.
pub open spec fn is_index_rel(root: Seq<u8>, f: String) -> bool {
    let rel = rel_of(root, encode_utf8(f@));
    rel == encode_utf8("/index.html"@) || rel == encode_utf8("/index.php"@)
}

/// What one file's registration knows about a key: its own relative path,
/// plus `/` for a root-level index file, and nothing else.
proof fn lemma_entries_lookup(root: Seq<u8>, f: String, key: Seq<u8>)
    requires
        root.len() >= 1,
    ensures
        encode_utf8(f@).len() < root.len() ==> spec_lookup(static_entries(root, f), key) is None,
        encode_utf8(f@).len() >= root.len() && key == rel_of(root, encode_utf8(f@))
            ==> spec_lookup(static_entries(root, f), key) == Some(Handler::File(f)),
        encode_utf8(f@).len() >= root.len() && key != rel_of(root, encode_utf8(f@)) && is_index_rel(
            root,
            f,
        ) && key == encode_utf8("/"@) ==> spec_lookup(static_entries(root, f), key) == Some(
            Handler::File(f),
        ),
        encode_utf8(f@).len() >= root.len() && key != rel_of(root, encode_utf8(f@)) && !(
        is_index_rel(root, f) && key == encode_utf8("/"@)) ==> spec_lookup(
            static_entries(root, f),
            key,
        ) is None,
{
    let fb = encode_utf8(f@);
    let ent = static_entries(root, f);
    let empty = Seq::<(Seq<u8>, Handler)>::empty();
    if fb.len() < root.len() {
        assert(ent =~= empty);
        assert(spec_lookup(ent, key) is None);
    } else {
        let rel = rel_of(root, fb);
        let base = seq![(rel, Handler::File(f))];
        assert(base.last() == (rel, Handler::File(f)));
        assert(base.drop_last() =~= empty);
        assert(spec_lookup(empty, key) is None);
        if is_index_rel(root, f) {
            let slash = encode_utf8("/"@);
            assert(ent == base.push((slash, Handler::File(f))));
            assert(ent.last() == (slash, Handler::File(f)));
            assert(ent.drop_last() =~= base);
            if key != slash {
                assert(spec_lookup(ent, key) == spec_lookup(base, key));
            }
        } else {
            assert(ent == base);
        }
    }
}

/// Static registration serves each file under its own relative path, in
/// whatever order the walk presented the files: when no other walked file
/// shares file `i`'s relative path, and that path is not `/` itself, looking
/// it up in the routes the registration adds finds file `i`'s handler.
pub proof fn lemma_static_route_found(root: Seq<u8>, files: Seq<String>, i: int)
    requires
        root.len() >= 1,
        0 <= i < files.len(),
        encode_utf8(files[i]@).len() >= root.len(),
        rel_of(root, encode_utf8(files[i]@)) != encode_utf8("/"@),
        forall|j: int|
            0 <= j < files.len() && j != i && encode_utf8(files[j]@).len() >= root.len()
                ==> rel_of(root, encode_utf8(files[j]@)) != rel_of(root, encode_utf8(files[i]@)),
    ensures
        spec_lookup(static_routes(root, files), rel_of(root, encode_utf8(files[i]@))) == Some(
            Handler::File(files[i]),
        ),
    decreases files.len(),
{
    let rel = rel_of(root, encode_utf8(files[i]@));
    let k = files.len() - 1;
    let pre = static_routes(root, files.drop_last());
    let ent = static_entries(root, files.last());
    lemma_lookup_concat(pre, ent, rel);
    lemma_entries_lookup(root, files.last(), rel);
    if i == k {
        assert(files.last() == files[i]);
        assert(spec_lookup(ent, rel) == Some(Handler::File(files[i])));
    } else {
        assert(files.last() == files[k]);
        assert(spec_lookup(ent, rel) is None);
        lemma_static_route_found(root, files.drop_last(), i);
    }
}

/// A root-level index file is reachable under `/`, in whatever order the
/// walk presented the files: when file `i` is the only index-named file and
/// no other file's relative path is `/` itself, looking up `/` finds file
/// `i`'s handler.
pub proof fn lemma_index_alias_found(root: Seq<u8>, files: Seq<String>, i: int)
    requires
        root.len() >= 1,
        0 <= i < files.len(),
        encode_utf8(files[i]@).len() >= root.len(),
        rel_of(root, encode_utf8(files[i]@)) == encode_utf8("/index.html"@) || rel_of(
            root,
            encode_utf8(files[i]@),
        ) == encode_utf8("/index.php"@),
        forall|j: int|
            0 <= j < files.len() && j != i && encode_utf8(files[j]@).len() >= root.len() ==> {
                &&& rel_of(root, encode_utf8(files[j]@)) != encode_utf8("/index.html"@)
                &&& rel_of(root, encode_utf8(files[j]@)) != encode_utf8("/index.php"@)
                &&& rel_of(root, encode_utf8(files[j]@)) != encode_utf8("/"@)
            },
    ensures
        spec_lookup(static_routes(root, files), encode_utf8("/"@)) == Some(
            Handler::File(files[i]),
        ),
    decreases files.len(),
{
    let slash = encode_utf8("/"@);
    let k = files.len() - 1;
    let pre = static_routes(root, files.drop_last());
    let ent = static_entries(root, files.last());
    lemma_lookup_concat(pre, ent, slash);
    lemma_entries_lookup(root, files.last(), slash);
    if i == k {
        assert(files.last() == files[i]);
        assert(spec_lookup(ent, slash) == Some(Handler::File(files[i])));
    } else {
        assert(files.last() == files[k]);
        assert(spec_lookup(ent, slash) is None);
        lemma_index_alias_found(root, files.drop_last(), i);
    }
}

/// Registering twice under one path leaves only the second handler
/// reachable: lookup after both registrations yields the later one.
pub proof fn lemma_last_write_wins(
    routes: Seq<(Seq<u8>, Handler)>,
    path: Seq<u8>,
    h1: Handler,
    h2: Handler,
)
    ensures
        spec_lookup(routes.push((path, h1)).push((path, h2)), path) == Some(h2),
{
    assert(routes.push((path, h1)).push((path, h2)).last() == (path, h2));
}

} // verus!
