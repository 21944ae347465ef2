//! Bounded request reading and request-line parsing.
//!
//! A connection's bytes arrive in chunks; [`read_step`] folds each chunk into
//! an accumulating buffer without ever letting it grow past the configured
//! maximum request length. [`parse_request_target`] then extracts the request
//! target from a `GET <target> HTTP/...` line, answering `None` for anything
//! too short, not starting with `GET`, or missing the ` HTTP` marker — the
//! caller answers all of those with the same `404 NOT FOUND`.

use vstd::prelude::*;

verus! {

/// The bytes of the method token `GET`.
pub open spec fn get_token() -> Seq<u8> {
    seq![71u8, 69u8, 84u8]
}

/// The bytes of the wire marker ` HTTP` that precedes the protocol version
/// and so ends the request target.
pub open spec fn http_marker() -> Seq<u8> {
    seq![32u8, 72u8, 84u8, 84u8, 80u8]
}

/// Whether the ` HTTP` marker sits at position `i` of `req`.
pub open spec fn marker_at(req: Seq<u8>, i: int) -> bool {
    0 <= i && i + 5 <= req.len() && req.subrange(i, i + 5) == http_marker()
}

/// The position of the first ` HTTP` marker at or after `from`, if any.
pub open spec fn find_marker(req: Seq<u8>, from: int) -> Option<int>
    recommends
        0 <= from,
    decreases req.len() - from,
{
    if from < 0 || from + 5 > req.len() {
        None
    } else if marker_at(req, from) {
        Some(from)
    } else {
        find_marker(req, from + 1)
    }
}

/// What the request line denotes: `Some(target)` when the retained bytes
/// begin with `GET` and carry a ` HTTP` marker no earlier than position 4,
/// the target being the bytes between the method's space and that marker;
/// `None` otherwise.
pub open spec fn spec_parse_target(req: Seq<u8>) -> Option<Seq<u8>> {
    if req.len() < 3 {
        None
    } else if req.subrange(0, 3) != get_token() {
        None
    } else {
        match find_marker(req, 0) {
            None => None,
            Some(p) => if p < 4 {
                None
            } else {
                Some(req.subrange(4, p))
            },
        }
    }
}

/// A marker at `m` with none before it (from `from` on) is the one found.
pub proof fn lemma_find_marker_first(req: Seq<u8>, from: int, m: int)
    requires
        0 <= from <= m,
        marker_at(req, m),
        forall|j: int| from <= j < m ==> !marker_at(req, j),
    ensures
        find_marker(req, from) == Some(m),
    decreases m - from,
{
    if from < m {
        lemma_find_marker_first(req, from + 1, m);
    }
}

/// No marker anywhere at or after `from` means the search misses.
pub proof fn lemma_find_marker_none(req: Seq<u8>, from: int)
    requires
        0 <= from,
        forall|j: int| from <= j ==> !marker_at(req, j),
    ensures
        find_marker(req, from) is None,
    decreases req.len() - from,
{
    if from + 5 <= req.len() {
        lemma_find_marker_none(req, from + 1);
    }
}

/// Extracts the request target from the retained request bytes, exactly as
/// [`spec_parse_target`] describes.
pub fn parse_request_target(req: &Vec<u8>) -> (r: Option<Vec<u8>>)
    ensures
        match r {
            Some(t) => spec_parse_target(req@) == Some(t@),
            None => spec_parse_target(req@) is None,
        },
{
    if req.len() < 3 {
        return None;
    }
    if !(req[0] == 71 && req[1] == 69 && req[2] == 84) {
        proof {
            assert(req@.subrange(0, 3) != get_token());
        }
        return None;
    }
    assert(req@.subrange(0, 3) =~= get_token());

    // Find the first ` HTTP` marker.
    let n = req.len();
    if n < 5 {
        proof {
            lemma_find_marker_none(req@, 0);
        }
        return None;
    }
    let mut i: usize = 0;
    let mut found: Option<usize> = None;
    while found.is_none() && i <= n - 5
        invariant
            n == req@.len(),
            5 <= n,
            0 <= i <= n,
            forall|j: int| 0 <= j < i ==> !marker_at(req@, j),
            match found {
                Some(p) => p == i && marker_at(req@, p as int),
                None => true,
            },
        decreases (if found is None {
            1int
        } else {
            0int
        }), n - i,
    {
        if req[i] == 32 && req[i + 1] == 72 && req[i + 2] == 84 && req[i + 3] == 84 && req[i + 4]
            == 80 {
            assert(req@.subrange(i as int, i as int + 5) =~= http_marker());
            found = Some(i);
        } else {
            assert(req@.subrange(i as int, i as int + 5) != http_marker()) by {
                if req@.subrange(i as int, i as int + 5) == http_marker() {
                    assert(req@[i as int] == http_marker()[0]);
                    assert(req@[i as int + 1] == http_marker()[1]);
                    assert(req@[i as int + 2] == http_marker()[2]);
                    assert(req@[i as int + 3] == http_marker()[3]);
                    assert(req@[i as int + 4] == http_marker()[4]);
                }
            }
            i = i + 1;
        }
    }
    match found {
        None => {
            proof {
                lemma_find_marker_none(req@, 0);
            }
            None
        },
        Some(p) => {
            proof {
                lemma_find_marker_first(req@, 0, p as int);
            }
            if p < 4 {
                None
            } else {
                let mut target: Vec<u8> = Vec::new();
                let mut j: usize = 4;
                while j < p
                    invariant
                        4 <= j <= p,
                        p + 5 <= req@.len(),
                        target@ =~= req@.subrange(4, j as int),
                    decreases p - j,
                {
                    target.push(req[j]);
                    assert(target@ =~= req@.subrange(4, j + 1));
                    j = j + 1;
                }
                Some(target)
            }
        },
    }
}

/// How many fixed-size chunks are needed to cover `rqml` bytes.
pub open spec fn spec_chunk_budget(rqml: nat, chunk_cap: nat) -> nat
    recommends
        chunk_cap > 0,
{
    ((rqml + chunk_cap - 1) / chunk_cap as int) as nat
}

/// The number of reads of `chunk_cap` bytes that suffice for a request of at
/// most `rqml` bytes: the least count whose total capacity reaches `rqml`.
pub fn chunk_budget(rqml: usize, chunk_cap: usize) -> (r: usize)
    requires
        chunk_cap > 0,
    ensures
        r == spec_chunk_budget(rqml as nat, chunk_cap as nat),
        r * chunk_cap >= rqml,
{
    let whole = rqml / chunk_cap;
    let rem = rqml % chunk_cap;
    proof {
        let cap = chunk_cap as int;
        let q = whole as int;
        let m = rem as int;
        vstd::arithmetic::div_mod::lemma_fundamental_div_mod(rqml as int, cap);
        vstd::arithmetic::div_mod::lemma_mod_bound(rqml as int, cap);
        // rqml == cap * q + m with 0 <= m < cap
        if m == 0 {
            assert(rqml + cap - 1 == cap * q + (cap - 1));
            vstd::arithmetic::div_mod::lemma_div_multiples_vanish_fancy(q, cap - 1, cap);
            assert(q * cap == rqml) by (nonlinear_arith)
                requires
                    rqml == cap * q + m,
                    m == 0,
            ;
        } else {
            assert(q < rqml) by (nonlinear_arith)
                requires
                    rqml == cap * q + m,
                    0 < m < cap,
                    0 <= q,
            ;
            assert(rqml + cap - 1 == cap * (q + 1) + (m - 1)) by (nonlinear_arith)
                requires
                    rqml == cap * q + m,
            ;
            vstd::arithmetic::div_mod::lemma_div_multiples_vanish_fancy(q + 1, m - 1, cap);
            assert((q + 1) * cap >= rqml) by (nonlinear_arith)
                requires
                    rqml == cap * q + m,
                    m < cap,
            ;
        }
    }
    if rem == 0 {
        whole
    } else {
        whole + 1
    }
}

/// Folds one chunk of freshly read bytes into the request buffer, keeping the
/// total at or under `rqml`: bytes past the budget are dropped, never stored.
/// Returns whether reading is over — either the budget is full (any further
/// bytes would only be discarded) or the chunk came back short of
/// `chunk_cap`, meaning the client has sent all it has for now.
pub fn read_step(buf: &mut Vec<u8>, data: &[u8], chunk_cap: usize, rqml: usize) -> (done: bool)
    requires
        old(buf)@.len() <= rqml,
    ensures
        final(buf)@ == old(buf)@ + data@.take(
            if data@.len() <= rqml - old(buf)@.len() {
                data@.len() as int
            } else {
                rqml - old(buf)@.len()
            },
        ),
        final(buf)@.len() <= rqml,
        done == (final(buf)@.len() == rqml || data@.len() < chunk_cap),
{
    let room = rqml - buf.len();
    let n = if data.len() <= room {
        data.len()
    } else {
        room
    };
    let mut j: usize = 0;
    while j < n
        invariant
            j <= n,
            n <= data@.len(),
            buf@ =~= old(buf)@ + data@.take(j as int),
        decreases n - j,
    {
        buf.push(data[j]);
        assert(buf@ =~= old(buf)@ + data@.take(j + 1));
        j = j + 1;
    }
    assert(buf@ =~= old(buf)@ + data@.take(n as int));
    buf.len() == rqml || data.len() < chunk_cap
}

} // verus!
