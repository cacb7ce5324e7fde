//! Telling HTTP from length-prefixed frames by the first bytes of a connection.
use vstd::prelude::*;

verus! {

/// How long to wait for the first bytes. A connection that stays silent is not HTTP.
pub const PEEK_TIMEOUT_MILLIS: u64 = 500;

/// How many bytes are enough to tell.
pub const PEEK_LIMIT: usize = 8;

/// The longest frame, in bytes, that length-prefixed framing allows.
pub const FRAME_LIMIT: u32 = 67_108_864;

/// What the first bytes of a connection say.
#[derive(Clone, Copy, Debug, PartialEq, Eq, Structural)]
pub enum Verdict {
    Http,
    NotHttp,
    /// More bytes may still tell.
    Undecided,
}

/// The bytes that an HTTP request begins with: `GET `, `HEAD ` or `POST `.
pub open spec fn method_prefixes() -> Seq<Seq<u8>> {
    seq![
        seq![71u8, 69, 84, 32],
        seq![72u8, 69, 65, 68, 32],
        seq![80u8, 79, 83, 84, 32],
    ]
}

/// Whether bytes begin an HTTP request.
pub open spec fn begins_request(bytes: Seq<u8>) -> bool {
    exists|k: int|
        0 <= k < method_prefixes().len() && (#[trigger] method_prefixes()[k]).is_prefix_of(bytes)
}

/// Whether bytes are the beginning of what an HTTP request begins with.
pub open spec fn may_begin_request(bytes: Seq<u8>) -> bool {
    exists|k: int|
        0 <= k < method_prefixes().len() && bytes.is_prefix_of(#[trigger] method_prefixes()[k])
}

/// What the first bytes of a connection say.
pub open spec fn verdict(bytes: Seq<u8>) -> Verdict {
    if begins_request(bytes) {
        Verdict::Http
    } else if may_begin_request(bytes) {
        Verdict::Undecided
    } else {
        Verdict::NotHttp
    }
}

/// Whether the shorter of two byte strings begins the longer.
fn agree(bytes: &[u8], prefix: &Vec<u8>) -> (agreed: bool)
    ensures
        agreed == (prefix@.is_prefix_of(bytes@) || bytes@.is_prefix_of(prefix@)),
{
    let mut i: usize = 0;
    while i < bytes.len() && i < prefix.len()
        invariant
            i <= bytes@.len(),
            i <= prefix@.len(),
            forall|j: int| 0 <= j < i ==> bytes@[j] == #[trigger] prefix@[j],
        decreases bytes.len() - i,
    {
        if bytes[i] != prefix[i] {
            proof {
                if prefix@.is_prefix_of(bytes@) {
                    assert(bytes@.take(prefix@.len() as int)[i as int] == prefix@[i as int]);
                }
                if bytes@.is_prefix_of(prefix@) {
                    assert(prefix@.take(bytes@.len() as int)[i as int] == bytes@[i as int]);
                }
            }
            return false;
        }
        i = i + 1;
    }
    proof {
        if i == prefix@.len() {
            assert(prefix@ =~= bytes@.take(prefix@.len() as int));
        } else {
            assert(bytes@ =~= prefix@.take(bytes@.len() as int));
        }
    }
    true
}

/// What the first bytes of a connection say.
pub fn peeked(bytes: &[u8]) -> (said: Verdict)
    ensures
        said == verdict(bytes@),
{
    let get: Vec<u8> = vec![71, 69, 84, 32];
    let head: Vec<u8> = vec![72, 69, 65, 68, 32];
    let post: Vec<u8> = vec![80, 79, 83, 84, 32];
    assert(get@ =~= method_prefixes()[0]);
    assert(head@ =~= method_prefixes()[1]);
    assert(post@ =~= method_prefixes()[2]);
    let agrees_get = agree(bytes, &get);
    let agrees_head = agree(bytes, &head);
    let agrees_post = agree(bytes, &post);
    proof {
        let p = method_prefixes();
        assert(p.len() == 3);
        if begins_request(bytes@) {
            let k = choose|k: int| 0 <= k < p.len() && (#[trigger] p[k]).is_prefix_of(bytes@);
            assert(k == 0 || k == 1 || k == 2);
        }
        if may_begin_request(bytes@) {
            let k = choose|k: int| 0 <= k < p.len() && bytes@.is_prefix_of(#[trigger] p[k]);
            assert(k == 0 || k == 1 || k == 2);
        }
    }
    if agrees_get && bytes.len() >= get.len() || agrees_head && bytes.len() >= head.len()
        || agrees_post && bytes.len() >= post.len() {
        proof {
            let k: int = if agrees_get && bytes@.len() >= 4 {
                0
            } else if agrees_head && bytes@.len() >= 5 {
                1
            } else {
                2
            };
            let p = method_prefixes()[k];
            if bytes@.is_prefix_of(p) {
                assert(p.len() <= bytes@.len());
                assert(p =~= bytes@);
            }
            assert(p.is_prefix_of(bytes@));
        }
        Verdict::Http
    } else if agrees_get || agrees_head || agrees_post {
        proof {
            let k: int = if agrees_get {
                0
            } else if agrees_head {
                1
            } else {
                2
            };
            assert(bytes@.is_prefix_of(method_prefixes()[k]));
            assert(!method_prefixes()[0].is_prefix_of(bytes@));
            assert(!method_prefixes()[1].is_prefix_of(bytes@));
            assert(!method_prefixes()[2].is_prefix_of(bytes@));
        }
        Verdict::Undecided
    } else {
        Verdict::NotHttp
    }
}

/// Whether a connection is HTTP, from the bytes that came before the peer stopped sending or the
/// time to wait ran out.
pub fn looks_like_http(bytes: &[u8]) -> (http: bool)
    ensures
        http == begins_request(bytes@),
{
    peeked(bytes) == Verdict::Http
}

/// More bytes never change a verdict.
pub proof fn verdict_is_stable(bytes: Seq<u8>, more: Seq<u8>)
    requires
        verdict(bytes) != Verdict::Undecided,
    ensures
        verdict(bytes + more) == verdict(bytes),
{
    let all = bytes + more;
    let p = method_prefixes();
    if begins_request(bytes) {
        let k = choose|k: int| 0 <= k < p.len() && (#[trigger] p[k]).is_prefix_of(bytes);
        assert(p[k] =~= all.take(p[k].len() as int));
        assert(p[k].is_prefix_of(all));
    } else {
        assert forall|k: int| 0 <= k < p.len() implies !(#[trigger] p[k]).is_prefix_of(all)
            && !all.is_prefix_of(p[k]) by {
            if p[k].is_prefix_of(all) {
                if p[k].len() <= bytes.len() {
                    assert(p[k] =~= bytes.take(p[k].len() as int));
                    assert(p[k].is_prefix_of(bytes));
                } else {
                    assert(bytes =~= p[k].take(bytes.len() as int));
                    assert(bytes.is_prefix_of(p[k]));
                }
            }
            if all.is_prefix_of(p[k]) {
                assert(bytes =~= p[k].take(bytes.len() as int));
                assert(bytes.is_prefix_of(p[k]));
            }
        }
    }
}

/// The bytes that are looked at are enough for a verdict.
pub proof fn peek_limit_is_enough(bytes: Seq<u8>)
    requires
        bytes.len() >= PEEK_LIMIT,
    ensures
        verdict(bytes) != Verdict::Undecided,
{
    let p = method_prefixes();
    assert forall|k: int| 0 <= k < p.len() implies !bytes.is_prefix_of(#[trigger] p[k]) by {
        assert(k == 0 || k == 1 || k == 2);
    }
}

/// The length that a length-prefixed frame begins with, the highest byte first.
pub open spec fn frame_length(bytes: Seq<u8>) -> int
    recommends
        bytes.len() >= 4,
{
    bytes[0] * 16777216 + bytes[1] * 65536 + bytes[2] * 256 + bytes[3]
}

/// A length-prefixed frame that is no longer than frames may be is never taken for HTTP.
pub proof fn frames_are_not_http(bytes: Seq<u8>)
    requires
        bytes.len() >= 4,
        frame_length(bytes) <= FRAME_LIMIT,
    ensures
        verdict(bytes) == Verdict::NotHttp,
{
    let p = method_prefixes();
    assert(bytes[0] <= 4);
    assert forall|k: int| 0 <= k < p.len() implies !(#[trigger] p[k]).is_prefix_of(bytes)
        && !bytes.is_prefix_of(p[k]) by {
        assert(k == 0 || k == 1 || k == 2);
        assert(p[k][0] >= 71);
        if p[k].is_prefix_of(bytes) {
            assert(bytes.take(p[k].len() as int)[0] == p[k][0]);
        }
        if bytes.is_prefix_of(p[k]) {
            assert(p[k].take(bytes.len() as int)[0] == bytes[0]);
        }
    }
}

/// A connection is HTTP exactly where it begins with the name of a method and a space: `GET`,
/// `HEAD` or `POST`. One that is silent is not.
pub proof fn requests_begin_with_a_method(bytes: Seq<u8>)
    ensures
        begins_request(bytes) <==> (bytes.len() >= 4 && bytes[0] as char == 'G' && bytes[1] as char
            == 'E' && bytes[2] as char == 'T' && bytes[3] as char == ' ') || (bytes.len() >= 5
            && bytes[0] as char == 'H' && bytes[1] as char == 'E' && bytes[2] as char == 'A'
            && bytes[3] as char == 'D' && bytes[4] as char == ' ') || (bytes.len() >= 5
            && bytes[0] as char == 'P' && bytes[1] as char == 'O' && bytes[2] as char == 'S'
            && bytes[3] as char == 'T' && bytes[4] as char == ' '),
        begins_request(bytes) <==> verdict(bytes) == Verdict::Http,
        bytes.len() == 0 ==> verdict(bytes) == Verdict::Undecided,
{
    let p = method_prefixes();
    assert forall|k: int| 0 <= k < p.len() implies (#[trigger] p[k]).is_prefix_of(bytes) == (
    bytes.len() >= p[k].len() && forall|j: int|
        0 <= j < p[k].len() ==> #[trigger] bytes[j] == p[k][j]) by {
        if p[k].is_prefix_of(bytes) {
            assert forall|j: int| 0 <= j < p[k].len() implies #[trigger] bytes[j] == p[k][j] by {
                assert(bytes.take(p[k].len() as int)[j] == bytes[j]);
            }
        } else if bytes.len() >= p[k].len() && forall|j: int|
            0 <= j < p[k].len() ==> #[trigger] bytes[j] == p[k][j] {
            assert(p[k] =~= bytes.take(p[k].len() as int));
        }
    }
    assert(p[0].is_prefix_of(bytes) ==> bytes[0] == 71 && bytes[1] == 69 && bytes[2] == 84
        && bytes[3] == 32);
    assert(p[1].is_prefix_of(bytes) ==> bytes[0] == 72 && bytes[1] == 69 && bytes[2] == 65
        && bytes[3] == 68 && bytes[4] == 32);
    assert(p[2].is_prefix_of(bytes) ==> bytes[0] == 80 && bytes[1] == 79 && bytes[2] == 83
        && bytes[3] == 84 && bytes[4] == 32);
    if bytes.len() == 0 {
        assert(bytes =~= p[0].take(0));
        assert(bytes.is_prefix_of(p[0]));
    }
}

/// What may still become a request is not decided on.
pub proof fn beginnings_wait(bytes: Seq<u8>, more: Seq<u8>)
    requires
        begins_request(bytes + more),
    ensures
        verdict(bytes) != Verdict::NotHttp,
{
    if verdict(bytes) == Verdict::NotHttp {
        verdict_is_stable(bytes, more);
    }
}

} // verus!
