//! Pieces of the HTTP transport that decide rather than serve: accepted
//! `Host` values and the bearer-token comparison.

use vstd::prelude::*;

use crate::text::{owned, string_of, trim, trim_chars, chars_of};

verus! {

/// The accumulator of `constant_time_eq` stays zero exactly while all
/// compared bytes are equal.
pub proof fn lemma_xor_or_zero(acc: u8, x: u8, y: u8)
    ensures
        (acc | (x ^ y)) == 0 <==> (acc == 0 && x == y),
{
    assert((acc | (x ^ y)) == 0 <==> (acc == 0 && x == y)) by (bit_vector);
}

/// Compares two byte strings without stopping at the first mismatch, so
/// the time taken does not reveal how much of a token matched (only its
/// length is observable).
pub fn constant_time_eq(a: &[u8], b: &[u8]) -> (r: bool)
    ensures
        r == (a@ == b@),
{
    if a.len() != b.len() {
        return false;
    }
    let mut acc: u8 = 0;
    let mut i: usize = 0;
    while i < a.len()
        invariant
            a.len() == b.len(),
            i <= a.len(),
            (acc == 0) == (forall|j: int| 0 <= j < i ==> a@[j] == b@[j]),
        decreases a.len() - i,
    {
        proof {
            lemma_xor_or_zero(acc, a@[i as int], b@[i as int]);
        }
        acc = acc | (a[i] ^ b[i]);
        i = i + 1;
        assert((acc == 0) == (forall|j: int| 0 <= j < i ==> a@[j] == b@[j])) by {
            if acc == 0 {
                assert forall|j: int| 0 <= j < i implies a@[j] == b@[j] by {}
            }
        }
    }
    if acc == 0 {
        assert(a@ =~= b@);
    }
    acc == 0
}

/// The accepted `Host` values: the loopback names, the bind IP, then each
/// extra host trimmed, blank ones dropped.
pub open spec fn allowed_hosts_of(bind_ip: Seq<char>, extra: Seq<Seq<char>>) -> Seq<Seq<char>> {
    seq!["localhost"@, "127.0.0.1"@, "::1"@, bind_ip] + extra.map_values(|h: Seq<char>| trim(h)).filter(
        |h: Seq<char>| h.len() > 0,
    )
}

/// `Host` header values accepted by the HTTP transport. `bind_ip` is the
/// bind address's IP as text.
pub fn allowed_hosts(bind_ip: &str, extra: Vec<String>) -> (hosts: Vec<String>)
    ensures
        hosts@.map_values(|h: String| h@) == allowed_hosts_of(
            bind_ip@,
            extra@.map_values(|h: String| h@),
        ),
{
    let ghost ev = extra@.map_values(|h: String| h@);
    let ghost tv = ev.map_values(|h: Seq<char>| trim(h));
    let ghost pred = |h: Seq<char>| h.len() > 0;
    let mut hosts: Vec<String> = Vec::new();
    hosts.push(owned("localhost"));
    hosts.push(owned("127.0.0.1"));
    hosts.push(owned("::1"));
    hosts.push(owned(bind_ip));
    let ghost base = seq!["localhost"@, "127.0.0.1"@, "::1"@, bind_ip@];
    assert(hosts@.map_values(|h: String| h@) =~= base + tv.take(0).filter(pred));
    let mut i: usize = 0;
    while i < extra.len()
        invariant
            i <= extra.len(),
            ev == extra@.map_values(|h: String| h@),
            tv == ev.map_values(|h: Seq<char>| trim(h)),
            pred == (|h: Seq<char>| h.len() > 0),
            base == seq!["localhost"@, "127.0.0.1"@, "::1"@, bind_ip@],
            hosts@.map_values(|h: String| h@) == base + tv.take(i as int).filter(pred),
        decreases extra.len() - i,
    {
        let t = trim_chars(&chars_of(extra[i].as_str()));
        proof {
            assert(tv.take(i + 1).drop_last() =~= tv.take(i as int));
            assert(tv[i as int] == t@);
            reveal(Seq::filter);
        }
        if t.len() > 0 {
            let ghost before = hosts@;
            hosts.push(string_of(&t));
            assert(hosts@.map_values(|h: String| h@) =~= before.map_values(|h: String| h@).push(
                t@,
            ));
        }
        i = i + 1;
    }
    assert(tv.take(extra.len() as int) =~= tv);
    hosts
}

} // verus!
