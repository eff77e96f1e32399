//! Access control: the owner policy and the domain policy.
//!
//! The owner policy filters by the process that opened the connection; the
//! kernel's socket table is read outside this crate and the resolved owner is
//! handed in. The domain policy is a best-effort heuristic over TLS
//! Client-Hello bytes: a raw substring search, not a TLS parser. Both
//! policies fail open on anything they cannot read.

use vstd::prelude::*;
use crate::config::Config;
use crate::packet::{spec_transport, parse_transport};

verus! {

/// `needle` occurs in `hay` at index `i`.
pub open spec fn spec_match_at(hay: Seq<u8>, needle: Seq<u8>, i: int) -> bool {
    0 <= i && i + needle.len() <= hay.len() && hay.subrange(i, i + needle.len() as int)
        == needle
}

/// `needle` occurs somewhere in `hay`.
pub open spec fn spec_contains_sub(hay: Seq<u8>, needle: Seq<u8>) -> bool {
    exists|i: int| spec_match_at(hay, needle, i)
}

fn match_at(hay: &Vec<u8>, needle: &Vec<u8>, i: usize) -> (r: bool)
    requires
        i + needle@.len() <= hay@.len(),
    ensures
        r == spec_match_at(hay@, needle@, i as int),
{
    let n = needle.len();
    let hlen = hay.len();
    let mut j: usize = 0;
    while j < n
        invariant
            n == needle@.len(),
            hlen == hay@.len(),
            i + n <= hlen,
            j <= n,
            forall|t: int| 0 <= t < j ==> hay@[i + t] == needle@[t],
        decreases n - j,
    {
        if hay[i + j] != needle[j] {
            proof {
                let sub = hay@.subrange(i as int, i + needle@.len());
                assert(sub[j as int] == hay@[i + j]);
            }
            return false;
        }
        j += 1;
    }
    proof {
        assert(hay@.subrange(i as int, i + needle@.len()) =~= needle@);
    }
    true
}

/// Raw byte-substring search.
pub fn contains_subslice(hay: &Vec<u8>, needle: &Vec<u8>) -> (found: bool)
    ensures
        found == spec_contains_sub(hay@, needle@),
{
    let n = needle.len();
    let h = hay.len();
    if n == 0 {
        proof {
            assert(hay@.subrange(0, 0) =~= needle@);
            assert(spec_match_at(hay@, needle@, 0));
        }
        return true;
    }
    if n > h {
        proof {
            assert forall|i: int| !spec_match_at(hay@, needle@, i) by {}
        }
        return false;
    }
    let mut i: usize = 0;
    while i <= h - n
        invariant
            n == needle@.len(),
            h == hay@.len(),
            0 < n <= h,
            i <= h - n + 1,
            forall|k: int| 0 <= k < i ==> !spec_match_at(hay@, needle@, k),
        decreases h - n - i + 1,
    {
        if match_at(hay, needle, i) {
            return true;
        }
        i += 1;
    }
    proof {
        assert forall|k: int| !spec_match_at(hay@, needle@, k) by {
            if k + needle@.len() <= hay@.len() {
                assert(k < i || !spec_match_at(hay@, needle@, k));
            }
        }
    }
    false
}

fn copy_tail(v: &Vec<u8>, start: usize) -> (out: Vec<u8>)
    requires
        start <= v@.len(),
    ensures
        out@ == v@.subrange(start as int, v@.len() as int),
{
    let mut out: Vec<u8> = Vec::new();
    let mut i: usize = start;
    proof {
        assert(out@ =~= v@.subrange(start as int, start as int));
    }
    while i < v.len()
        invariant
            start <= i <= v@.len(),
            out@ == v@.subrange(start as int, i as int),
        decreases v@.len() - i,
    {
        out.push(v[i]);
        i += 1;
        proof {
            assert(out@ =~= v@.subrange(start as int, i as int));
        }
    }
    out
}

/// The heuristic Client-Hello signature: TLS handshake content type at byte
/// 0, handshake type "client hello" at byte 5, and at least 44 bytes.
pub open spec fn spec_is_client_hello(payload: Seq<u8>) -> bool {
    payload.len() >= 44 && payload[0] == 0x16 && payload[5] == 0x01
}

/// Some configured domain occurs in the payload bytes.
pub open spec fn spec_matches_any_domain(domains: Seq<Seq<u8>>, payload: Seq<u8>) -> bool {
    exists|k: int| 0 <= k < domains.len() && spec_contains_sub(payload, domains[k])
}

/// The domain policy on one TCP payload: a recognized Client-Hello passes
/// iff some configured domain occurs in it; anything else passes.
pub open spec fn spec_payload_policy(domains: Seq<Seq<u8>>, payload: Seq<u8>) -> bool {
    if spec_is_client_hello(payload) {
        spec_matches_any_domain(domains, payload)
    } else {
        true
    }
}

/// The domain policy on one raw packet: with no domains configured, or on
/// non-TCP or unparseable packets, it passes; on a TCP packet it applies the
/// payload policy.
pub open spec fn spec_domain_policy(domains: Seq<Seq<u8>>, packet: Seq<u8>) -> bool {
    if domains.len() == 0 {
        true
    } else {
        match spec_transport(packet) {
            Option::Some(t) => {
                if !t.is_udp {
                    spec_payload_policy(
                        domains,
                        packet.subrange(t.payload_start as int, packet.len() as int),
                    )
                } else {
                    true
                }
            },
            Option::None => true,
        }
    }
}

fn matches_any_domain(domains: &Vec<Vec<u8>>, payload: &Vec<u8>) -> (r: bool)
    ensures
        r == spec_matches_any_domain(domains.deep_view(), payload@),
{
    let mut k: usize = 0;
    while k < domains.len()
        invariant
            k <= domains@.len(),
            forall|m: int| 0 <= m < k ==> !spec_contains_sub(payload@, #[trigger] domains.deep_view()[m]),
        decreases domains@.len() - k,
    {
        if contains_subslice(payload, &domains[k]) {
            proof {
                assert(domains.deep_view()[k as int] =~= domains@[k as int]@);
            }
            return true;
        }
        proof {
            assert(domains.deep_view()[k as int] =~= domains@[k as int]@);
        }
        k += 1;
    }
    false
}

/// Evaluate the domain policy on one raw packet.
pub fn domain_policy_allows(domains: &Vec<Vec<u8>>, packet: &Vec<u8>) -> (r: bool)
    ensures
        r == spec_domain_policy(domains.deep_view(), packet@),
{
    if domains.len() == 0 {
        return true;
    }
    match parse_transport(packet) {
        Option::None => true,
        Option::Some(t) => {
            if t.is_udp {
                true
            } else {
                let payload = copy_tail(packet, t.payload_start);
                if payload.len() >= 44 {
                    let is_hello = payload[0] == 0x16 && payload[5] == 0x01;
                    if is_hello {
                        matches_any_domain(domains, &payload)
                    } else {
                        true
                    }
                } else {
                    true
                }
            }
        },
    }
}

/// The owner policy given the resolved owner of the packet's source port:
/// with no owner allowlist, or on packets without a TCP/UDP header, it
/// passes; an unresolved owner passes (explicit fail-open); a resolved owner
/// passes iff it is allowlisted.
pub open spec fn spec_owner_policy(uids: Seq<u32>, packet: Seq<u8>, resolved: Option<u32>) -> bool {
    if uids.len() == 0 {
        true
    } else {
        match spec_transport(packet) {
            Option::Some(_) => match resolved {
                Option::Some(u) => uids.contains(u),
                Option::None => true,
            },
            Option::None => true,
        }
    }
}

fn uids_contain(uids: &Vec<u32>, u: u32) -> (r: bool)
    ensures
        r == uids@.contains(u),
{
    let mut k: usize = 0;
    while k < uids.len()
        invariant
            k <= uids@.len(),
            forall|m: int| 0 <= m < k ==> uids@[m] != u,
        decreases uids@.len() - k,
    {
        if uids[k] == u {
            return true;
        }
        k += 1;
    }
    proof {
        assert(forall|m: int| 0 <= m < uids@.len() ==> uids@[m] != u);
    }
    false
}

/// Evaluate the owner policy; `resolved` is the owner that the caller looked
/// up for this packet's source port, or `None` when the lookup missed.
pub fn owner_policy_allows(uids: &Vec<u32>, packet: &Vec<u8>, resolved: Option<u32>) -> (r: bool)
    ensures
        r == spec_owner_policy(uids@, packet@, resolved),
{
    if uids.len() == 0 {
        return true;
    }
    match parse_transport(packet) {
        Option::None => true,
        Option::Some(_) => match resolved {
            Option::None => true,
            Option::Some(u) => uids_contain(uids, u),
        },
    }
}

/// The single filtering decision: a non-empty owner allowlist selects the
/// owner policy, else a non-empty domain allowlist selects the domain
/// policy, else everything passes.
pub open spec fn spec_is_allowed(
    domains: Seq<Seq<u8>>,
    uids: Seq<u32>,
    packet: Seq<u8>,
    resolved: Option<u32>,
) -> bool {
    if uids.len() > 0 {
        spec_owner_policy(uids, packet, resolved)
    } else if domains.len() > 0 {
        spec_domain_policy(domains, packet)
    } else {
        true
    }
}

/// Decide whether one packet passes the configured filters. With both
/// allowlists empty every input passes, malformed ones included.
pub fn is_allowed(cfg: &Config, packet: &Vec<u8>, resolved_uid: Option<u32>) -> (r: bool)
    ensures
        r == spec_is_allowed(
            cfg.allowed_domains.deep_view(),
            cfg.allowed_uids@,
            packet@,
            resolved_uid,
        ),
        cfg.allowed_uids@.len() == 0 && cfg.allowed_domains@.len() == 0 ==> r,
{
    if cfg.allowed_uids.len() > 0 {
        owner_policy_allows(&cfg.allowed_uids, packet, resolved_uid)
    } else if cfg.allowed_domains.len() > 0 {
        domain_policy_allows(&cfg.allowed_domains, packet)
    } else {
        true
    }
}

/// What a caller must look up to resolve a packet's owner: the transport
/// source port, and whether to consult the UDP table rather than the TCP one.
pub open spec fn spec_uid_lookup_key(b: Seq<u8>) -> Option<(u16, bool)> {
    match spec_transport(b) {
        Option::Some(t) => Option::Some((t.src_port, t.is_udp)),
        Option::None => Option::None,
    }
}

/// The (port, is-udp) pair to resolve this packet's owner by, if it has a
/// TCP/UDP header.
pub fn uid_lookup_key(packet: &Vec<u8>) -> (r: Option<(u16, bool)>)
    ensures
        r == spec_uid_lookup_key(packet@),
{
    match parse_transport(packet) {
        Option::Some(t) => Option::Some((t.src_port, t.is_udp)),
        Option::None => Option::None,
    }
}

/// Law: on a recognized Client-Hello the payload policy is exactly "some
/// allowed domain occurs in the bytes"; on anything else it always passes,
/// whatever the allowlist holds.
pub proof fn lemma_client_hello_heuristic(domains: Seq<Seq<u8>>, payload: Seq<u8>)
    ensures
        spec_is_client_hello(payload) ==> spec_payload_policy(domains, payload)
            == spec_matches_any_domain(domains, payload),
        !spec_is_client_hello(payload) ==> spec_payload_policy(domains, payload),
{
}

/// Law: with both allowlists empty, the filter passes every input.
pub proof fn lemma_open_mode_allows_all(packet: Seq<u8>, resolved: Option<u32>)
    ensures
        spec_is_allowed(Seq::empty(), Seq::empty(), packet, resolved),
{
}

} // verus!
