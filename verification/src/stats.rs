//! Latency / jitter report over three connect samples.
//!
//! The embedding performs exactly three sequential timed connect attempts
//! and records elapsed milliseconds per success, or -1 per failure; the
//! report over those samples is computed and verified here.

use vstd::prelude::*;
use vstd::string::StringSliceAdditionalSpecFns;

verus! {

/// The measurement result: mean latency, jitter, and a status text — the
/// target identifier on success, "unreachable" otherwise.
#[derive(Clone, Debug)]
pub struct StatsReport {
    pub ping: i64,
    pub jitter: i64,
    pub status: String,
}

/// Some of the three attempts failed.
pub open spec fn spec_any_failed(a: i64, b: i64, c: i64) -> bool {
    a == -1 || b == -1 || c == -1
}

pub open spec fn spec_max3(a: int, b: int, c: int) -> int {
    if a >= b && a >= c {
        a
    } else if b >= c {
        b
    } else {
        c
    }
}

pub open spec fn spec_min3(a: int, b: int, c: int) -> int {
    if a <= b && a <= c {
        a
    } else if b <= c {
        b
    } else {
        c
    }
}

/// Build the report over the three samples.
///
/// Any failed attempt makes the whole target unreachable: ping -1, jitter 0.
/// Otherwise ping is the integer mean of the three samples, jitter the
/// spread between the slowest and the fastest, and the status carries the
/// target identifier.
pub fn stats_from_samples(target: &str, a: i64, b: i64, c: i64) -> (r: StatsReport)
    requires
        a >= -1,
        b >= -1,
        c >= -1,
    ensures
        spec_any_failed(a, b, c) ==> r.ping == -1 && r.jitter == 0 && r.status@
            == "unreachable"@,
        !spec_any_failed(a, b, c) ==> r.ping == (a + b + c) / 3 && r.jitter == spec_max3(
            a as int,
            b as int,
            c as int,
        ) - spec_min3(a as int, b as int, c as int) && r.status@ == target@,
{
    if a == -1 || b == -1 || c == -1 {
        StatsReport { ping: -1, jitter: 0, status: String::from_str("unreachable") }
    } else {
        let sum: i128 = a as i128 + b as i128 + c as i128;
        assert(0 <= sum / 3 <= i64::MAX) by {
            assert(sum <= 3 * (i64::MAX as i128));
        }
        let ping = (sum / 3) as i64;
        let mut hi = a;
        let mut lo = a;
        if b > hi {
            hi = b;
        }
        if c > hi {
            hi = c;
        }
        if b < lo {
            lo = b;
        }
        if c < lo {
            lo = c;
        }
        StatsReport { ping, jitter: hi - lo, status: target.to_owned() }
    }
}

/// Bytes of the connect address for a measurement target: the target itself
/// when it already names a port, else the target with the default port 80
/// appended.
pub open spec fn spec_with_default_port(b: Seq<u8>) -> Seq<u8> {
    if b.contains(58) {
        b
    } else {
        b + seq![58u8, 56u8, 48u8]
    }
}

/// Append ":80" to a target address unless it already contains a colon.
pub fn address_with_default_port(target: &str) -> (addr: Vec<u8>)
    ensures
        addr@ == spec_with_default_port(target.spec_bytes()),
{
    let mut bytes = target.as_bytes_vec();
    let mut i: usize = 0;
    let mut has_colon = false;
    while i < bytes.len()
        invariant
            i <= bytes@.len(),
            has_colon ==> bytes@.contains(58),
            !has_colon ==> forall|k: int| 0 <= k < i ==> bytes@[k] != 58,
        decreases bytes@.len() - i,
    {
        if bytes[i] == 58 {
            has_colon = true;
        }
        i += 1;
    }
    if has_colon {
        bytes
    } else {
        proof {
            assert(!bytes@.contains(58));
        }
        bytes.push(58);
        bytes.push(56);
        bytes.push(48);
        proof {
            assert(bytes@ =~= target.spec_bytes() + seq![58u8, 56u8, 48u8]);
        }
        bytes
    }
}

} // verus!
