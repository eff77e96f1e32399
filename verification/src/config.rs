//! Shared configuration: tunnel credential, domain allowlist, owner
//! allowlist, bandwidth cap and stealth flag.
//!
//! Every setter fully replaces the prior value. The credential is an access
//! key whose bytes must not stay readable after replacement, so replacing it
//! first wipes the old value in place.

use vstd::prelude::*;
use vstd::string::StringSliceAdditionalSpecFns;
use crate::socktable::{spec_is_space, is_space};

verus! {

/// Comma-separated fields of `s` after the partial field `cur` and the
/// finished fields `acc`: the worker behind `spec_fields`.
pub open spec fn spec_fields_rec(s: Seq<u8>, cur: Seq<u8>, acc: Seq<Seq<u8>>) -> Seq<Seq<u8>>
    decreases s.len(),
{
    if s.len() == 0 {
        acc.push(cur)
    } else if s[0] == 44 {
        spec_fields_rec(s.drop_first(), Seq::empty(), acc.push(cur))
    } else {
        spec_fields_rec(s.drop_first(), cur.push(s[0]), acc)
    }
}

/// The comma-separated fields of `s`: one more field than commas, empties
/// included.
pub open spec fn spec_fields(s: Seq<u8>) -> Seq<Seq<u8>> {
    spec_fields_rec(s, Seq::empty(), Seq::empty())
}

/// `s` without its leading ASCII whitespace.
pub open spec fn spec_trim_front(s: Seq<u8>) -> Seq<u8>
    decreases s.len(),
{
    if s.len() > 0 && spec_is_space(s[0]) {
        spec_trim_front(s.drop_first())
    } else {
        s
    }
}

/// `s` without its trailing ASCII whitespace.
pub open spec fn spec_trim_back(s: Seq<u8>) -> Seq<u8>
    decreases s.len(),
{
    if s.len() > 0 && spec_is_space(s.last()) {
        spec_trim_back(s.drop_last())
    } else {
        s
    }
}

/// `s` without leading and trailing ASCII whitespace.
pub open spec fn spec_trim(s: Seq<u8>) -> Seq<u8> {
    spec_trim_back(spec_trim_front(s))
}

/// Trimming, as a value, for mapping over the fields.
pub open spec fn spec_trim_of() -> spec_fn(Seq<u8>) -> Seq<u8> {
    |f: Seq<u8>| spec_trim(f)
}

/// Non-emptiness, as a value, for filtering the fields.
pub open spec fn spec_nonempty() -> spec_fn(Seq<u8>) -> bool {
    |f: Seq<u8>| f.len() != 0
}

/// The domain list a comma-separated input yields: every field trimmed,
/// empty fields dropped, order kept.
pub open spec fn spec_domain_list(s: Seq<u8>) -> Seq<Seq<u8>> {
    spec_fields(s).map_values(spec_trim_of()).filter(spec_nonempty())
}

/// Finishing one raw field extends the cleaned list by its trimmed form
/// exactly when that form is non-empty.
proof fn lemma_clean_push(raw: Seq<Seq<u8>>, c: Seq<u8>)
    ensures
        raw.push(c).map_values(spec_trim_of()).filter(spec_nonempty()) == if spec_trim(c).len()
            != 0 {
            raw.map_values(spec_trim_of()).filter(spec_nonempty()).push(spec_trim(c))
        } else {
            raw.map_values(spec_trim_of()).filter(spec_nonempty())
        },
{
    let m = raw.map_values(spec_trim_of());
    let x = spec_trim(c);
    let p = spec_nonempty();
    assert(raw.push(c).map_values(spec_trim_of()) =~= m.push(x));
    assert(m.push(x).drop_last() =~= m);
    assert(m.push(x).last() == x);
    reveal_with_fuel(Seq::filter, 2);
    assert(m.push(x).filter(p) == (if p(m.push(x).last()) {
        m.push(x).drop_last().filter(p).push(m.push(x).last())
    } else {
        m.push(x).drop_last().filter(p)
    }));
    assert(p(x) == (x.len() != 0));
}

/// Trim ASCII whitespace from both ends of a byte string.
pub fn trim_bytes(v: &Vec<u8>) -> (out: Vec<u8>)
    ensures
        out@ == spec_trim(v@),
{
    let len = v.len();
    let mut start: usize = 0;
    proof {
        assert(v@.skip(0) =~= v@);
    }
    while start < len && is_space(v[start])
        invariant
            start <= len,
            len == v@.len(),
            spec_trim_front(v@) == spec_trim_front(v@.skip(start as int)),
        decreases len - start,
    {
        proof {
            assert(v@.skip(start as int)[0] == v@[start as int]);
            assert(v@.skip(start as int).drop_first() =~= v@.skip(start as int + 1));
        }
        start += 1;
    }
    proof {
        if start < len {
            assert(v@.skip(start as int)[0] == v@[start as int]);
        }
        assert(spec_trim_front(v@.skip(start as int)) == v@.skip(start as int));
        assert(v@.subrange(start as int, len as int) =~= v@.skip(start as int));
    }
    let mut end: usize = len;
    while end > start && is_space(v[end - 1])
        invariant
            start <= end <= len,
            len == v@.len(),
            spec_trim_back(v@.skip(start as int)) == spec_trim_back(
                v@.subrange(start as int, end as int),
            ),
        decreases end,
    {
        proof {
            let sub = v@.subrange(start as int, end as int);
            assert(sub.last() == v@[end - 1]);
            assert(sub.drop_last() =~= v@.subrange(start as int, end as int - 1));
        }
        end -= 1;
    }
    proof {
        let sub = v@.subrange(start as int, end as int);
        if end > start {
            assert(sub.last() == v@[end - 1]);
        }
        assert(spec_trim_back(sub) == sub);
    }
    let mut out: Vec<u8> = Vec::new();
    let mut i: usize = start;
    proof {
        assert(out@ =~= v@.subrange(start as int, start as int));
    }
    while i < end
        invariant
            start <= i <= end <= len,
            len == v@.len(),
            out@ == v@.subrange(start as int, i as int),
        decreases end - i,
    {
        out.push(v[i]);
        i += 1;
        proof {
            assert(out@ =~= v@.subrange(start as int, i as int));
        }
    }
    out
}

/// An opaque tunnel access key. The string is wiped (overwritten, then
/// emptied) whenever it is replaced, so a discarded key does not linger in
/// reused memory.
#[derive(Clone, Debug)]
pub struct SecureKey {
    pub key: String,
}

/// Relies on zeroize's `Zeroize` impl for `String`: it overwrites the bytes
/// of the string in place and then clears it, leaving an empty string.
#[verifier::external_body]
fn wipe_string(s: &mut String)
    ensures
        final(s)@ == Seq::<char>::empty(),
{
    zeroize::Zeroize::zeroize(s);
}

impl SecureKey {
    /// True when no access key is configured.
    pub open spec fn spec_is_empty(self) -> bool {
        self.key@.len() == 0
    }

    pub fn new() -> (k: SecureKey)
        ensures
            k.spec_is_empty(),
    {
        SecureKey { key: String::new() }
    }

    pub fn is_empty(&self) -> (r: bool)
        ensures
            r == self.spec_is_empty(),
    {
        self.key.as_str().is_empty()
    }

    /// Wipe the key in place: the old bytes are overwritten and the string
    /// is left empty.
    pub fn zeroize(&mut self)
        ensures
            final(self).spec_is_empty(),
    {
        wipe_string(&mut self.key);
    }
}

impl Default for SecureKey {
    fn default() -> (k: SecureKey)
        ensures
            k.spec_is_empty(),
    {
        SecureKey { key: String::new() }
    }
}

/// The caller-mutable configuration. The loops read it; a host-facing caller
/// may replace any field at any time.
#[derive(Clone, Debug)]
pub struct Config {
    /// Tunnel access key; empty means "no tunnel, passive shield only".
    pub credential: SecureKey,
    /// Domain allowlist as byte strings; empty means no domain restriction.
    pub allowed_domains: Vec<Vec<u8>>,
    /// Process-owner allowlist; empty means no owner restriction.
    pub allowed_uids: Vec<u32>,
    /// Declared bytes-per-second ceiling; stored, never enforced.
    pub bandwidth_limit: u64,
    /// Stealth flag; stored for the caller, not read by the loops.
    pub stealth: bool,
}

/// Bytes per second of one declared megabit-per-second step times eight,
/// i.e. 1024 * 1024 / 8.
pub const BYTES_PER_SEC_PER_MBPS: u64 = 131072;

impl Config {
    /// No restrictions, no credential, no cap.
    pub open spec fn spec_is_initial(self) -> bool {
        &&& self.credential.spec_is_empty()
        &&& self.allowed_domains@.len() == 0
        &&& self.allowed_uids@.len() == 0
        &&& self.bandwidth_limit == 0
        &&& self.stealth == false
    }

    pub fn new() -> (c: Config)
        ensures
            c.spec_is_initial(),
    {
        Config {
            credential: SecureKey::new(),
            allowed_domains: Vec::new(),
            allowed_uids: Vec::new(),
            bandwidth_limit: 0,
            stealth: false,
        }
    }

    /// Replace the credential; the discarded key is wiped first.
    pub fn set_credential(&mut self, key: String)
        ensures
            final(self).credential.key == key,
            final(self).allowed_domains == old(self).allowed_domains,
            final(self).allowed_uids == old(self).allowed_uids,
            final(self).bandwidth_limit == old(self).bandwidth_limit,
            final(self).stealth == old(self).stealth,
    {
        self.credential.zeroize();
        self.credential.key = key;
    }

    /// Replace the domain allowlist with the fields of a comma-separated
    /// input: each field is trimmed and empty fields are dropped.
    pub fn set_allowed_domains(&mut self, list: &str)
        ensures
            final(self).allowed_domains.deep_view() == spec_domain_list(list.spec_bytes()),
            final(self).credential == old(self).credential,
            final(self).allowed_uids == old(self).allowed_uids,
            final(self).bandwidth_limit == old(self).bandwidth_limit,
            final(self).stealth == old(self).stealth,
    {
        let bytes = list.as_bytes_vec();
        let len = bytes.len();
        let mut out: Vec<Vec<u8>> = Vec::new();
        let mut cur: Vec<u8> = Vec::new();
        let ghost mut raw: Seq<Seq<u8>> = Seq::empty();
        let mut i: usize = 0;
        proof {
            assert(bytes@.skip(0) =~= bytes@);
            assert(cur@ =~= Seq::<u8>::empty());
            assert(raw.map_values(spec_trim_of()) =~= Seq::<Seq<u8>>::empty());
            assert(out.deep_view() =~~= Seq::<Seq<u8>>::empty().filter(spec_nonempty()));
        }
        while i < len
            invariant
                i <= len,
                len == bytes@.len(),
                spec_fields(bytes@) == spec_fields_rec(bytes@.skip(i as int), cur@, raw),
                out.deep_view() == raw.map_values(spec_trim_of()).filter(spec_nonempty()),
            decreases len - i,
        {
            proof {
                assert(bytes@.skip(i as int)[0] == bytes@[i as int]);
                assert(bytes@.skip(i as int).drop_first() =~= bytes@.skip(i as int + 1));
            }
            let b = bytes[i];
            if b == 44 {
                let t = trim_bytes(&cur);
                proof {
                    lemma_clean_push(raw, cur@);
                }
                if t.len() > 0 {
                    let ghost prev = out.deep_view();
                    out.push(t);
                    proof {
                        assert(out.deep_view() =~~= prev.push(t@));
                    }
                }
                proof {
                    raw = raw.push(cur@);
                }
                cur = Vec::new();
                proof {
                    assert(cur@ =~= Seq::<u8>::empty());
                }
            } else {
                cur.push(b);
            }
            i += 1;
        }
        proof {
            assert(bytes@.skip(len as int) =~= Seq::<u8>::empty());
            lemma_clean_push(raw, cur@);
        }
        let t = trim_bytes(&cur);
        if t.len() > 0 {
            let ghost prev = out.deep_view();
            out.push(t);
            proof {
                assert(out.deep_view() =~~= prev.push(t@));
            }
        }
        self.allowed_domains = out;
    }

    /// Replace the owner allowlist.
    pub fn set_allowed_uids(&mut self, uids: Vec<u32>)
        ensures
            final(self).allowed_uids == uids,
            final(self).credential == old(self).credential,
            final(self).allowed_domains == old(self).allowed_domains,
            final(self).bandwidth_limit == old(self).bandwidth_limit,
            final(self).stealth == old(self).stealth,
    {
        self.allowed_uids = uids;
    }

    /// Store the declared cap, converted from whole Mbps to bytes per
    /// second. The cap is configuration only: no loop enforces it.
    pub fn set_bandwidth_limit_mbps(&mut self, mbps: u32)
        ensures
            final(self).bandwidth_limit == mbps * BYTES_PER_SEC_PER_MBPS,
            final(self).credential == old(self).credential,
            final(self).allowed_domains == old(self).allowed_domains,
            final(self).allowed_uids == old(self).allowed_uids,
            final(self).stealth == old(self).stealth,
    {
        self.bandwidth_limit = (mbps as u64) * BYTES_PER_SEC_PER_MBPS;
    }

    /// Replace the stealth flag.
    pub fn set_stealth(&mut self, enabled: bool)
        ensures
            final(self).stealth == enabled,
            final(self).credential == old(self).credential,
            final(self).allowed_domains == old(self).allowed_domains,
            final(self).allowed_uids == old(self).allowed_uids,
            final(self).bandwidth_limit == old(self).bandwidth_limit,
    {
        self.stealth = enabled;
    }
}

} // verus!
