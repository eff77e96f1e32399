//! Subnet host-discovery: the decisions of the /24 scanner.
//!
//! The embedding races the actual TCP connects and the mDNS query for every
//! host suffix and reports what answered; which hosts count as discovered,
//! and how they are labeled, is decided and verified here. Result order over
//! a live scan follows task completion and is not meaningful; the collected
//! form here lists suffixes in ascending order.

use vstd::prelude::*;

verus! {

/// What the probes of one host observed.
#[derive(Clone, Copy, PartialEq, Eq, Structural, Debug)]
pub struct ProbeOutcome {
    /// Some probed TCP port accepted a connection.
    pub tcp_success: bool,
    /// The mDNS query got any reply.
    pub mdns_reply: bool,
}

/// How a discovered host is labeled.
#[derive(Clone, Copy, PartialEq, Eq, Structural, Debug)]
pub enum HostLabel {
    /// Host suffix 1, assumed to be the gateway.
    Gateway,
    /// Any other host that answered on TCP.
    Active,
    /// A host that only answered the mDNS query.
    MdnsDevice,
}

/// One discovered host: its suffix within the /24 range and its label.
#[derive(Clone, Copy, PartialEq, Eq, Structural, Debug)]
pub struct ScanHost {
    pub suffix: u8,
    pub label: HostLabel,
}

/// Whether, and as what, one host counts as discovered: a TCP answer labels
/// it `Gateway` (suffix 1) or `Active`; failing that, an mDNS reply labels
/// it `MdnsDevice`; otherwise the host is not present.
pub open spec fn spec_host_discovery(suffix: u8, o: ProbeOutcome) -> Option<ScanHost> {
    if o.tcp_success {
        Option::Some(
            ScanHost {
                suffix,
                label: if suffix == 1 {
                    HostLabel::Gateway
                } else {
                    HostLabel::Active
                },
            },
        )
    } else if o.mdns_reply {
        Option::Some(ScanHost { suffix, label: HostLabel::MdnsDevice })
    } else {
        Option::None
    }
}

/// The discovered hosts over the outcomes for suffixes `first_suffix`,
/// `first_suffix + 1`, ...: only discoveries appear, in suffix order.
pub open spec fn spec_scan_from(outcomes: Seq<ProbeOutcome>, first_suffix: int) -> Seq<ScanHost>
    decreases outcomes.len(),
{
    if outcomes.len() == 0 {
        Seq::empty()
    } else {
        let rest = spec_scan_from(outcomes.drop_first(), first_suffix + 1);
        match spec_host_discovery(first_suffix as u8, outcomes[0]) {
            Option::Some(h) => seq![h] + rest,
            Option::None => rest,
        }
    }
}

/// The discovered hosts of a whole /24 scan; `outcomes[i]` belongs to host
/// suffix `i + 1`.
pub open spec fn spec_scan_results(outcomes: Seq<ProbeOutcome>) -> Seq<ScanHost> {
    spec_scan_from(outcomes, 1)
}

/// A network prefix with exactly one trailing dot, ready to take a host
/// suffix.
pub open spec fn spec_normalized_prefix(b: Seq<u8>) -> Seq<u8> {
    if b.len() > 0 && b.last() == 46 {
        b
    } else {
        b.push(46)
    }
}

/// Give the scanned network prefix a trailing dot unless it has one.
pub fn normalize_prefix(prefix: &Vec<u8>) -> (out: Vec<u8>)
    ensures
        out@ == spec_normalized_prefix(prefix@),
{
    let mut out: Vec<u8> = Vec::new();
    let mut i: usize = 0;
    proof {
        assert(out@ =~= prefix@.subrange(0, 0));
    }
    while i < prefix.len()
        invariant
            i <= prefix@.len(),
            out@ == prefix@.subrange(0, i as int),
        decreases prefix@.len() - i,
    {
        out.push(prefix[i]);
        i += 1;
        proof {
            assert(out@ =~= prefix@.subrange(0, i as int));
        }
    }
    proof {
        assert(out@ =~= prefix@);
    }
    if out.len() == 0 || out[out.len() - 1] != 46 {
        out.push(46);
    }
    out
}

/// Decide one host's discovery from its probe outcomes.
pub fn host_discovery(suffix: u8, outcome: &ProbeOutcome) -> (r: Option<ScanHost>)
    ensures
        r == spec_host_discovery(suffix, *outcome),
{
    if outcome.tcp_success {
        let label = if suffix == 1 {
            HostLabel::Gateway
        } else {
            HostLabel::Active
        };
        Option::Some(ScanHost { suffix, label })
    } else if outcome.mdns_reply {
        Option::Some(ScanHost { suffix, label: HostLabel::MdnsDevice })
    } else {
        Option::None
    }
}

/// Collect the discoveries of a whole /24 scan, one outcome per host suffix
/// 1 through 254.
pub fn collect_scan_results(outcomes: &Vec<ProbeOutcome>) -> (hosts: Vec<ScanHost>)
    requires
        outcomes@.len() == 254,
    ensures
        hosts@ == spec_scan_results(outcomes@),
{
    let mut hosts: Vec<ScanHost> = Vec::new();
    let mut i: usize = 0;
    proof {
        assert(outcomes@.skip(0) =~= outcomes@);
    }
    while i < 254
        invariant
            outcomes@.len() == 254,
            i <= 254,
            spec_scan_results(outcomes@) == hosts@ + spec_scan_from(
                outcomes@.skip(i as int),
                i + 1,
            ),
        decreases 254 - i,
    {
        proof {
            assert(outcomes@.skip(i as int)[0] == outcomes@[i as int]);
            assert(outcomes@.skip(i as int).drop_first() =~= outcomes@.skip(i as int + 1));
        }
        let suffix = (i + 1) as u8;
        let ghost prev: Seq<ScanHost> = hosts@;
        match host_discovery(suffix, &outcomes[i]) {
            Option::Some(h) => {
                hosts.push(h);
                proof {
                    let rest = spec_scan_from(outcomes@.skip(i as int + 1), i + 2);
                    assert(prev + (seq![h] + rest) =~= hosts@ + rest);
                }
            },
            Option::None => {},
        }
        i += 1;
    }
    proof {
        assert(spec_scan_from(outcomes@.skip(254), 255) =~= Seq::<ScanHost>::empty());
        assert(hosts@ =~= hosts@ + Seq::<ScanHost>::empty());
    }
    hosts
}

} // verus!
