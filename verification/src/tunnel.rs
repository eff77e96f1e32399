//! The tunnel loop: decide passive vs. active, walk the startup protocol,
//! and end the session in a terminal status.
//!
//! The outside work — binding a local port, spawning the tunnel client,
//! probing the local proxy, wrapping the device, awaiting the engine — is
//! performed by the embedding; its outcomes arrive here as plain values in a
//! `TunnelEnv`, and every decision over them is verified.

use vstd::prelude::*;
use crate::config::Config;
use crate::shield::{
    ReadEvent, run_passive_shield, spec_shield_final_counters, spec_shield_final_status,
};
use crate::status::{CoreState, CoreStatus, Counters, DEFAULT_PROXY_PORT};

verus! {

/// Most readiness probes one startup may spend before giving up.
pub const MAX_PROBE_ATTEMPTS: usize = 10;

/// Outcomes the embedding observed while it performed the outside work of
/// one session.
#[derive(Clone, Debug)]
pub struct TunnelEnv {
    /// Whether the descriptor could be registered for polling (passive path).
    pub shield_registered: bool,
    /// The ephemeral local port the bind yielded, if it succeeded.
    pub bound_port: Option<u16>,
    /// Outcome of each readiness probe against the local proxy, in order.
    pub probes: Vec<bool>,
    /// Whether the descriptor could be wrapped as a virtual network device.
    pub device_ok: bool,
}

/// The local proxy became ready: some probe within the attempt budget
/// succeeded.
pub open spec fn spec_probe_success(probes: Seq<bool>) -> bool {
    exists|i: int| 0 <= i < probes.len() && i < MAX_PROBE_ATTEMPTS && probes[i]
}

/// The proxy port of the session: the bound ephemeral port, or the default
/// when the bind failed.
pub open spec fn spec_effective_port(bound: Option<u16>) -> u16 {
    match bound {
        Option::Some(p) => p,
        Option::None => DEFAULT_PROXY_PORT,
    }
}

/// Terminal status of a whole tunnel session. An empty credential delegates
/// to the passive shield; otherwise a missed readiness or a failed device
/// wrap ends in `Error`, and a completed engine run ends in `Stopped`
/// whatever made the engine return.
pub open spec fn spec_tunnel_final_status(
    cred_empty: bool,
    registered: bool,
    probes: Seq<bool>,
    device_ok: bool,
) -> CoreStatus {
    if cred_empty {
        spec_shield_final_status(registered)
    } else if !spec_probe_success(probes) {
        CoreStatus::Error
    } else if !device_ok {
        CoreStatus::Error
    } else {
        CoreStatus::Stopped
    }
}

/// Counters at the end of a tunnel session: only the passive path counts
/// packets here; in the active path the engine owns the traffic.
pub open spec fn spec_tunnel_final_counters(
    cred_empty: bool,
    c: Counters,
    registered: bool,
    events: Seq<ReadEvent>,
) -> Counters {
    if cred_empty {
        spec_shield_final_counters(c, registered, events)
    } else {
        c
    }
}

/// First probe within the attempt budget that succeeded, if any.
pub fn probe_readiness(probes: &Vec<bool>) -> (ready: bool)
    ensures
        ready == spec_probe_success(probes@),
{
    let mut i: usize = 0;
    let bound = if probes.len() < MAX_PROBE_ATTEMPTS {
        probes.len()
    } else {
        MAX_PROBE_ATTEMPTS
    };
    while i < bound
        invariant
            bound <= probes@.len(),
            bound <= MAX_PROBE_ATTEMPTS,
            probes@.len() < MAX_PROBE_ATTEMPTS ==> bound == probes@.len(),
            probes@.len() >= MAX_PROBE_ATTEMPTS ==> bound == MAX_PROBE_ATTEMPTS,
            i <= bound,
            forall|k: int| 0 <= k < i ==> !probes@[k],
        decreases bound - i,
    {
        if probes[i] {
            return true;
        }
        i += 1;
    }
    false
}

/// The watchdog's one decision: cancel the engine as soon as the status was
/// forced back to `Stopped` from outside.
pub fn watchdog_should_cancel(state: &CoreState) -> (cancel: bool)
    ensures
        cancel == (state.status == CoreStatus::Stopped),
{
    match state.status {
        CoreStatus::Stopped => true,
        _ => false,
    }
}

/// Drive one whole tunnel session.
///
/// With an empty credential the session is exactly a passive-shield run over
/// `events`. Otherwise: the effective proxy port is stored, readiness is
/// judged over the probe outcomes, a missed readiness or failed device wrap
/// ends the startup in `Error`, and a completed engine run ends in
/// `Stopped`; the counters stay untouched on the active path.
pub fn run_tunnel_loop(
    state: &mut CoreState,
    cfg: &Config,
    env: &TunnelEnv,
    events: &Vec<ReadEvent>,
)
    requires
        old(state).status == CoreStatus::Stopped,
    ensures
        final(state).status == spec_tunnel_final_status(
            cfg.credential.spec_is_empty(),
            env.shield_registered,
            env.probes@,
            env.device_ok,
        ),
        final(state).counters == spec_tunnel_final_counters(
            cfg.credential.spec_is_empty(),
            old(state).counters,
            env.shield_registered,
            events@,
        ),
        cfg.credential.spec_is_empty() ==> final(state).proxy_port == old(state).proxy_port,
        !cfg.credential.spec_is_empty() ==> final(state).proxy_port == spec_effective_port(
            env.bound_port,
        ),
{
    state.set_status(CoreStatus::Starting);
    if cfg.credential.is_empty() {
        run_passive_shield(state, env.shield_registered, events);
        return;
    }
    let port = match env.bound_port {
        Option::Some(p) => p,
        Option::None => DEFAULT_PROXY_PORT,
    };
    state.set_proxy_port(port);
    if !probe_readiness(&env.probes) {
        state.set_status(CoreStatus::Error);
        return;
    }
    if !env.device_ok {
        state.set_status(CoreStatus::Error);
        return;
    }
    state.set_status(CoreStatus::Running);
    state.set_status(CoreStatus::Stopped);
}

/// Law: whatever the credential, the registration, the probe outcomes and
/// the device wrap, a finished session's status is terminal — `Stopped` or
/// `Error`, never `Starting` or `Running`.
pub proof fn lemma_session_ends_terminal(
    cred_empty: bool,
    registered: bool,
    probes: Seq<bool>,
    device_ok: bool,
)
    ensures
        spec_tunnel_final_status(cred_empty, registered, probes, device_ok)
            == CoreStatus::Stopped || spec_tunnel_final_status(
            cred_empty,
            registered,
            probes,
            device_ok,
        ) == CoreStatus::Error,
{
}

/// Law: with an empty credential a tunnel run is the passive shield run —
/// same terminal status and the same counter evolution over the same read
/// outcomes.
pub proof fn lemma_empty_credential_is_passive(
    c: Counters,
    registered: bool,
    probes: Seq<bool>,
    device_ok: bool,
    events: Seq<ReadEvent>,
)
    ensures
        spec_tunnel_final_counters(true, c, registered, events) == spec_shield_final_counters(
            c,
            registered,
            events,
        ),
        spec_tunnel_final_status(true, registered, probes, device_ok)
            == spec_shield_final_status(registered),
{
}

} // verus!
