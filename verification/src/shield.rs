//! The passive shield: read, count, discard.
//!
//! The shield never forwards traffic. The embedding registers the device
//! descriptor for readiness polling and hands each read outcome in as a
//! `ReadEvent`; the decisions — how counters evolve and when the loop ends —
//! live here and are verified over the whole event sequence.

use vstd::prelude::*;
use crate::classify::{classify, spec_classify};
use crate::status::{CoreState, CoreStatus, Counters};

verus! {

/// Outcome of one non-blocking read of the device descriptor.
#[derive(Clone, Debug)]
pub enum ReadEvent {
    /// A read returned these bytes (one packet).
    Data(Vec<u8>),
    /// The read would block; keep polling.
    WouldBlock,
    /// End of stream.
    Eof,
    /// A read failed with anything other than would-block.
    ReadError,
}

/// Counters after one read outcome: data is classified and counted, the
/// other outcomes change nothing.
pub open spec fn spec_counters_after_event(c: Counters, e: ReadEvent) -> Counters {
    match e {
        ReadEvent::Data(v) => c.spec_after_packet(spec_classify(v@), v@.len() as u64),
        ReadEvent::WouldBlock => c,
        ReadEvent::Eof => c,
        ReadEvent::ReadError => c,
    }
}

/// An event ends the loop when it is end-of-stream or a fatal read error.
pub open spec fn spec_event_ends_loop(e: ReadEvent) -> bool {
    e is Eof || e is ReadError
}

/// Counters after a run of the shield over `events`: each data event is
/// counted in order until the first terminating event (or the end of the
/// sequence, which models external cancellation).
pub open spec fn spec_shield_counters(c: Counters, events: Seq<ReadEvent>) -> Counters
    decreases events.len(),
{
    if events.len() == 0 {
        c
    } else if spec_event_ends_loop(events[0]) {
        c
    } else {
        spec_shield_counters(spec_counters_after_event(c, events[0]), events.drop_first())
    }
}

/// Terminal status of a shield run: `Stopped` after any loop exit, `Error`
/// only when the descriptor could not be registered for polling at all.
pub open spec fn spec_shield_final_status(registered: bool) -> CoreStatus {
    if registered {
        CoreStatus::Stopped
    } else {
        CoreStatus::Error
    }
}

/// Counters at the end of a shield run; a failed registration counts
/// nothing.
pub open spec fn spec_shield_final_counters(
    c: Counters,
    registered: bool,
    events: Seq<ReadEvent>,
) -> Counters {
    if registered {
        spec_shield_counters(c, events)
    } else {
        c
    }
}

/// One step of the shield loop: account the event and say whether the loop
/// goes on. The status stays `Running`; ending the loop (and the final
/// status change) is the caller's move once this returns `false`.
pub fn shield_step(state: &mut CoreState, event: &ReadEvent) -> (cont: bool)
    requires
        old(state).status == CoreStatus::Running,
    ensures
        final(state).status == CoreStatus::Running,
        final(state).proxy_port == old(state).proxy_port,
        final(state).counters == spec_counters_after_event(old(state).counters, *event),
        cont == !spec_event_ends_loop(*event),
{
    match event {
        ReadEvent::Data(v) => {
            let tag = classify(v);
            let n = v.len();
            state.record_packet(tag, n as u64);
            true
        },
        ReadEvent::WouldBlock => true,
        ReadEvent::Eof => false,
        ReadEvent::ReadError => false,
    }
}

/// Drive a whole shield session over the read outcomes `events`.
///
/// Starts the session, degrades to `Error` when the descriptor could not be
/// registered, otherwise counts every packet up to the first terminating
/// event and ends `Stopped`. An exhausted event sequence models external
/// cancellation and also ends `Stopped`.
pub fn run_passive_shield(state: &mut CoreState, registered: bool, events: &Vec<ReadEvent>)
    requires
        old(state).status == CoreStatus::Stopped || old(state).status == CoreStatus::Starting,
    ensures
        final(state).proxy_port == old(state).proxy_port,
        final(state).status == spec_shield_final_status(registered),
        final(state).counters == spec_shield_final_counters(
            old(state).counters,
            registered,
            events@,
        ),
{
    state.set_status(CoreStatus::Starting);
    if !registered {
        state.set_status(CoreStatus::Error);
        return;
    }
    state.set_status(CoreStatus::Running);
    let ghost orig: Counters = state.counters;
    let ghost port: u16 = state.proxy_port;
    let mut idx: usize = 0;
    proof {
        assert(events@.skip(0) =~= events@);
    }
    loop
        invariant_except_break
            state.status == CoreStatus::Running,
            state.proxy_port == port,
            idx <= events@.len(),
            spec_shield_counters(orig, events@) == spec_shield_counters(
                state.counters,
                events@.skip(idx as int),
            ),
        ensures
            state.status == CoreStatus::Running,
            state.proxy_port == port,
            state.counters == spec_shield_counters(orig, events@),
        decreases events@.len() - idx,
    {
        if idx >= events.len() {
            proof {
                assert(events@.skip(idx as int) =~= Seq::<ReadEvent>::empty());
            }
            break;
        }
        let event = &events[idx];
        proof {
            assert(events@.skip(idx as int)[0] == events@[idx as int]);
            assert(events@.skip(idx as int).drop_first() =~= events@.skip(idx as int + 1));
        }
        let cont = shield_step(state, event);
        if !cont {
            break;
        }
        idx += 1;
    }
    state.set_status(CoreStatus::Stopped);
}

} // verus!
