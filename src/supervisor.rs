//! Lifecycle decisions of the supervisor that keeps one runner generation
//! alive for as long as its handle exists.
use vstd::prelude::*;

use crate::protocol::{JoinedLibraryCreateArgs, PeerAnswer, ResponseAction, RunnerModel};

verus! {

/// Number of requests the mailbox holds before a submitter has to wait.
pub const MAILBOX_CAPACITY: usize = 16;

/// How a generation's run loop ended.
#[derive(Clone, Copy, PartialEq, Eq, Structural, Debug)]
pub enum GenerationEnd {
    /// The loop returned after a stop message or a closed mailbox.
    Stopped,
    /// The loop terminated abnormally.
    Panicked,
}

/// What the supervisor does next.
#[derive(Clone, Copy, PartialEq, Eq, Structural, Debug)]
pub enum SupervisorAction {
    /// Start a new generation on the same runner state with a fresh seed.
    Respawn,
    /// Leave the supervision loop.
    Exit,
}

/// A crash is followed by a new generation; a graceful stop is final.
pub open spec fn next_step(end: GenerationEnd) -> SupervisorAction {
    match end {
        GenerationEnd::Stopped => SupervisorAction::Exit,
        GenerationEnd::Panicked => SupervisorAction::Respawn,
    }
}

/// Decides what follows the end of a generation.
pub fn after_generation(end: GenerationEnd) -> (a: SupervisorAction)
    ensures
        a == next_step(end),
{
    match end {
        GenerationEnd::Stopped => SupervisorAction::Exit,
        GenerationEnd::Panicked => SupervisorAction::Respawn,
    }
}

/// After a generation crashes, the supervisor respawns it over the same
/// runner state, and that state still takes a fresh join request and
/// fulfils it on the first member's acceptance.
pub proof fn lemma_respawned_generation_serves(
    m: RunnerModel,
    sync_group: u128,
    devices: Seq<u128>,
    authorizor_device: u128,
    library: JoinedLibraryCreateArgs,
)
    requires
        m.wf(),
        m.can_dispatch(devices.len() as int),
        devices.len() > 0,
    ensures
        next_step(GenerationEnd::Panicked) == SupervisorAction::Respawn,
        ({
            let m1 = m.after_join_request(sync_group, devices);
            let t = m.next_ticket;
            &&& m1.wf()
            &&& m1.dispatched.contains_key(t)
            &&& m1.dispatched[t].device == devices[0]
            &&& m1.answer_action(t, PeerAnswer::Accepted { authorizor_device, library })
                matches ResponseAction::Fulfil { request, .. } && request == m.next_request
        }),
{
    crate::protocol::lemma_transitions_keep_wf(m, 0, false, sync_group, 0, devices);
    let m1 = m.after_join_request(sync_group, devices);
    assert(m1.dispatched.contains_key(m.next_ticket));
    assert(!m.dispatched.contains_key(m.next_ticket));
}

} // verus!
