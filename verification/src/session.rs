//! The update session as an explicit state machine: allocate a snapshot
//! path, materialize the snapshot, run the requested command inside it, and
//! only when every step so far has succeeded, promote the snapshot to be the
//! new root. A failed step ends the session with the snapshot un-promoted
//! and the live root unchanged.

use vstd::prelude::*;

verus! {

/// The phase an update session is in. The session starts in `Allocating` and
/// moves one phase forward for every step that succeeds.
#[derive(Clone, Copy, PartialEq, Eq, Structural, Debug)]
pub enum UpdatePhase {
    /// Reserving the path for the new snapshot.
    Allocating,
    /// Materializing the snapshot of the live root at the reserved path.
    CreatingSnapshot,
    /// Running the requested command inside the snapshot.
    RunningCommand,
    /// Swapping the snapshot to be the new root.
    Promoting,
    /// The session is over: the snapshot was promoted.
    Promoted,
    /// The session is over: a step failed, the snapshot was not promoted and
    /// the live root is unchanged. The snapshot is left in place for
    /// inspection.
    Failed,
}

/// The phase that follows `phase` when its step succeeds or fails. The two
/// final phases absorb every further event.
pub open spec fn next_phase(phase: UpdatePhase, success: bool) -> UpdatePhase {
    match phase {
        UpdatePhase::Allocating => if success {
            UpdatePhase::CreatingSnapshot
        } else {
            UpdatePhase::Failed
        },
        UpdatePhase::CreatingSnapshot => if success {
            UpdatePhase::RunningCommand
        } else {
            UpdatePhase::Failed
        },
        UpdatePhase::RunningCommand => if success {
            UpdatePhase::Promoting
        } else {
            UpdatePhase::Failed
        },
        UpdatePhase::Promoting => if success {
            UpdatePhase::Promoted
        } else {
            UpdatePhase::Failed
        },
        UpdatePhase::Promoted => UpdatePhase::Promoted,
        UpdatePhase::Failed => UpdatePhase::Failed,
    }
}

/// Advance the session by one step's outcome.
pub fn advance(phase: UpdatePhase, success: bool) -> (r: UpdatePhase)
    ensures
        r == next_phase(phase, success),
{
    match phase {
        UpdatePhase::Allocating => if success {
            UpdatePhase::CreatingSnapshot
        } else {
            UpdatePhase::Failed
        },
        UpdatePhase::CreatingSnapshot => if success {
            UpdatePhase::RunningCommand
        } else {
            UpdatePhase::Failed
        },
        UpdatePhase::RunningCommand => if success {
            UpdatePhase::Promoting
        } else {
            UpdatePhase::Failed
        },
        UpdatePhase::Promoting => if success {
            UpdatePhase::Promoted
        } else {
            UpdatePhase::Failed
        },
        UpdatePhase::Promoted => UpdatePhase::Promoted,
        UpdatePhase::Failed => UpdatePhase::Failed,
    }
}

/// The phase a session that saw the step outcomes `events`, oldest first, has
/// reached.
pub open spec fn phase_after(events: Seq<bool>) -> UpdatePhase
    decreases events.len(),
{
    if events.len() == 0 {
        UpdatePhase::Allocating
    } else {
        next_phase(phase_after(events.drop_last()), events.last())
    }
}

/// A failed session stays failed, whatever comes later.
pub proof fn lemma_failed_is_final(events: Seq<bool>, i: int)
    requires
        0 <= i <= events.len(),
        phase_after(events.take(i)) == UpdatePhase::Failed,
    ensures
        phase_after(events) == UpdatePhase::Failed,
    decreases events.len() - i,
{
    if i < events.len() {
        assert(events.take(i + 1).drop_last() =~= events.take(i));
        lemma_failed_is_final(events, i + 1);
    } else {
        assert(events.take(i) =~= events);
    }
}

/// A sandbox command that exits nonzero prevents promotion: when the step
/// that runs the command inside the snapshot fails, the session never
/// reaches the promotion phase — the snapshot remains un-promoted and the
/// live root is unchanged.
pub proof fn lemma_failed_command_prevents_promotion(events: Seq<bool>, i: int)
    requires
        0 <= i < events.len(),
        phase_after(events.take(i)) == UpdatePhase::RunningCommand,
        !events[i],
    ensures
        phase_after(events) == UpdatePhase::Failed,
        phase_after(events) != UpdatePhase::Promoting,
        phase_after(events) != UpdatePhase::Promoted,
{
    assert(events.take(i + 1).drop_last() =~= events.take(i));
    assert(events.take(i + 1).last() == events[i]);
    lemma_failed_is_final(events, i + 1);
}

/// A session is promoted exactly when it saw at least four step outcomes and
/// the first four — allocation, snapshot creation, the sandboxed command,
/// and the promotion itself — all succeeded; and each intermediate phase is
/// reached exactly when every step so far has succeeded.
pub proof fn lemma_promoted_iff_all_steps_succeeded(events: Seq<bool>)
    ensures
        phase_after(events) == UpdatePhase::Allocating <==> events.len() == 0,
        phase_after(events) == UpdatePhase::CreatingSnapshot <==> (events.len() == 1 && events[0]),
        phase_after(events) == UpdatePhase::RunningCommand <==> (events.len() == 2 && events[0]
            && events[1]),
        phase_after(events) == UpdatePhase::Promoting <==> (events.len() == 3 && events[0]
            && events[1] && events[2]),
        phase_after(events) == UpdatePhase::Promoted <==> (events.len() >= 4 && events[0]
            && events[1] && events[2] && events[3]),
    decreases events.len(),
{
    if events.len() > 0 {
        lemma_promoted_iff_all_steps_succeeded(events.drop_last());
        assert(forall|k: int| 0 <= k < events.len() - 1 ==> events.drop_last()[k] == events[k]);
    }
}

} // verus!
