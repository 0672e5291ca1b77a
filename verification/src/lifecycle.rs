//! The order of steps in which an index is opened for reading or rebuilt for
//! writing.
//!
//! The steps themselves touch the disk, so the caller performs them. What is
//! decided here is which step comes next: the caller begins with [`begin`],
//! performs the action it is given, reports what happened with [`advance`],
//! and goes on until it is told to hand the index over or to give up.
//!
//! Reading opens what is there and fails where nothing valid is. Rebuilding
//! never merges: whatever the path holds is removed, a fresh directory is
//! made and an empty index created in it. Either way the tokenizer is
//! registered on the handle before it is handed over.

use crate::error::IndexFailure;
use vstd::prelude::*;

verus! {

/// What an index is opened for.
#[derive(Clone, Copy, Debug, PartialEq, Eq, Structural)]
pub enum OpenMode {
    /// Queries: the index has to exist.
    ReadOnly,
    /// Indexing: the index is made anew.
    Rebuild,
}

/// Where the opening of an index stands: the step whose outcome is awaited,
/// or how it ended.
#[derive(Clone, Copy, Debug, PartialEq, Eq, Structural)]
pub enum Phase {
    /// Asked whether the path holds anything.
    Probing,
    /// Removing what the path holds.
    Wiping,
    /// Making the directory.
    MakingDir,
    /// Creating the empty index.
    Creating,
    /// Opening the index that is there.
    Opening,
    /// Registering the tokenizer on the handle.
    Registering,
    /// The index has been handed over.
    Ready,
    /// Given up.
    Failed(IndexFailure),
}

/// A step for the caller to perform.
#[derive(Clone, Copy, Debug, PartialEq, Eq, Structural)]
pub enum IndexAction {
    /// Find out whether the path holds anything.
    ProbePath,
    /// Remove the path and all below it.
    RemoveDir,
    /// Make the directory, with its parents.
    CreateDir,
    /// Create an empty index under the schema in the directory.
    CreateIndex,
    /// Open the index in the directory.
    OpenIndex,
    /// Register the tokenizer on the handle.
    RegisterTokenizer,
    /// Hand the index over: it is ready.
    HandOver,
    /// Stop: the index cannot be had.
    GiveUp(IndexFailure),
}

/// What the caller reports of the step it performed.
#[derive(Clone, Copy, Debug, PartialEq, Eq, Structural)]
pub enum IndexEvent {
    /// The path holds something.
    PathPresent,
    /// The path holds nothing.
    PathAbsent,
    /// The step succeeded.
    Done,
    /// The step failed.
    Failed,
}

/// The phase entered and the action to perform in it.
#[derive(Clone, Copy, Debug, PartialEq, Eq, Structural)]
pub struct Step {
    pub phase: Phase,
    pub action: IndexAction,
}

/// Giving up for a reason.
pub open spec fn give_up(failure: IndexFailure) -> Step {
    Step { phase: Phase::Failed(failure), action: IndexAction::GiveUp(failure) }
}

/// The first step.
pub open spec fn first_step(mode: OpenMode) -> Step {
    match mode {
        OpenMode::ReadOnly => Step { phase: Phase::Opening, action: IndexAction::OpenIndex },
        OpenMode::Rebuild => Step { phase: Phase::Probing, action: IndexAction::ProbePath },
    }
}

/// The step that follows an event. A phase that its mode never enters, and
/// an event that does not answer the step awaited, end the opening: a
/// failed opening is a missing index, every other failure one of the
/// directory.
pub open spec fn next_step(mode: OpenMode, phase: Phase, event: IndexEvent) -> Step {
    match (mode, phase, event) {
        (_, Phase::Ready, _) => Step { phase: Phase::Ready, action: IndexAction::HandOver },
        (_, Phase::Failed(failure), _) => give_up(failure),
        (_, Phase::Registering, IndexEvent::Done) => Step {
            phase: Phase::Ready,
            action: IndexAction::HandOver,
        },
        (OpenMode::ReadOnly, Phase::Opening, IndexEvent::Done) => Step {
            phase: Phase::Registering,
            action: IndexAction::RegisterTokenizer,
        },
        (OpenMode::ReadOnly, Phase::Opening, _) => give_up(IndexFailure::NotFound),
        (OpenMode::Rebuild, Phase::Probing, IndexEvent::PathPresent) => Step {
            phase: Phase::Wiping,
            action: IndexAction::RemoveDir,
        },
        (OpenMode::Rebuild, Phase::Probing, IndexEvent::PathAbsent) => Step {
            phase: Phase::MakingDir,
            action: IndexAction::CreateDir,
        },
        (OpenMode::Rebuild, Phase::Wiping, IndexEvent::Done) => Step {
            phase: Phase::MakingDir,
            action: IndexAction::CreateDir,
        },
        (OpenMode::Rebuild, Phase::MakingDir, IndexEvent::Done) => Step {
            phase: Phase::Creating,
            action: IndexAction::CreateIndex,
        },
        (OpenMode::Rebuild, Phase::Creating, IndexEvent::Done) => Step {
            phase: Phase::Registering,
            action: IndexAction::RegisterTokenizer,
        },
        _ => give_up(IndexFailure::Io),
    }
}

/// The phase reached after a run of events.
pub open spec fn phase_after(mode: OpenMode, events: Seq<IndexEvent>) -> Phase
    decreases events.len(),
{
    if events.len() == 0 {
        first_step(mode).phase
    } else {
        next_step(mode, phase_after(mode, events.drop_last()), events.last()).phase
    }
}

/// The actions that the caller was given over a run of events: the first
/// step's, then one for each event.
pub open spec fn trail(mode: OpenMode, events: Seq<IndexEvent>) -> Seq<IndexAction>
    decreases events.len(),
{
    if events.len() == 0 {
        seq![first_step(mode).action]
    } else {
        trail(mode, events.drop_last()).push(
            next_step(mode, phase_after(mode, events.drop_last()), events.last()).action,
        )
    }
}

/// An action that changes what is on disk.
pub open spec fn destructive(action: IndexAction) -> bool {
    action == IndexAction::RemoveDir || action == IndexAction::CreateDir || action
        == IndexAction::CreateIndex
}

/// The first step of opening an index.
pub fn begin(mode: OpenMode) -> (step: Step)
    ensures
        step == first_step(mode),
{
    match mode {
        OpenMode::ReadOnly => Step { phase: Phase::Opening, action: IndexAction::OpenIndex },
        OpenMode::Rebuild => Step { phase: Phase::Probing, action: IndexAction::ProbePath },
    }
}

/// The step that follows what the caller reports of the last one.
pub fn advance(mode: OpenMode, phase: Phase, event: IndexEvent) -> (step: Step)
    ensures
        step == next_step(mode, phase, event),
{
    let io = Step {
        phase: Phase::Failed(IndexFailure::Io),
        action: IndexAction::GiveUp(IndexFailure::Io),
    };
    match phase {
        Phase::Ready => Step { phase: Phase::Ready, action: IndexAction::HandOver },
        Phase::Failed(failure) => Step {
            phase: Phase::Failed(failure),
            action: IndexAction::GiveUp(failure),
        },
        Phase::Registering => match event {
            IndexEvent::Done => Step { phase: Phase::Ready, action: IndexAction::HandOver },
            _ => io,
        },
        Phase::Opening => match (mode, event) {
            (OpenMode::ReadOnly, IndexEvent::Done) => Step {
                phase: Phase::Registering,
                action: IndexAction::RegisterTokenizer,
            },
            (OpenMode::ReadOnly, _) => Step {
                phase: Phase::Failed(IndexFailure::NotFound),
                action: IndexAction::GiveUp(IndexFailure::NotFound),
            },
            _ => io,
        },
        Phase::Probing => match (mode, event) {
            (OpenMode::Rebuild, IndexEvent::PathPresent) => Step {
                phase: Phase::Wiping,
                action: IndexAction::RemoveDir,
            },
            (OpenMode::Rebuild, IndexEvent::PathAbsent) => Step {
                phase: Phase::MakingDir,
                action: IndexAction::CreateDir,
            },
            _ => io,
        },
        Phase::Wiping => match (mode, event) {
            (OpenMode::Rebuild, IndexEvent::Done) => Step {
                phase: Phase::MakingDir,
                action: IndexAction::CreateDir,
            },
            _ => io,
        },
        Phase::MakingDir => match (mode, event) {
            (OpenMode::Rebuild, IndexEvent::Done) => Step {
                phase: Phase::Creating,
                action: IndexAction::CreateIndex,
            },
            _ => io,
        },
        Phase::Creating => match (mode, event) {
            (OpenMode::Rebuild, IndexEvent::Done) => Step {
                phase: Phase::Registering,
                action: IndexAction::RegisterTokenizer,
            },
            _ => io,
        },
    }
}

/// Whether the opening has ended, with the index or without.
pub fn finished(phase: Phase) -> (over: bool)
    ensures
        over == (phase == Phase::Ready || phase is Failed),
{
    match phase {
        Phase::Ready => true,
        Phase::Failed(_) => true,
        _ => false,
    }
}

/// Reading never changes what is on disk, whatever is reported.
pub proof fn lemma_reading_destroys_nothing(events: Seq<IndexEvent>, at: int)
    requires
        0 <= at <= events.len(),
    ensures
        trail(OpenMode::ReadOnly, events).len() == events.len() + 1,
        !destructive(trail(OpenMode::ReadOnly, events)[at]),
        trail(OpenMode::ReadOnly, events)[at] != IndexAction::ProbePath,
    decreases events.len(),
{
    if events.len() > 0 {
        lemma_reading_destroys_nothing(events.drop_last(), if at < events.len() { at } else { 0 });
    }
}

/// Rebuilding never opens what was there.
pub proof fn lemma_rebuilding_opens_nothing(events: Seq<IndexEvent>, at: int)
    requires
        0 <= at <= events.len(),
    ensures
        trail(OpenMode::Rebuild, events).len() == events.len() + 1,
        trail(OpenMode::Rebuild, events)[at] != IndexAction::OpenIndex,
    decreases events.len(),
{
    if events.len() > 0 {
        lemma_rebuilding_opens_nothing(events.drop_last(), if at < events.len() { at } else { 0 });
    }
}

/// An index is handed over only with the tokenizer registered on it: the
/// hand-over is reached from a registration that succeeded and from nowhere
/// else, and the registration from an opening or a creation that succeeded.
pub proof fn lemma_handed_over_with_tokenizer(mode: OpenMode, phase: Phase, event: IndexEvent)
    ensures
        next_step(mode, phase, event).phase == Phase::Ready ==> phase == Phase::Ready || (phase
            == Phase::Registering && event == IndexEvent::Done),
        next_step(mode, phase, event).action == IndexAction::HandOver <==> next_step(
            mode,
            phase,
            event,
        ).phase == Phase::Ready,
        next_step(mode, phase, event).phase == Phase::Registering ==> event == IndexEvent::Done
            && (phase == Phase::Opening || phase == Phase::Creating),
        first_step(mode).phase != Phase::Ready,
        first_step(mode).phase != Phase::Registering,
{
}

/// A rebuild starts from nothing: the index is created only in a directory
/// just made, and the directory is made only once the path is known to hold
/// nothing, because nothing was there or because what was there has been
/// removed.
pub proof fn lemma_rebuild_starts_from_nothing(mode: OpenMode, phase: Phase, event: IndexEvent)
    ensures
        next_step(mode, phase, event).action == IndexAction::CreateIndex ==> mode
            == OpenMode::Rebuild && phase == Phase::MakingDir && event == IndexEvent::Done,
        next_step(mode, phase, event).action == IndexAction::CreateDir ==> mode
            == OpenMode::Rebuild && ((phase == Phase::Probing && event == IndexEvent::PathAbsent)
            || (phase == Phase::Wiping && event == IndexEvent::Done)),
        next_step(mode, phase, event).action == IndexAction::RemoveDir ==> mode
            == OpenMode::Rebuild && phase == Phase::Probing && event == IndexEvent::PathPresent,
{
}

/// Ready and failed are final: no event leads out of them.
pub proof fn lemma_final_phases_stay(mode: OpenMode, phase: Phase, event: IndexEvent)
    requires
        phase == Phase::Ready || phase is Failed,
    ensures
        next_step(mode, phase, event).phase == phase,
{
}

/// The run of actions has one more item than the run of events.
pub proof fn lemma_trail_len(mode: OpenMode, events: Seq<IndexEvent>)
    ensures
        trail(mode, events).len() == events.len() + 1,
    decreases events.len(),
{
    if events.len() > 0 {
        lemma_trail_len(mode, events.drop_last());
    }
}

/// What has happened stays so: the actions given over the first events of a
/// run are the first actions of the whole run, and a phase that is final
/// after them is the phase at the end.
pub proof fn lemma_prefix(mode: OpenMode, events: Seq<IndexEvent>, first: int)
    requires
        0 <= first <= events.len(),
    ensures
        trail(mode, events).take(first + 1) == trail(mode, events.take(first)),
        phase_after(mode, events.take(first)) == Phase::Ready || phase_after(
            mode,
            events.take(first),
        ) is Failed ==> phase_after(mode, events) == phase_after(mode, events.take(first)),
    decreases events.len(),
{
    lemma_trail_len(mode, events);
    if first == events.len() {
        assert(events.take(first) =~= events);
    } else {
        let shorter = events.drop_last();
        lemma_prefix(mode, shorter, first);
        lemma_trail_len(mode, shorter);
        assert(shorter.take(first) =~= events.take(first));
    }
}

/// One more event of a run: the phase and the actions after the first events
/// and the next one, from those after the first events.
proof fn lemma_one_more(mode: OpenMode, events: Seq<IndexEvent>, first: int)
    requires
        0 <= first < events.len(),
    ensures
        phase_after(mode, events.take(first + 1)) == next_step(
            mode,
            phase_after(mode, events.take(first)),
            events[first],
        ).phase,
        trail(mode, events.take(first + 1)) == trail(mode, events.take(first)).push(
            next_step(mode, phase_after(mode, events.take(first)), events[first]).action,
        ),
{
    assert(events.take(first + 1).drop_last() =~= events.take(first));
}

/// A rebuild that hands an index over has created it afresh, whatever the
/// path held before: the run of actions is the same after every earlier
/// state of the path, but for the removal that comes first where something
/// was there.
pub proof fn lemma_rebuild_is_unconditional(events: Seq<IndexEvent>)
    requires
        phase_after(OpenMode::Rebuild, events) == Phase::Ready,
    ensures
        events.len() >= 4,
        events[0] == IndexEvent::PathPresent || events[0] == IndexEvent::PathAbsent,
        events[0] == IndexEvent::PathPresent ==> events.len() >= 5 && trail(
            OpenMode::Rebuild,
            events,
        ).take(6) == seq![
            IndexAction::ProbePath,
            IndexAction::RemoveDir,
            IndexAction::CreateDir,
            IndexAction::CreateIndex,
            IndexAction::RegisterTokenizer,
            IndexAction::HandOver,
        ],
        events[0] == IndexEvent::PathAbsent ==> trail(OpenMode::Rebuild, events).take(5) == seq![
            IndexAction::ProbePath,
            IndexAction::CreateDir,
            IndexAction::CreateIndex,
            IndexAction::RegisterTokenizer,
            IndexAction::HandOver,
        ],
{
    // The run is followed from its start for as long as it can take to reach the
    // hand-over: five events after a removal, four without one.
    let mode = OpenMode::Rebuild;
    lemma_prefix(mode, events, 0);
    if events.len() >= 1 {
        lemma_one_more(mode, events, 0);
        lemma_prefix(mode, events, 1);
    }
    if events.len() >= 2 {
        lemma_one_more(mode, events, 1);
        lemma_prefix(mode, events, 2);
    }
    if events.len() >= 3 {
        lemma_one_more(mode, events, 2);
        lemma_prefix(mode, events, 3);
    }
    if events.len() >= 4 {
        lemma_one_more(mode, events, 3);
        lemma_prefix(mode, events, 4);
    }
    if events.len() >= 5 {
        lemma_one_more(mode, events, 4);
        lemma_prefix(mode, events, 5);
    }
}

} // verus!
