//! Waiting for a target: a bounded polling protocol with change detection.
//!
//! A wait alternates native work and decisions. The decisions are here: the
//! engine is handed what the native layer reported and answers with the next
//! thing to do. Whoever drives it performs that action and reports back, until
//! the engine finishes.

use crate::common::{ClipboardError, ErrorView, TargetMimeType, TargetView};
use std::time::Duration;
use vstd::prelude::*;

verus! {

/// The time, in nanoseconds since a wait began, after which it stops polling.
pub const MAX_WAIT_NANOS: u128 = 999_000_000;

/// The set of targets that a list offers; order and repetition do not count.
pub open spec fn target_set(targets: Seq<TargetMimeType>) -> Set<TargetView> {
    Set::new(|t: TargetView| exists|i: int| 0 <= i < targets.len() && targets[i]@ == t)
}

/// Tells whether `wanted` is among `targets`.
pub fn offers(targets: &Vec<TargetMimeType>, wanted: &TargetMimeType) -> (r: bool)
    ensures
        r == target_set(targets@).contains(wanted@),
{
    let mut i: usize = 0;
    while i < targets.len()
        invariant
            i <= targets.len(),
            forall|j: int| 0 <= j < i ==> targets@[j]@ != wanted@,
        decreases targets.len() - i,
    {
        if targets[i] == *wanted {
            return true;
        }
        i += 1;
    }
    false
}

/// Tells whether every target of `part` is among `whole`.
fn all_offered(part: &Vec<TargetMimeType>, whole: &Vec<TargetMimeType>) -> (r: bool)
    ensures
        r == target_set(part@).subset_of(target_set(whole@)),
{
    let mut i: usize = 0;
    while i < part.len()
        invariant
            i <= part.len(),
            forall|j: int| 0 <= j < i ==> target_set(whole@).contains(#[trigger] part@[j]@),
        decreases part.len() - i,
    {
        if !offers(whole, &part[i]) {
            assert(target_set(part@).contains(part@[i as int]@));
            return false;
        }
        i += 1;
    }
    true
}

/// Tells whether two lists offer the same set of targets.
pub fn same_targets(a: &Vec<TargetMimeType>, b: &Vec<TargetMimeType>) -> (r: bool)
    ensures
        r == (target_set(a@) == target_set(b@)),
{
    let r = all_offered(a, b) && all_offered(b, a);
    proof {
        if r {
            assert(target_set(a@) =~= target_set(b@));
        }
    }
    r
}

/// What the engine asks its driver to do next.
#[derive(Debug)]
pub enum WaitAction {
    /// List the targets that are offered, and report them.
    ListTargets,
    /// Read the awaited target, and report what came.
    Read,
    /// Report the time that has passed since the wait began.
    ReadClock,
    /// Pause for the poll interval, and report when it is over.
    Sleep,
    /// End the wait with this result.
    Finish(Result<Vec<u8>, ClipboardError>),
}

/// What the driver reports to the engine.
#[derive(Debug)]
pub enum WaitEvent {
    /// The targets that were listed, or why listing failed.
    Targets(Result<Vec<TargetMimeType>, ClipboardError>),
    /// The bytes that were read, empty for an absent target, or why reading
    /// failed.
    Contents(Result<Vec<u8>, ClipboardError>),
    /// The nanoseconds that have passed since the wait began.
    Elapsed(u128),
    /// The pause is over.
    Slept,
}

/// Where a wait stands. Each state but the last awaits one kind of event.
#[derive(Debug, Clone)]
#[allow(inconsistent_fields)]
pub enum WaitEngine {
    /// Awaits the targets offered at the beginning.
    Snapshot,
    /// Awaits the contents of an attempt. `initial` holds the targets offered
    /// at the beginning, where they are known.
    Reading { initial: Option<Vec<TargetMimeType>> },
    /// Awaits the targets offered now, after an attempt that came back empty.
    Comparing { initial: Vec<TargetMimeType> },
    /// Awaits the clock, after an attempt that came back empty with the
    /// targets unchanged or unknown.
    Timing { initial: Option<Vec<TargetMimeType>> },
    /// Awaits the end of a pause.
    Sleeping { initial: Option<Vec<TargetMimeType>> },
    /// Awaits the contents of the last attempt.
    LastRead,
    /// The wait is over.
    Finished,
}

/// The mathematical value of a [`WaitAction`].
pub enum ActionView {
    ListTargets,
    Read,
    ReadClock,
    Sleep,
    Finish(Result<Seq<u8>, ErrorView>),
}

/// The mathematical value of a [`WaitEvent`]. Of a list of targets only the
/// set counts.
pub enum EventView {
    Targets(Result<Set<TargetView>, ErrorView>),
    Contents(Result<Seq<u8>, ErrorView>),
    Elapsed(nat),
    Slept,
}

/// The mathematical value of a [`WaitEngine`]. A snapshot is a set of targets,
/// or nothing where the backend cannot list them.
#[allow(inconsistent_fields)]
pub enum StateView {
    Snapshot,
    Reading { initial: Option<Set<TargetView>> },
    Comparing { initial: Set<TargetView> },
    Timing { initial: Option<Set<TargetView>> },
    Sleeping { initial: Option<Set<TargetView>> },
    LastRead,
    Finished,
}

/// The value of a result that carries bytes.
pub open spec fn bytes_result(r: Result<Vec<u8>, ClipboardError>) -> Result<Seq<u8>, ErrorView> {
    match r {
        Ok(bytes) => Ok(bytes@),
        Err(e) => Err(e@),
    }
}

/// The value of a snapshot.
pub open spec fn snapshot(initial: Option<Vec<TargetMimeType>>) -> Option<Set<TargetView>> {
    match initial {
        Some(targets) => Some(target_set(targets@)),
        None => None,
    }
}

impl View for WaitAction {
    type V = ActionView;

    open spec fn view(&self) -> ActionView {
        match self {
            WaitAction::ListTargets => ActionView::ListTargets,
            WaitAction::Read => ActionView::Read,
            WaitAction::ReadClock => ActionView::ReadClock,
            WaitAction::Sleep => ActionView::Sleep,
            WaitAction::Finish(r) => ActionView::Finish(bytes_result(*r)),
        }
    }
}

impl View for WaitEvent {
    type V = EventView;

    open spec fn view(&self) -> EventView {
        match self {
            WaitEvent::Targets(Ok(targets)) => EventView::Targets(Ok(target_set(targets@))),
            WaitEvent::Targets(Err(e)) => EventView::Targets(Err(e@)),
            WaitEvent::Contents(r) => EventView::Contents(bytes_result(*r)),
            WaitEvent::Elapsed(nanos) => EventView::Elapsed(*nanos as nat),
            WaitEvent::Slept => EventView::Slept,
        }
    }
}

impl View for WaitEngine {
    type V = StateView;

    open spec fn view(&self) -> StateView {
        match self {
            WaitEngine::Snapshot => StateView::Snapshot,
            WaitEngine::Reading { initial } => StateView::Reading { initial: snapshot(*initial) },
            WaitEngine::Comparing { initial } => StateView::Comparing {
                initial: target_set(initial@),
            },
            WaitEngine::Timing { initial } => StateView::Timing { initial: snapshot(*initial) },
            WaitEngine::Sleeping { initial } => StateView::Sleeping { initial: snapshot(*initial) },
            WaitEngine::LastRead => StateView::LastRead,
            WaitEngine::Finished => StateView::Finished,
        }
    }
}

/// The message of the error with which a wait ends when it is handed an
/// event that it did not ask for.
pub open spec fn out_of_turn() -> Seq<char> {
    "the wait was handed an event that it did not ask for"@
}

/// The end of a wait that was handed an event out of turn.
pub open spec fn misuse() -> (StateView, ActionView) {
    (StateView::Finished, ActionView::Finish(Err(ErrorView::Protocol(out_of_turn()))))
}

/// The first state and action of a wait. A backend that lists its targets is
/// asked for them first; of one that cannot, the snapshot stays unknown and
/// the first attempt is made at once.
pub open spec fn spec_start(enumerates: bool) -> (StateView, ActionView) {
    if enumerates {
        (StateView::Snapshot, ActionView::ListTargets)
    } else {
        (StateView::Reading { initial: None }, ActionView::Read)
    }
}

/// What follows an attempt that came back empty: with a snapshot the targets
/// are listed again, without one the clock is read.
pub open spec fn after_empty(initial: Option<Set<TargetView>>) -> (StateView, ActionView) {
    match initial {
        Some(targets) => (StateView::Comparing { initial: targets }, ActionView::ListTargets),
        None => (StateView::Timing { initial: None }, ActionView::ReadClock),
    }
}

/// The next state and action of a wait in `state` that is handed `event`.
///
/// - A failure of the native layer ends the wait with that failure.
/// - Contents that are not empty end the wait with those contents.
/// - After empty contents: if the offered targets differ from those at the
///   beginning, or more than [`MAX_WAIT_NANOS`] have passed, one last attempt
///   is made and its result ends the wait, empty or not; else the wait pauses
///   and tries again.
pub open spec fn spec_step(state: StateView, event: EventView) -> (StateView, ActionView) {
    match (state, event) {
        (StateView::Snapshot, EventView::Targets(Ok(targets))) => (
            StateView::Reading { initial: Some(targets) },
            ActionView::Read,
        ),
        (StateView::Snapshot, EventView::Targets(Err(e))) => (
            StateView::Finished,
            ActionView::Finish(Err(e)),
        ),
        (StateView::Reading { initial }, EventView::Contents(Ok(bytes))) => if bytes.len() > 0 {
            (StateView::Finished, ActionView::Finish(Ok(bytes)))
        } else {
            after_empty(initial)
        },
        (StateView::Reading { initial }, EventView::Contents(Err(e))) => (
            StateView::Finished,
            ActionView::Finish(Err(e)),
        ),
        (StateView::Comparing { initial }, EventView::Targets(Ok(targets))) => if targets
            != initial {
            (StateView::LastRead, ActionView::Read)
        } else {
            (StateView::Timing { initial: Some(initial) }, ActionView::ReadClock)
        },
        (StateView::Comparing { initial }, EventView::Targets(Err(e))) => (
            StateView::Finished,
            ActionView::Finish(Err(e)),
        ),
        (StateView::Timing { initial }, EventView::Elapsed(nanos)) => if nanos > MAX_WAIT_NANOS {
            (StateView::LastRead, ActionView::Read)
        } else {
            (StateView::Sleeping { initial }, ActionView::Sleep)
        },
        (StateView::Sleeping { initial }, EventView::Slept) => (
            StateView::Reading { initial },
            ActionView::Read,
        ),
        (StateView::LastRead, EventView::Contents(r)) => (
            StateView::Finished,
            ActionView::Finish(r),
        ),
        _ => misuse(),
    }
}

impl WaitEngine {
    /// Begins a wait. `enumerates` says whether the backend can list the
    /// targets that are offered.
    pub fn start(enumerates: bool) -> (r: (WaitEngine, WaitAction))
        ensures
            (r.0@, r.1@) == spec_start(enumerates),
    {
        if enumerates {
            (WaitEngine::Snapshot, WaitAction::ListTargets)
        } else {
            (WaitEngine::Reading { initial: None }, WaitAction::Read)
        }
    }

    /// Tells whether the wait is over.
    pub fn is_finished(&self) -> (r: bool)
        ensures
            r == (self@ is Finished),
    {
        match self {
            WaitEngine::Finished => true,
            _ => false,
        }
    }

    /// Ends a wait that was handed an event out of turn.
    fn refuse() -> (r: (WaitEngine, WaitAction))
        ensures
            (r.0@, r.1@) == misuse(),
    {
        let message = "the wait was handed an event that it did not ask for".to_owned();
        (WaitEngine::Finished, WaitAction::Finish(Err(ClipboardError::Protocol(message))))
    }

    /// What follows an attempt that came back empty.
    fn go_on(initial: Option<Vec<TargetMimeType>>) -> (r: (WaitEngine, WaitAction))
        ensures
            (r.0@, r.1@) == after_empty(snapshot(initial)),
    {
        match initial {
            Some(targets) => (WaitEngine::Comparing { initial: targets }, WaitAction::ListTargets),
            None => (WaitEngine::Timing { initial: None }, WaitAction::ReadClock),
        }
    }

    /// Takes what the driver reports and answers with the next action.
    pub fn step(self, event: WaitEvent) -> (r: (WaitEngine, WaitAction))
        ensures
            (r.0@, r.1@) == spec_step(self@, event@),
    {
        match self {
            WaitEngine::Snapshot => match event {
                WaitEvent::Targets(Ok(targets)) => (
                    WaitEngine::Reading { initial: Some(targets) },
                    WaitAction::Read,
                ),
                WaitEvent::Targets(Err(e)) => (WaitEngine::Finished, WaitAction::Finish(Err(e))),
                _ => Self::refuse(),
            },
            WaitEngine::Reading { initial } => match event {
                WaitEvent::Contents(Ok(bytes)) => if bytes.len() > 0 {
                    (WaitEngine::Finished, WaitAction::Finish(Ok(bytes)))
                } else {
                    Self::go_on(initial)
                },
                WaitEvent::Contents(Err(e)) => (WaitEngine::Finished, WaitAction::Finish(Err(e))),
                _ => Self::refuse(),
            },
            WaitEngine::Comparing { initial } => match event {
                WaitEvent::Targets(Ok(targets)) => if !same_targets(&targets, &initial) {
                    (WaitEngine::LastRead, WaitAction::Read)
                } else {
                    (WaitEngine::Timing { initial: Some(initial) }, WaitAction::ReadClock)
                },
                WaitEvent::Targets(Err(e)) => (WaitEngine::Finished, WaitAction::Finish(Err(e))),
                _ => Self::refuse(),
            },
            WaitEngine::Timing { initial } => match event {
                WaitEvent::Elapsed(nanos) => if nanos > MAX_WAIT_NANOS {
                    (WaitEngine::LastRead, WaitAction::Read)
                } else {
                    (WaitEngine::Sleeping { initial }, WaitAction::Sleep)
                },
                _ => Self::refuse(),
            },
            WaitEngine::Sleeping { initial } => match event {
                WaitEvent::Slept => (WaitEngine::Reading { initial }, WaitAction::Read),
                _ => Self::refuse(),
            },
            WaitEngine::LastRead => match event {
                WaitEvent::Contents(r) => (WaitEngine::Finished, WaitAction::Finish(r)),
                _ => Self::refuse(),
            },
            WaitEngine::Finished => Self::refuse(),
        }
    }
}

/// The state in which a wait that starts in `state` ends after `events`, and
/// the actions with which it answers them, in order.
pub open spec fn spec_run(state: StateView, events: Seq<EventView>) -> (StateView, Seq<ActionView>)
    decreases events.len(),
{
    if events.len() == 0 {
        (state, Seq::empty())
    } else {
        let (next, action) = spec_step(state, events[0]);
        let (last, actions) = spec_run(next, events.drop_first());
        (last, seq![action] + actions)
    }
}

/// Tells whether `event` is of the kind that a wait in `state` has asked for.
pub open spec fn awaits(state: StateView, event: EventView) -> bool {
    match state {
        StateView::Snapshot => event is Targets,
        StateView::Reading { .. } => event is Contents,
        StateView::Comparing { .. } => event is Targets,
        StateView::Timing { .. } => event is Elapsed,
        StateView::Sleeping { .. } => event is Slept,
        StateView::LastRead => event is Contents,
        StateView::Finished => false,
    }
}

/// Tells whether each of `events` is what the wait has asked for when it
/// comes.
pub open spec fn in_turn(state: StateView, events: Seq<EventView>) -> bool
    decreases events.len(),
{
    events.len() == 0 || (awaits(state, events[0]) && in_turn(
        spec_step(state, events[0]).0,
        events.drop_first(),
    ))
}

/// How many of `actions` are pauses.
pub open spec fn sleeps_in(actions: Seq<ActionView>) -> nat
    decreases actions.len(),
{
    if actions.len() == 0 {
        0
    } else {
        let first: nat = if actions[0] is Sleep {
            1
        } else {
            0
        };
        first + sleeps_in(actions.drop_first())
    }
}

/// Tells whether the clock of `events` keeps pace with the pauses: each
/// reading is at least `poll` nanoseconds for every pause that was reported
/// before it, `slept` pauses having been reported before `events`.
pub open spec fn clock_keeps_pace(events: Seq<EventView>, poll: nat, slept: nat) -> bool
    decreases events.len(),
{
    if events.len() == 0 {
        true
    } else {
        match events[0] {
            EventView::Slept => clock_keeps_pace(events.drop_first(), poll, slept + 1),
            EventView::Elapsed(nanos) => nanos >= slept * poll && clock_keeps_pace(
                events.drop_first(),
                poll,
                slept,
            ),
            _ => clock_keeps_pace(events.drop_first(), poll, slept),
        }
    }
}

/// The most pauses that a wait can ask for when a pause lasts `poll`
/// nanoseconds.
pub open spec fn most_pauses(poll: nat) -> nat {
    MAX_WAIT_NANOS as nat / poll + 1
}

/// The pauses that a wait in `state` can still ask for after `slept` pauses
/// were reported.
pub open spec fn pauses_left(state: StateView, poll: nat, slept: nat) -> nat {
    let spent = if state is Sleeping {
        slept + 1
    } else {
        slept
    };
    if state is Finished || state is LastRead || spent >= most_pauses(poll) {
        0
    } else {
        (most_pauses(poll) - spent) as nat
    }
}

/// A wait asks for no more pauses than are left to it, as long as the clock
/// keeps pace.
proof fn lemma_pauses_left(state: StateView, events: Seq<EventView>, poll: nat, slept: nat)
    requires
        poll > 0,
        clock_keeps_pace(events, poll, slept),
    ensures
        sleeps_in(spec_run(state, events).1) <= pauses_left(state, poll, slept),
    decreases events.len(),
{
    if events.len() == 0 {
    } else {
        let event = events[0];
        let rest = events.drop_first();
        let (next, action) = spec_step(state, event);
        let slept_now = if event is Slept {
            slept + 1
        } else {
            slept
        };
        lemma_pauses_left(next, rest, poll, slept_now);
        let actions = spec_run(next, rest).1;
        assert(spec_run(state, events).1 == seq![action] + actions);
        assert((seq![action] + actions).drop_first() == actions);
        if action is Sleep {
            let nanos = event->Elapsed_0;
            assert(slept * poll <= MAX_WAIT_NANOS as nat);
            assert(slept <= MAX_WAIT_NANOS as nat / poll) by (nonlinear_arith)
                requires
                    slept * poll <= MAX_WAIT_NANOS as nat,
                    poll > 0,
            ;
        }
    }
}

/// Bounded wait: whatever the clipboard does, a wait whose pauses last `poll`
/// nanoseconds each asks for at most `MAX_WAIT_NANOS / poll + 1` of them,
/// as long as the clock shows at least the time that was spent in pauses.
pub proof fn lemma_wait_is_bounded(enumerates: bool, events: Seq<EventView>, poll: nat)
    requires
        poll > 0,
        clock_keeps_pace(events, poll, 0),
    ensures
        sleeps_in(spec_run(spec_start(enumerates).0, events).1) <= most_pauses(poll),
{
    lemma_pauses_left(spec_start(enumerates).0, events, poll, 0);
}

/// The most events that a wait in `state` can still be handed in turn after
/// `slept` pauses were reported: four for every pause that is left to it, and
/// what its state needs to come to the last attempt.
pub open spec fn turns_left(state: StateView, poll: nat, slept: nat) -> nat {
    let pauses = pauses_left(state, poll, slept);
    match state {
        StateView::Finished => 0,
        StateView::LastRead => 1,
        StateView::Timing { .. } => 4 * pauses + 2,
        StateView::Comparing { .. } => 4 * pauses + 3,
        StateView::Reading { .. } => 4 * pauses + 4,
        StateView::Snapshot => 4 * pauses + 5,
        StateView::Sleeping { .. } => 4 * pauses + 5,
    }
}

/// A wait is handed no more events in turn than are left to it, as long as
/// the clock keeps pace.
proof fn lemma_turns_left(state: StateView, events: Seq<EventView>, poll: nat, slept: nat)
    requires
        poll > 0,
        in_turn(state, events),
        clock_keeps_pace(events, poll, slept),
    ensures
        events.len() <= turns_left(state, poll, slept),
    decreases events.len(),
{
    if events.len() > 0 {
        let event = events[0];
        let (next, action) = spec_step(state, event);
        let slept_now = if event is Slept {
            slept + 1
        } else {
            slept
        };
        lemma_turns_left(next, events.drop_first(), poll, slept_now);
        if action is Sleep {
            assert(slept * poll <= MAX_WAIT_NANOS as nat);
            assert(slept <= MAX_WAIT_NANOS as nat / poll) by (nonlinear_arith)
                requires
                    slept * poll <= MAX_WAIT_NANOS as nat,
                    poll > 0,
            ;
        }
    }
}

/// Bounded wait, in events: a wait that is driven in turn ends after at
/// most `4 * (MAX_WAIT_NANOS / poll + 1) + 5` events, whatever the
/// clipboard does, as long as the clock shows at least the time that was
/// spent in pauses of `poll` nanoseconds each. No loop that drives a wait
/// goes on for longer.
pub proof fn lemma_wait_ends(enumerates: bool, events: Seq<EventView>, poll: nat)
    requires
        poll > 0,
        in_turn(spec_start(enumerates).0, events),
        clock_keeps_pace(events, poll, 0),
    ensures
        events.len() <= 4 * most_pauses(poll) + 5,
{
    lemma_turns_left(spec_start(enumerates).0, events, poll, 0);
}

/// Bounded wait, at the bound: once the clock shows more than
/// [`MAX_WAIT_NANOS`], the wait makes one last attempt and ends with its
/// result, whatever that is.
pub proof fn lemma_late_clock_ends_wait(
    initial: Option<Set<TargetView>>,
    nanos: nat,
    last: Result<Seq<u8>, ErrorView>,
)
    requires
        nanos > MAX_WAIT_NANOS,
    ensures
        spec_run(
            StateView::Timing { initial },
            seq![EventView::Elapsed(nanos), EventView::Contents(last)],
        ) == (StateView::Finished, seq![ActionView::Read, ActionView::Finish(last)]),
{
    let events = seq![EventView::Elapsed(nanos), EventView::Contents(last)];
    let rest = events.drop_first();
    assert(rest.drop_first() == Seq::<EventView>::empty());
    assert(spec_run(StateView::Finished, rest.drop_first()).1 == Seq::<ActionView>::empty());
    assert(spec_run(StateView::LastRead, rest).1 == seq![ActionView::Finish(last)]);
    assert(spec_run(StateView::Timing { initial }, events).1 == seq![
        ActionView::Read,
        ActionView::Finish(last),
    ]);
}

/// Immediate success: where the target is there at the first attempt, the
/// wait ends with its contents and asks for no pause.
pub proof fn lemma_present_target_ends_wait(
    enumerates: bool,
    offered: Set<TargetView>,
    data: Seq<u8>,
)
    requires
        data.len() > 0,
    ensures
        enumerates ==> spec_run(
            spec_start(true).0,
            seq![EventView::Targets(Ok(offered)), EventView::Contents(Ok(data))],
        ) == (StateView::Finished, seq![ActionView::Read, ActionView::Finish(Ok(data))]),
        !enumerates ==> spec_run(spec_start(false).0, seq![EventView::Contents(Ok(data))]) == (
            StateView::Finished,
            seq![ActionView::Finish(Ok(data))],
        ),
{
    let one = seq![EventView::Contents(Ok(data))];
    assert(one.drop_first() == Seq::<EventView>::empty());
    assert(spec_run(StateView::Finished, one.drop_first()).1 == Seq::<ActionView>::empty());
    assert(spec_run(StateView::Reading { initial: None }, one).1 == seq![
        ActionView::Finish(Ok(data)),
    ]);
    let two = seq![EventView::Targets(Ok(offered)), EventView::Contents(Ok(data))];
    assert(two.drop_first() == one);
    assert(spec_run(StateView::Reading { initial: Some(offered) }, one).1 == seq![
        ActionView::Finish(Ok(data)),
    ]);
    assert(spec_run(StateView::Snapshot, two).1 == seq![
        ActionView::Read,
        ActionView::Finish(Ok(data)),
    ]);
}

/// Change detection: where the targets offered after an empty attempt are not
/// those of the beginning, the wait makes one last attempt and ends with its
/// result, empty or not, without a pause and without looking at the clock.
pub proof fn lemma_changed_targets_end_wait(
    initial: Set<TargetView>,
    current: Set<TargetView>,
    last: Result<Seq<u8>, ErrorView>,
)
    requires
        current != initial,
    ensures
        spec_run(
            StateView::Comparing { initial },
            seq![EventView::Targets(Ok(current)), EventView::Contents(last)],
        ) == (StateView::Finished, seq![ActionView::Read, ActionView::Finish(last)]),
{
    let events = seq![EventView::Targets(Ok(current)), EventView::Contents(last)];
    let rest = events.drop_first();
    assert(rest.drop_first() == Seq::<EventView>::empty());
    assert(spec_run(StateView::Finished, rest.drop_first()).1 == Seq::<ActionView>::empty());
    assert(spec_run(StateView::LastRead, rest).1 == seq![ActionView::Finish(last)]);
    assert(spec_run(StateView::Comparing { initial }, events).1 == seq![
        ActionView::Read,
        ActionView::Finish(last),
    ]);
}

/// No spinning: a wait that is driven in turn reads the target at its
/// beginning, after a pause, or as its last attempt, and at no other time.
/// Two attempts are thus a pause apart unless the second is the last.
pub proof fn lemma_read_follows_pause(state: StateView, event: EventView)
    requires
        awaits(state, event),
        spec_step(state, event).1 is Read,
    ensures
        state is Snapshot || state is Sleeping || spec_step(state, event).0 is LastRead,
        state is Sleeping ==> event is Slept,
{
}

/// Tells whether `event` reports nothing but absence: no contents, and no
/// failure.
pub open spec fn reports_absence(event: EventView) -> bool {
    match event {
        EventView::Contents(r) => r == Ok::<Seq<u8>, ErrorView>(Seq::empty()),
        EventView::Targets(r) => r is Ok,
        _ => true,
    }
}

/// Absence ends empty: a wait that is driven in turn and to which the target
/// is never offered can only end with empty contents and no error.
pub proof fn lemma_absent_target_ends_empty(state: StateView, events: Seq<EventView>)
    requires
        in_turn(state, events),
        forall|i: int| 0 <= i < events.len() ==> reports_absence(#[trigger] events[i]),
    ensures
        forall|k: int|
            0 <= k < spec_run(state, events).1.len() && #[trigger] spec_run(state, events).1[k]
                is Finish ==> spec_run(state, events).1[k] == ActionView::Finish(
                Ok(Seq::empty()),
            ),
    decreases events.len(),
{
    if events.len() > 0 {
        let event = events[0];
        let rest = events.drop_first();
        let (next, action) = spec_step(state, event);
        assert(reports_absence(event));
        assert forall|i: int| 0 <= i < rest.len() implies reports_absence(#[trigger] rest[i]) by {
            assert(rest[i] == events[i + 1]);
        }
        lemma_absent_target_ends_empty(next, rest);
        let actions = spec_run(next, rest).1;
        assert(spec_run(state, events).1 == seq![action] + actions);
        assert forall|k: int|
            0 <= k < spec_run(state, events).1.len() && #[trigger] spec_run(state, events).1[k]
                is Finish implies spec_run(state, events).1[k] == ActionView::Finish(
            Ok(Seq::empty()),
        ) by {
            if k > 0 {
                assert(spec_run(state, events).1[k] == actions[k - 1]);
            }
        }
    }
}

/// A wait for one target: the engine, the target that is awaited, and the
/// pause between two attempts.
///
/// What the engine decides is handed on with what it concerns: each attempt
/// names the target to read and the time it may take, and each pause names
/// its length. Whoever drives the wait needs to remember neither.
#[derive(Debug)]
pub struct Wait {
    engine: WaitEngine,
    target: TargetMimeType,
    poll_duration: Duration,
}

/// What a wait asks its driver to do next.
#[derive(Debug)]
pub enum WaitRequest {
    /// List the targets that are offered, and report them.
    ListTargets,
    /// Read `target`, taking no longer than `poll_duration` where the
    /// backend blocks, and report what came.
    Read { target: TargetMimeType, poll_duration: Duration },
    /// Report the time that has passed since the wait began.
    ReadClock,
    /// Pause for `poll_duration`, and report when it is over.
    Sleep { poll_duration: Duration },
    /// End the wait with this result.
    Finish(Result<Vec<u8>, ClipboardError>),
}

/// The mathematical value of a [`Wait`].
pub struct WaitView {
    pub state: StateView,
    pub target: TargetView,
    pub poll_duration: Duration,
}

/// The mathematical value of a [`WaitRequest`].
pub enum RequestView {
    ListTargets,
    Read { target: TargetView, poll_duration: Duration },
    ReadClock,
    Sleep { poll_duration: Duration },
    Finish(Result<Seq<u8>, ErrorView>),
}

impl View for Wait {
    type V = WaitView;

    closed spec fn view(&self) -> WaitView {
        WaitView { state: self.engine@, target: self.target@, poll_duration: self.poll_duration }
    }
}

impl View for WaitRequest {
    type V = RequestView;

    open spec fn view(&self) -> RequestView {
        match self {
            WaitRequest::ListTargets => RequestView::ListTargets,
            WaitRequest::Read { target, poll_duration } => RequestView::Read {
                target: target@,
                poll_duration: *poll_duration,
            },
            WaitRequest::ReadClock => RequestView::ReadClock,
            WaitRequest::Sleep { poll_duration } => RequestView::Sleep {
                poll_duration: *poll_duration,
            },
            WaitRequest::Finish(r) => RequestView::Finish(bytes_result(*r)),
        }
    }
}

/// The request that hands on `action` in a wait for `target` with pauses of
/// `poll_duration`: an attempt reads `target` within `poll_duration`, and a
/// pause lasts `poll_duration`.
pub open spec fn request_of(action: ActionView, target: TargetView, poll_duration: Duration) ->
    RequestView {
    match action {
        ActionView::ListTargets => RequestView::ListTargets,
        ActionView::Read => RequestView::Read { target, poll_duration },
        ActionView::ReadClock => RequestView::ReadClock,
        ActionView::Sleep => RequestView::Sleep { poll_duration },
        ActionView::Finish(r) => RequestView::Finish(r),
    }
}

/// The wait for `target` with pauses of `poll_duration` as it begins, and
/// its first request.
pub open spec fn spec_wait(enumerates: bool, target: TargetView, poll_duration: Duration) -> (
    WaitView,
    RequestView,
) {
    (
        WaitView { state: spec_start(enumerates).0, target, poll_duration },
        request_of(spec_start(enumerates).1, target, poll_duration),
    )
}

/// The wait after `event`, and its next request: the engine goes on as
/// [`spec_step`] says, and the target and the pause stay what they are.
pub open spec fn spec_wait_step(wait: WaitView, event: EventView) -> (WaitView, RequestView) {
    (
        WaitView { state: spec_step(wait.state, event).0, ..wait },
        request_of(spec_step(wait.state, event).1, wait.target, wait.poll_duration),
    )
}

/// A target like `target`.
fn same_target(target: &TargetMimeType) -> (r: TargetMimeType)
    ensures
        r@ == target@,
{
    match target {
        TargetMimeType::Text => TargetMimeType::Text,
        TargetMimeType::Bitmap => TargetMimeType::Bitmap,
        TargetMimeType::Files => TargetMimeType::Files,
        TargetMimeType::Specific(s) => TargetMimeType::Specific(s.clone()),
    }
}

impl Wait {
    /// Begins a wait for `target`, in which an attempt may take
    /// `poll_duration` and a pause lasts as long. `enumerates` says whether
    /// the backend can list the targets that are offered.
    pub fn start(enumerates: bool, target: TargetMimeType, poll_duration: Duration) -> (r: (
        Wait,
        WaitRequest,
    ))
        ensures
            (r.0@, r.1@) == spec_wait(enumerates, target@, poll_duration),
    {
        let (engine, action) = WaitEngine::start(enumerates);
        let wait = Wait { engine, target, poll_duration };
        let request = wait.hand_on(action);
        (wait, request)
    }

    /// The request that hands on `action`.
    fn hand_on(&self, action: WaitAction) -> (r: WaitRequest)
        ensures
            r@ == request_of(action@, self@.target, self@.poll_duration),
    {
        match action {
            WaitAction::ListTargets => WaitRequest::ListTargets,
            WaitAction::Read => WaitRequest::Read {
                target: same_target(&self.target),
                poll_duration: self.poll_duration,
            },
            WaitAction::ReadClock => WaitRequest::ReadClock,
            WaitAction::Sleep => WaitRequest::Sleep { poll_duration: self.poll_duration },
            WaitAction::Finish(r) => WaitRequest::Finish(r),
        }
    }

    /// Tells whether the wait is over.
    pub fn is_finished(&self) -> (r: bool)
        ensures
            r == (self@.state is Finished),
    {
        self.engine.is_finished()
    }

    /// Takes what the driver reports and answers with the next request.
    pub fn step(self, event: WaitEvent) -> (r: (Wait, WaitRequest))
        ensures
            (r.0@, r.1@) == spec_wait_step(self@, event@),
    {
        let (engine, action) = self.engine.step(event);
        let wait = Wait { engine, target: self.target, poll_duration: self.poll_duration };
        let request = wait.hand_on(action);
        (wait, request)
    }
}

/// Every attempt of a wait reads the target that the wait is for, within
/// the poll duration of the wait, and every pause lasts that long.
pub proof fn lemma_wait_keeps_its_target(wait: WaitView, event: EventView)
    ensures
        spec_wait_step(wait, event).0.target == wait.target,
        spec_wait_step(wait, event).0.poll_duration == wait.poll_duration,
        spec_wait_step(wait, event).1 is Read ==> spec_wait_step(wait, event).1 == (
        RequestView::Read { target: wait.target, poll_duration: wait.poll_duration }),
        spec_wait_step(wait, event).1 is Sleep ==> spec_wait_step(wait, event).1 == (
        RequestView::Sleep { poll_duration: wait.poll_duration }),
{
}

} // verus!
