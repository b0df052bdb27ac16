//! Scripts: native requests that are made in order, as long as each
//! succeeds.
//!
//! Some backends take several native requests to replace what the clipboard
//! holds. The order of the requests and what happens when one fails are
//! decided here; whoever drives a script performs each request and reports
//! its outcome.

use crate::common::{ClipboardError, ErrorView, Step};
use vstd::prelude::*;

verus! {

/// One step of a [`Script`]: the request to make, and the error that stands
/// for its failure. Where there is none, a failure is a protocol error with
/// the native message.
#[derive(Debug, Clone)]
pub struct ScriptStep<Q> {
    pub request: Q,
    pub failure: Option<ClipboardError>,
}

/// Native requests that are to be made one after the other, each only if
/// the one before it succeeded, and the error to end with when all of them
/// have succeeded, where there is one.
///
/// A script is driven like a wait: [`Script::begin`] hands out the first
/// request, and [`Script::after`] takes the outcome of the request that was
/// handed out last and hands out the next one or the result.
#[derive(Debug, Clone)]
pub struct Script<Q> {
    in_flight: Option<ClipboardError>,
    steps: Vec<ScriptStep<Q>>,
    refusal: Option<ClipboardError>,
}

/// The mathematical value of a [`Script`].
pub struct ScriptView<Q> {
    /// The error that stands for a failure of the request that was handed
    /// out last, where it has one.
    pub in_flight: Option<ErrorView>,
    /// The requests that are still to be made, in order, each with the error
    /// that stands for its failure, where it has one.
    pub pending: Seq<(Q, Option<ErrorView>)>,
    /// The error to end with when nothing is left to be made, where there is
    /// one.
    pub refusal: Option<ErrorView>,
}

/// The mathematical value of a turn of a script.
pub enum TurnView<Q> {
    Call(Q),
    Done(Result<(), ErrorView>),
}

/// The value of an error, where there is one.
pub open spec fn error_view(error: Option<ClipboardError>) -> Option<ErrorView> {
    match error {
        Some(e) => Some(e@),
        None => None,
    }
}

/// The value of a turn of a script.
pub open spec fn turn_view<Q>(step: Step<Q, ()>) -> TurnView<Q> {
    match step {
        Step::Call(request) => TurnView::Call(request),
        Step::Done(Ok(_)) => TurnView::Done(Ok(())),
        Step::Done(Err(e)) => TurnView::Done(Err(e@)),
    }
}

/// The value of the steps of a script.
pub open spec fn steps_view<Q>(steps: Seq<ScriptStep<Q>>) -> Seq<(Q, Option<ErrorView>)> {
    Seq::new(steps.len(), |i: int| (steps[i].request, error_view(steps[i].failure)))
}

/// The message of the error with which a script answers when it is driven
/// on after it has ended.
pub open spec fn script_is_over() -> Seq<char> {
    "the script has ended"@
}

/// A script that has ended: whatever it is handed, it answers with the
/// error that says so.
pub open spec fn ended<Q>() -> ScriptView<Q> {
    ScriptView {
        in_flight: Some(ErrorView::Protocol(script_is_over())),
        pending: Seq::empty(),
        refusal: Some(ErrorView::Protocol(script_is_over())),
    }
}

/// What a script does when nothing has failed: it hands out the first of the
/// requests that are pending, or, where none is, ends with its refusal or
/// with success.
pub open spec fn spec_begin<Q>(script: ScriptView<Q>) -> (ScriptView<Q>, TurnView<Q>) {
    if script.pending.len() > 0 {
        (
            ScriptView {
                in_flight: script.pending[0].1,
                pending: script.pending.drop_first(),
                refusal: script.refusal,
            },
            TurnView::Call(script.pending[0].0),
        )
    } else {
        (
            ended(),
            TurnView::Done(
                match script.refusal {
                    Some(e) => Err(e),
                    None => Ok(()),
                },
            ),
        )
    }
}

/// What a script does with the outcome of the request that it handed out
/// last. After a success it goes on as [`spec_begin`] says. A failure ends
/// it, with the error that stands for the failure of that request or, where
/// it has none, with a protocol error that carries the native message; no
/// further request is made.
pub open spec fn spec_after<Q>(script: ScriptView<Q>, outcome: Result<(), Seq<char>>) -> (
    ScriptView<Q>,
    TurnView<Q>,
) {
    match outcome {
        Ok(_) => spec_begin(script),
        Err(message) => (
            ended(),
            TurnView::Done(
                Err(
                    match script.in_flight {
                        Some(e) => e,
                        None => ErrorView::Protocol(message),
                    },
                ),
            ),
        ),
    }
}

/// The value of the outcome of a native request.
pub open spec fn outcome_view(outcome: Result<(), String>) -> Result<(), Seq<char>> {
    match outcome {
        Ok(_) => Ok(()),
        Err(message) => Err(message@),
    }
}

impl<Q> View for Script<Q> {
    type V = ScriptView<Q>;

    closed spec fn view(&self) -> ScriptView<Q> {
        ScriptView {
            in_flight: error_view(self.in_flight),
            pending: steps_view(self.steps@),
            refusal: error_view(self.refusal),
        }
    }
}

impl<Q> Script<Q> {
    /// Makes the script of `steps`, in order, that ends with `refusal` where
    /// there is one.
    pub fn new(steps: Vec<ScriptStep<Q>>, refusal: Option<ClipboardError>) -> (r: Script<Q>)
        ensures
            r@ == (ScriptView {
                in_flight: None,
                pending: steps_view(steps@),
                refusal: error_view(refusal),
            }),
    {
        Script { in_flight: None, steps, refusal }
    }

    fn over() -> (r: Script<Q>)
        ensures
            r@ == ended::<Q>(),
    {
        let script = Script {
            in_flight: Some(ClipboardError::Protocol("the script has ended".to_owned())),
            steps: Vec::new(),
            refusal: Some(ClipboardError::Protocol("the script has ended".to_owned())),
        };
        assert(steps_view(script.steps@) == Seq::<(Q, Option<ErrorView>)>::empty());
        script
    }

    /// Hands out the first request, or the result where there is nothing to
    /// request.
    pub fn begin(self) -> (r: (Script<Q>, Step<Q, ()>))
        ensures
            (r.0@, turn_view(r.1)) == spec_begin(self@),
    {
        let mut steps = self.steps;
        if steps.len() > 0 {
            let ghost before = steps@;
            let first = steps.remove(0);
            assert(steps_view(steps@) == steps_view(before).drop_first());
            (
                Script { in_flight: first.failure, steps, refusal: self.refusal },
                Step::Call(first.request),
            )
        } else {
            let result = match self.refusal {
                Some(e) => Err(e),
                None => Ok(()),
            };
            (Self::over(), Step::Done(result))
        }
    }

    /// Takes the outcome of the request that was handed out last, and hands
    /// out the next request or the result.
    pub fn after(self, outcome: Result<(), String>) -> (r: (Script<Q>, Step<Q, ()>))
        ensures
            (r.0@, turn_view(r.1)) == spec_after(self@, outcome_view(outcome)),
    {
        match outcome {
            Ok(_) => self.begin(),
            Err(message) => {
                let error = match self.in_flight {
                    Some(e) => e,
                    None => ClipboardError::Protocol(message),
                };
                (Self::over(), Step::Done(Err(error)))
            },
        }
    }
}

/// The turns of a script that is begun and then handed `outcomes`, one after
/// the other: the first turn is that of the beginning, and each of the others
/// answers one outcome.
pub open spec fn script_turns<Q>(script: ScriptView<Q>, outcomes: Seq<Result<(), Seq<char>>>) -> Seq<
    TurnView<Q>,
> {
    seq![spec_begin(script).1] + turns_after(spec_begin(script).0, outcomes)
}

/// The turns with which a script answers `outcomes`, one after the other.
pub open spec fn turns_after<Q>(script: ScriptView<Q>, outcomes: Seq<Result<(), Seq<char>>>) -> Seq<
    TurnView<Q>,
>
    decreases outcomes.len(),
{
    if outcomes.len() == 0 {
        Seq::empty()
    } else {
        seq![spec_after(script, outcomes[0]).1] + turns_after(
            spec_after(script, outcomes[0]).0,
            outcomes.drop_first(),
        )
    }
}

/// The turn that closes a script after a failure of the request that stands
/// at `k`.
pub open spec fn failure_turn<Q>(script: ScriptView<Q>, k: int, message: Seq<char>) -> TurnView<Q> {
    TurnView::Done(
        Err(
            match script.pending[k].1 {
                Some(e) => e,
                None => ErrorView::Protocol(message),
            },
        ),
    )
}

/// The turn that closes a script of which every request succeeded.
pub open spec fn closing_turn<Q>(script: ScriptView<Q>) -> TurnView<Q> {
    TurnView::Done(
        match script.refusal {
            Some(e) => Err(e),
            None => Ok(()),
        },
    )
}

/// A script requests in order and stops at the first failure. As long as
/// every outcome is a success, turn `k` hands out the request that stands at
/// `k`; when all requests have succeeded, the next turn ends the script with
/// its refusal or with success; and the turn after the first failure ends the
/// script with the error of the request that failed.
pub proof fn lemma_script_turns<Q>(
    script: ScriptView<Q>,
    outcomes: Seq<Result<(), Seq<char>>>,
    k: int,
)
    requires
        0 <= k <= outcomes.len(),
        k <= script.pending.len(),
        forall|i: int| 0 <= i < k ==> (#[trigger] outcomes[i]) is Ok,
    ensures
        script_turns(script, outcomes).len() == outcomes.len() + 1,
        k < script.pending.len() ==> script_turns(script, outcomes)[k] == TurnView::Call(
            script.pending[k].0,
        ),
        k == script.pending.len() ==> script_turns(script, outcomes)[k] == closing_turn(script),
        k < script.pending.len() && k < outcomes.len() && outcomes[k] is Err ==> script_turns(
            script,
            outcomes,
        )[k + 1] == failure_turn(script, k, outcomes[k]->Err_0),
    decreases k,
{
    lemma_turns_len(spec_begin(script).0, outcomes);
    if k > 0 {
        let next = spec_begin(script).0;
        let rest = outcomes.drop_first();
        let shorter = ScriptView {
            in_flight: None,
            pending: script.pending.drop_first(),
            refusal: script.refusal,
        };
        assert(spec_begin(shorter) == spec_begin(
            ScriptView { in_flight: next.in_flight, ..shorter },
        ));
        assert(outcomes[0] is Ok);
        assert(spec_after(next, outcomes[0]) == spec_begin(shorter));
        assert forall|i: int| 0 <= i < k - 1 implies (#[trigger] rest[i]) is Ok by {
            assert(rest[i] == outcomes[i + 1]);
        }
        lemma_script_turns(shorter, rest, k - 1);
        lemma_turns_len(spec_begin(shorter).0, rest);
        assert(turns_after(next, outcomes) == script_turns(shorter, rest));
        assert(script_turns(script, outcomes)[k] == script_turns(shorter, rest)[k - 1]);
        if k < script.pending.len() && k < outcomes.len() {
            assert(rest[k - 1] == outcomes[k]);
            assert(script_turns(script, outcomes)[k + 1] == script_turns(shorter, rest)[k]);
        }
    } else {
        if 0 < script.pending.len() && 0 < outcomes.len() && outcomes[0] is Err {
            let next = spec_begin(script).0;
            lemma_turns_len(spec_after(next, outcomes[0]).0, outcomes.drop_first());
            assert(script_turns(script, outcomes)[1] == turns_after(next, outcomes)[0]);
        }
    }
}

/// A script answers each outcome with one turn.
proof fn lemma_turns_len<Q>(script: ScriptView<Q>, outcomes: Seq<Result<(), Seq<char>>>)
    ensures
        turns_after(script, outcomes).len() == outcomes.len(),
    decreases outcomes.len(),
{
    if outcomes.len() > 0 {
        lemma_turns_len(spec_after(script, outcomes[0]).0, outcomes.drop_first());
    }
}

} // verus!
