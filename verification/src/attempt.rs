//! One validator's turn in one direction: look at the chain, find the slot
//! that is owed, build the checkpoint and submit it.
//!
//! The turn is a state machine.  The caller performs each returned action on
//! the chain and reports what came back as the next event.

use vstd::prelude::*;
use crate::epoch::{
    ChainEpoch, CheckpointPeriod, boundary_after, is_multiple, is_owed, is_slot,
    lemma_boundary_after, lemma_skip_voted, nothing_owed_before, voted_for,
};
use crate::error::AgentError;
use vstd::arithmetic::div_mod::{lemma_fundamental_div_mod, lemma_fundamental_div_mod_converse};

verus! {

/// The direction a checkpoint travels.
#[derive(Clone, Copy, Debug, PartialEq, Eq, Structural)]
pub enum Direction {
    /// From the child subnet up to its parent.
    BottomUp,
    /// From the parent down to the child subnet.
    TopDown,
}

/// Where a turn stands.
#[derive(Clone, Copy, Debug, PartialEq, Eq, Structural)]
pub enum Phase {
    /// Waiting for the last executed epoch and the current epoch.
    Observing,
    /// Waiting to learn whether the validator voted for `epoch`.
    Probing { epoch: ChainEpoch },
    /// Waiting for the checkpoint of `epoch` to be assembled.
    Building { epoch: ChainEpoch },
    /// The checkpoint of `epoch` was broadcast; waiting for its receipt.
    Submitting { epoch: ChainEpoch },
    /// Nothing more to do for this validator until the next poll.
    Finished,
    /// A failure that ends the supervisor of the pair.
    Dead,
}

/// What the chain reported in answer to the last action.
#[derive(Clone, Copy, Debug, PartialEq, Eq, Structural)]
pub enum AttemptEvent {
    /// The last executed epoch and the current epoch of the source chain.
    Heads { last_executed: ChainEpoch, current: ChainEpoch },
    /// Whether the validator has voted for the epoch asked about.
    Vote { voted: bool },
    /// The checkpoint was assembled and passed validation.
    Built,
    /// The submission was included in a block.
    Receipt,
    /// The last action failed.
    Failed { error: AgentError },
}

/// What the caller does next.
#[derive(Clone, Copy, Debug, PartialEq, Eq, Structural)]
pub enum AttemptAction {
    /// Read the last executed epoch and the current epoch.
    Observe,
    /// Ask whether the validator has voted for `epoch`.
    QueryVote { epoch: ChainEpoch },
    /// Assemble the checkpoint for `epoch`.
    Build { epoch: ChainEpoch },
    /// Sign, broadcast and await the checkpoint for `epoch`.
    Submit { epoch: ChainEpoch },
    /// Move on to the next validator.
    Done,
    /// Stop the supervisor with this failure.
    Fail { error: AgentError },
}

/// The mathematical content of a turn.
pub struct AttemptView {
    pub period: int,
    pub last_executed: int,
    pub current: int,
    pub phase: Phase,
    pub retried: bool,
}

impl AttemptView {
    /// The epoch the turn is working on, if any.
    pub open spec fn epoch(self) -> Option<int> {
        match self.phase {
            Phase::Probing { epoch } => Some(epoch as int),
            Phase::Building { epoch } => Some(epoch as int),
            Phase::Submitting { epoch } => Some(epoch as int),
            _ => None,
        }
    }

    /// The period is positive, the observed epochs are machine epochs, and
    /// the epoch being worked on is a slot.
    pub open spec fn wf(self) -> bool {
        &&& self.period > 0
        &&& i64::MIN <= self.last_executed <= i64::MAX
        &&& i64::MIN <= self.current <= i64::MAX
        &&& self.epoch() matches Some(e) ==> is_slot(
            e,
            self.period,
            self.last_executed,
            self.current,
        )
    }

    pub open spec fn with_phase(self, phase: Phase) -> AttemptView {
        AttemptView { phase, ..self }
    }

    /// Where probing goes from candidate slot `e`: ask about it if the chain
    /// has reached it, otherwise the turn is over.
    pub open spec fn probe(self, e: int) -> (AttemptView, AttemptAction) {
        if e <= self.current {
            (
                self.with_phase(Phase::Probing { epoch: e as ChainEpoch }),
                AttemptAction::QueryVote { epoch: e as ChainEpoch },
            )
        } else {
            (self.with_phase(Phase::Finished), AttemptAction::Done)
        }
    }

    /// How a failure ends the turn.
    pub open spec fn fail(self, error: AgentError) -> (AttemptView, AttemptAction) {
        if error.spec_stops_pair() {
            (self.with_phase(Phase::Dead), AttemptAction::Fail { error })
        } else {
            (self.with_phase(Phase::Finished), AttemptAction::Done)
        }
    }

    /// The transition function of a turn.
    pub open spec fn step(self, direction: Direction, event: AttemptEvent) -> (
        AttemptView,
        AttemptAction,
    ) {
        match (self.phase, event) {
            (Phase::Observing, AttemptEvent::Heads { last_executed, current }) => {
                let seen = AttemptView {
                    last_executed: last_executed as int,
                    current: current as int,
                    ..self
                };
                seen.probe(boundary_after(self.period, last_executed as int))
            },
            (Phase::Probing { epoch }, AttemptEvent::Vote { voted }) => {
                if voted {
                    self.probe(epoch + self.period)
                } else {
                    (self.with_phase(Phase::Building { epoch }), AttemptAction::Build { epoch })
                }
            },
            (Phase::Building { epoch }, AttemptEvent::Built) => (
                self.with_phase(Phase::Submitting { epoch }),
                AttemptAction::Submit { epoch },
            ),
            (Phase::Submitting { epoch }, AttemptEvent::Receipt) => {
                if direction == Direction::TopDown && !self.retried {
                    (
                        AttemptView { phase: Phase::Observing, retried: true, ..self },
                        AttemptAction::Observe,
                    )
                } else {
                    (self.with_phase(Phase::Finished), AttemptAction::Done)
                }
            },
            (Phase::Observing, AttemptEvent::Failed { error }) => self.fail(error),
            (Phase::Probing { .. }, AttemptEvent::Failed { error }) => self.fail(error),
            (Phase::Building { .. }, AttemptEvent::Failed { error }) => self.fail(error),
            (Phase::Submitting { .. }, AttemptEvent::Failed { error }) => self.fail(error),
            _ => (
                self.with_phase(Phase::Dead),
                AttemptAction::Fail { error: AgentError::Fatal },
            ),
        }
    }
}

/// A step from a well-formed turn leads to a well-formed turn, and whatever
/// it asks to query, build or submit is a slot: a multiple of the period
/// later than the last executed epoch that the chain has reached.
pub proof fn lemma_step_wf(s: AttemptView, direction: Direction, event: AttemptEvent)
    requires
        s.wf(),
    ensures
        s.step(direction, event).0.wf(),
        s.step(direction, event).0.period == s.period,
        match s.step(direction, event).1 {
            AttemptAction::QueryVote { epoch } | AttemptAction::Build { epoch }
            | AttemptAction::Submit { epoch } => {
                let t = s.step(direction, event).0;
                t.epoch() == Some(epoch as int) && is_slot(
                    epoch as int,
                    t.period,
                    t.last_executed,
                    t.current,
                )
            },
            _ => true,
        },
{
    match (s.phase, event) {
        (Phase::Observing, AttemptEvent::Heads { last_executed, current }) => {
            lemma_boundary_after(s.period, last_executed as int);
        },
        (Phase::Probing { epoch }, AttemptEvent::Vote { voted }) => {
            if voted {
                lemma_next_multiple(epoch as int, s.period);
            }
        },
        _ => {},
    }
}

/// One period after a multiple of the period is a multiple of the period.
pub proof fn lemma_next_multiple(e: int, period: int)
    requires
        period > 0,
        is_multiple(e, period),
    ensures
        is_multiple(e + period, period),
{
    lemma_fundamental_div_mod(e, period);
    let q = e / period;
    assert(e + period == (q + 1) * period) by (nonlinear_arith)
        requires
            e == period * q,
    ;
    lemma_fundamental_div_mod_converse(e + period, period, q + 1, 0);
}

/// One validator's turn in one direction.
#[derive(Clone, Copy, Debug)]
pub struct Attempt {
    period: CheckpointPeriod,
    last_executed: ChainEpoch,
    current: ChainEpoch,
    phase: Phase,
    retried: bool,
}

impl View for Attempt {
    type V = AttemptView;

    closed spec fn view(&self) -> AttemptView {
        AttemptView {
            period: self.period@,
            last_executed: self.last_executed as int,
            current: self.current as int,
            phase: self.phase,
            retried: self.retried,
        }
    }
}

impl Attempt {
    #[verifier::type_invariant]
    spec fn inv(self) -> bool {
        self@.wf()
    }

    /// A fresh turn, waiting for its first observation of the chain.
    pub fn new(period: CheckpointPeriod) -> (r: Self)
        ensures
            r@.wf(),
            r@ == (AttemptView {
                period: period@,
                last_executed: 0,
                current: 0,
                phase: Phase::Observing,
                retried: false,
            }),
    {
        let p = period.epochs();
        Attempt { period, last_executed: 0, current: 0, phase: Phase::Observing, retried: false }
    }

    /// Where the turn stands.
    pub fn phase(&self) -> (r: Phase)
        ensures
            r == self@.phase,
            self@.wf(),
    {
        proof {
            use_type_invariant(self);
        }
        self.phase
    }

    /// The period of the direction this turn belongs to.
    pub fn checkpoint_period(&self) -> (r: CheckpointPeriod)
        ensures
            r@ == self@.period,
    {
        self.period
    }

    /// The last executed epoch seen at the start of the turn.
    pub fn last_executed_epoch(&self) -> (r: ChainEpoch)
        ensures
            r == self@.last_executed,
    {
        self.last_executed
    }

    /// The current epoch seen at the start of the turn.
    pub fn current_epoch(&self) -> (r: ChainEpoch)
        ensures
            r == self@.current,
    {
        self.current
    }

    fn with_phase(self, phase: Phase) -> (r: Self)
        requires
            self@.with_phase(phase).wf(),
        ensures
            r@ == self@.with_phase(phase),
    {
        Attempt { phase, ..self }
    }

    fn probe(self, e: i128) -> (r: (Self, AttemptAction))
        requires
            self@.probe(e as int).0.wf(),
        ensures
            (r.0@, r.1) == self@.probe(e as int),
    {
        if e <= self.current as i128 {
            let epoch: ChainEpoch = e as ChainEpoch;
            (self.with_phase(Phase::Probing { epoch }), AttemptAction::QueryVote { epoch })
        } else {
            (self.with_phase(Phase::Finished), AttemptAction::Done)
        }
    }

    fn fail(self, error: AgentError) -> (r: (Self, AttemptAction))
        ensures
            (r.0@, r.1) == self@.fail(error),
    {
        proof {
            use_type_invariant(self);
        }
        if error.stops_pair() {
            (self.with_phase(Phase::Dead), AttemptAction::Fail { error })
        } else {
            (self.with_phase(Phase::Finished), AttemptAction::Done)
        }
    }

    /// Advances the turn by one event and says what to do next.
    ///
    /// Whatever epoch the returned action names is a slot of the period that
    /// lies after the last executed epoch observed in this turn.
    pub fn step(self, direction: Direction, event: AttemptEvent) -> (r: (Self, AttemptAction))
        ensures
            (r.0@, r.1) == self@.step(direction, event),
            r.0@.wf(),
            match r.1 {
                AttemptAction::QueryVote { epoch } | AttemptAction::Build { epoch }
                | AttemptAction::Submit { epoch } => is_slot(
                    epoch as int,
                    r.0@.period,
                    r.0@.last_executed,
                    r.0@.current,
                ),
                _ => true,
            },
    {
        proof {
            use_type_invariant(self);
            lemma_step_wf(self@, direction, event);
        }
        match (self.phase, event) {
            (Phase::Observing, AttemptEvent::Heads { last_executed, current }) => {
                let seen = Attempt { last_executed, current, ..self };
                match self.period.next_boundary(last_executed) {
                    Some(e) => seen.probe(e as i128),
                    None => (seen.with_phase(Phase::Finished), AttemptAction::Done),
                }
            },
            (Phase::Probing { epoch }, AttemptEvent::Vote { voted }) => {
                if voted {
                    let p = self.period.epochs();
                    self.probe(epoch as i128 + p as i128)
                } else {
                    (self.with_phase(Phase::Building { epoch }), AttemptAction::Build { epoch })
                }
            },
            (Phase::Building { epoch }, AttemptEvent::Built) => (
                self.with_phase(Phase::Submitting { epoch }),
                AttemptAction::Submit { epoch },
            ),
            (Phase::Submitting { epoch }, AttemptEvent::Receipt) => {
                let again = match direction {
                    Direction::TopDown => !self.retried,
                    Direction::BottomUp => false,
                };
                if again {
                    (Attempt { phase: Phase::Observing, retried: true, ..self }, AttemptAction::Observe)
                } else {
                    (self.with_phase(Phase::Finished), AttemptAction::Done)
                }
            },
            (Phase::Observing, AttemptEvent::Failed { error }) => self.fail(error),
            (Phase::Probing { .. }, AttemptEvent::Failed { error }) => self.fail(error),
            (Phase::Building { .. }, AttemptEvent::Failed { error }) => self.fail(error),
            (Phase::Submitting { .. }, AttemptEvent::Failed { error }) => self.fail(error),
            _ => (self.with_phase(Phase::Dead), AttemptAction::Fail { error: AgentError::Fatal }),
        }
    }
}

/// One step of a bottom-up turn.
pub fn manage_bottomup_checkpoints(attempt: Attempt, event: AttemptEvent) -> (r: (
    Attempt,
    AttemptAction,
))
    ensures
        (r.0@, r.1) == attempt@.step(Direction::BottomUp, event),
        r.0@.wf(),
{
    attempt.step(Direction::BottomUp, event)
}

/// One step of a top-down turn.  After a submission is confirmed the turn
/// looks at the chain once more, in case another slot became due while the
/// first submission was in flight.
pub fn manage_topdown_checkpoints(attempt: Attempt, event: AttemptEvent) -> (r: (
    Attempt,
    AttemptAction,
))
    ensures
        (r.0@, r.1) == attempt@.step(Direction::TopDown, event),
        r.0@.wf(),
{
    attempt.step(Direction::TopDown, event)
}

/// A turn that has not looked at the chain yet.
pub open spec fn fresh(period: int) -> AttemptView {
    AttemptView { period, last_executed: 0, current: 0, phase: Phase::Observing, retried: false }
}

/// The turn after the first `n` of `events`, starting fresh.
pub open spec fn state_after(
    period: int,
    direction: Direction,
    events: Seq<AttemptEvent>,
    n: int,
) -> AttemptView
    decreases n,
{
    if n <= 0 {
        fresh(period)
    } else {
        state_after(period, direction, events, n - 1).step(direction, events[n - 1]).0
    }
}

/// The action returned for the event at position `i`.
pub open spec fn action_at(
    period: int,
    direction: Direction,
    events: Seq<AttemptEvent>,
    i: int,
) -> AttemptAction {
    state_after(period, direction, events, i).step(direction, events[i]).1
}

/// Every state a fresh turn reaches is well formed.
pub proof fn lemma_state_after_wf(
    period: int,
    direction: Direction,
    events: Seq<AttemptEvent>,
    n: int,
)
    requires
        period > 0,
    ensures
        state_after(period, direction, events, n).wf(),
        state_after(period, direction, events, n).period == period,
    decreases n,
{
    if n > 0 {
        lemma_state_after_wf(period, direction, events, n - 1);
        lemma_step_wf(state_after(period, direction, events, n - 1), direction, events[n - 1]);
    }
}

/// A turn submits only on a fresh word from the chain that the validator has
/// not voted: whenever the action at position `i` is to submit for `e`, the
/// event before the build was the answer "not voted" to the question about
/// `e`, asked two actions earlier.  In particular nothing is submitted for a
/// slot after the chain said the validator voted for it, and a retry after
/// an unknown receipt asks again first.
pub proof fn lemma_submit_follows_fresh_vote(
    period: int,
    direction: Direction,
    events: Seq<AttemptEvent>,
    i: int,
    e: ChainEpoch,
)
    requires
        period > 0,
        0 <= i < events.len(),
        action_at(period, direction, events, i) == (AttemptAction::Submit { epoch: e }),
    ensures
        i >= 2,
        events[i] == AttemptEvent::Built,
        events[i - 1] == (AttemptEvent::Vote { voted: false }),
        action_at(period, direction, events, i - 1) == (AttemptAction::Build { epoch: e }),
        action_at(period, direction, events, i - 2) == (AttemptAction::QueryVote { epoch: e }),
{
    let s2 = state_after(period, direction, events, i);
    assert(s2.phase == (Phase::Building { epoch: e }));
    assert(i >= 1);
    let s1 = state_after(period, direction, events, i - 1);
    assert(s2 == s1.step(direction, events[i - 1]).0);
    assert(s1.phase == (Phase::Probing { epoch: e }));
    assert(i >= 2);
    let s0 = state_after(period, direction, events, i - 2);
    assert(s1 == s0.step(direction, events[i - 2]).0);
    lemma_state_after_wf(period, direction, events, i - 2);
    lemma_step_wf(s0, direction, events[i - 2]);
}

/// Every submission is for a slot: a multiple of the period that lies after
/// the last executed epoch observed at the start of the turn and that the
/// chain has reached.
pub proof fn lemma_submissions_are_slots(
    period: int,
    direction: Direction,
    events: Seq<AttemptEvent>,
    i: int,
    e: ChainEpoch,
)
    requires
        period > 0,
        0 <= i < events.len(),
        action_at(period, direction, events, i) == (AttemptAction::Submit { epoch: e }),
    ensures
        e as int % period == 0,
        e > state_after(period, direction, events, i + 1).last_executed,
        e <= state_after(period, direction, events, i + 1).current,
{
    lemma_state_after_wf(period, direction, events, i);
    lemma_step_wf(state_after(period, direction, events, i), direction, events[i]);
}

/// The turn after the chain has answered every vote query according to
/// `voted`: probing goes on until a slot is found that is not voted for or
/// the chain's current epoch is passed.
pub open spec fn answer_votes(
    s: AttemptView,
    direction: Direction,
    voted: Seq<ChainEpoch>,
) -> AttemptView
    decreases
        (match s.phase {
            Phase::Probing { epoch } => s.current - epoch + 1,
            _ => 0,
        }),
    when s.wf()
{
    match s.phase {
        Phase::Probing { epoch } => answer_votes(
            s.step(direction, AttemptEvent::Vote { voted: voted_for(voted, epoch as int) }).0,
            direction,
            voted,
        ),
        _ => s,
    }
}

/// Probing finds the epoch that is owed next.  When nothing before the slot
/// being probed is owed and the chain answers according to `voted`, the turn
/// ends up building for the smallest owed slot, or finished if none is owed.
pub proof fn lemma_probing_finds_next(s: AttemptView, direction: Direction, voted: Seq<ChainEpoch>)
    requires
        s.wf(),
        s.phase is Probing,
        nothing_owed_before(s.epoch().unwrap(), s.period, s.last_executed, s.current, voted),
    ensures
        ({
            let t = answer_votes(s, direction, voted);
            match t.phase {
                Phase::Building { epoch } => is_owed(
                    epoch as int,
                    s.period,
                    s.last_executed,
                    s.current,
                    voted,
                ) && forall|o: int| #[trigger]
                    is_owed(o, s.period, s.last_executed, s.current, voted) ==> epoch <= o,
                Phase::Finished => forall|o: int|
                    !#[trigger] is_owed(o, s.period, s.last_executed, s.current, voted),
                _ => false,
            }
        }),
    decreases s.current - s.epoch().unwrap() + 1,
{
    reveal(nothing_owed_before);
    let e = s.phase->Probing_epoch;
    let answer = voted_for(voted, e as int);
    let t = s.step(direction, AttemptEvent::Vote { voted: answer }).0;
    lemma_step_wf(s, direction, AttemptEvent::Vote { voted: answer });
    assert(answer_votes(s, direction, voted) == answer_votes(t, direction, voted));
    assert(t.period == s.period && t.last_executed == s.last_executed && t.current == s.current);
    if answer {
        assert(!is_owed(e as int, s.period, s.last_executed, s.current, voted));
        lemma_skip_voted(e as int, s.period, s.last_executed, s.current, voted);
        if e + s.period <= s.current {
            assert(t.phase == (Phase::Probing { epoch: (e + s.period) as ChainEpoch }));
            lemma_probing_finds_next(t, direction, voted);
        } else {
            assert(t.phase is Finished);
            assert(answer_votes(t, direction, voted) == t);
        }
    } else {
        assert(t.phase == (Phase::Building { epoch: e }));
        assert(answer_votes(t, direction, voted) == t);
        assert(is_owed(e as int, s.period, s.last_executed, s.current, voted));
    }
}

/// A fresh look at the chain leads to the epoch owed next: after the heads
/// are observed and the chain has answered every vote query according to
/// `voted`, the turn builds for the smallest slot after the last executed
/// epoch that the chain has reached and the validator has not voted for, and
/// is finished if there is no such slot.
pub proof fn lemma_turn_finds_next(
    s: AttemptView,
    direction: Direction,
    last_executed: ChainEpoch,
    current: ChainEpoch,
    voted: Seq<ChainEpoch>,
)
    requires
        s.wf(),
        s.phase is Observing,
    ensures
        ({
            let seen = s.step(direction, AttemptEvent::Heads { last_executed, current }).0;
            let t = answer_votes(seen, direction, voted);
            match t.phase {
                Phase::Building { epoch } => is_owed(
                    epoch as int,
                    s.period,
                    last_executed as int,
                    current as int,
                    voted,
                ) && forall|o: int| #[trigger]
                    is_owed(o, s.period, last_executed as int, current as int, voted) ==> epoch
                        <= o,
                Phase::Finished => forall|o: int|
                    !#[trigger] is_owed(o, s.period, last_executed as int, current as int, voted),
                _ => false,
            }
        }),
{
    let event = AttemptEvent::Heads { last_executed, current };
    let seen = s.step(direction, event).0;
    lemma_step_wf(s, direction, event);
    lemma_boundary_after(s.period, last_executed as int);
    reveal(nothing_owed_before);
    if seen.phase is Probing {
        lemma_probing_finds_next(seen, direction, voted);
    } else {
        assert(seen.phase is Finished);
        assert(answer_votes(seen, direction, voted) == seen);
    }
}

} // verus!
