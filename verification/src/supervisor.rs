//! The supervisor of one (child, parent) pair: it gives every managed
//! validator a turn in each direction, sleeps between rounds, and winds down
//! when asked to stop.

use vstd::prelude::*;
use crate::address::{Address, AddressView, Network, contains_address, decoded_address};
use crate::attempt::{
    Attempt, AttemptAction, AttemptEvent, AttemptView, Direction, Phase, fresh,
    manage_bottomup_checkpoints, manage_topdown_checkpoints, lemma_step_wf,
};
use crate::epoch::CheckpointPeriod;
use crate::error::AgentError;
use crate::search::{first_where, lemma_first_where, lemma_first_where_prefix};

verus! {

/// Seconds between two looks at the chain head.
pub const CHAIN_HEAD_POLL_INTERVAL: u64 = 10;

/// The addresses that all of `texts` denote, absent if one of them is not an
/// address.
pub open spec fn decoded_all(testnet: bool, texts: Seq<Seq<char>>) -> Option<Seq<AddressView>> {
    if forall|i: int| 0 <= i < texts.len() ==> decoded_address(testnet, #[trigger] texts[i]) is Some {
        Some(Seq::new(texts.len(), |i: int| decoded_address(testnet, texts[i]).unwrap()))
    } else {
        None
    }
}

/// The validators among the configured accounts: every account that the
/// validator set lists, once, at the place where it first occurs in
/// `accounts`.  An account that the configuration repeats is one validator.
pub open spec fn managed_validators(
    accounts: Seq<AddressView>,
    validators: Seq<AddressView>,
) -> Seq<AddressView>
    decreases accounts.len(),
{
    if accounts.len() == 0 {
        Seq::empty()
    } else {
        let earlier = accounts.drop_last();
        let kept = managed_validators(earlier, validators);
        if validators.contains(accounts.last()) && !earlier.contains(accounts.last()) {
            kept.push(accounts.last())
        } else {
            kept
        }
    }
}

/// The managed validators are the intersection of the two lists as a set:
/// an address is among them exactly when both lists hold it, and none is
/// among them twice.
pub proof fn lemma_managed_validators(accounts: Seq<AddressView>, validators: Seq<AddressView>)
    ensures
        managed_validators(accounts, validators).no_duplicates(),
        forall|x: AddressView| #[trigger]
            managed_validators(accounts, validators).contains(x) <==> accounts.contains(x)
                && validators.contains(x),
    decreases accounts.len(),
{
    let r = managed_validators(accounts, validators);
    if accounts.len() > 0 {
        let earlier = accounts.drop_last();
        let kept = managed_validators(earlier, validators);
        let a = accounts.last();
        lemma_managed_validators(earlier, validators);
        assert forall|x: AddressView| #[trigger] r.contains(x) <==> accounts.contains(x)
            && validators.contains(x) by {
            if accounts.contains(x) {
                let i = choose|i: int| 0 <= i < accounts.len() && accounts[i] == x;
                if i < earlier.len() {
                    assert(earlier[i] == x);
                }
            }
            if earlier.contains(x) {
                let i = choose|i: int| 0 <= i < earlier.len() && earlier[i] == x;
                assert(accounts[i] == x);
            }
            if kept.contains(x) {
                let i = choose|i: int| 0 <= i < kept.len() && kept[i] == x;
                if r.len() > kept.len() {
                    assert(r[i] == x);
                }
            }
            if r.contains(x) {
                let i = choose|i: int| 0 <= i < r.len() && r[i] == x;
                if i < kept.len() {
                    assert(kept[i] == x);
                } else {
                    assert(x == a);
                    assert(accounts[accounts.len() - 1] == a);
                }
            }
            if x == a && validators.contains(a) && !earlier.contains(a) {
                assert(r[kept.len() as int] == a);
                assert(accounts[accounts.len() - 1] == a);
            }
        }
        assert forall|i: int, j: int| 0 <= i < r.len() && 0 <= j < r.len() && i != j implies r[i]
            != r[j] by {
            if i < kept.len() && j < kept.len() {
                assert(kept[i] != kept[j]);
            } else if i < kept.len() {
                assert(kept.contains(kept[i]));
            } else if j < kept.len() {
                assert(kept.contains(kept[j]));
            }
        }
    }
}

/// The property of being the address `x`.
pub open spec fn is_address(x: AddressView) -> spec_fn(AddressView) -> bool {
    |y: AddressView| y == x
}

/// The place where `x` first occurs in `accounts`.
pub open spec fn first_place(accounts: Seq<AddressView>, x: AddressView) -> int {
    first_where(accounts, is_address(x), accounts.len() as int)
}

/// The managed validators stand in configuration order: each stands for the
/// place where it first occurs among the accounts, and these places ascend.
pub proof fn lemma_managed_order(
    accounts: Seq<AddressView>,
    validators: Seq<AddressView>,
    i: int,
    j: int,
)
    requires
        0 <= i <= j < managed_validators(accounts, validators).len(),
    ensures
        first_place(accounts, managed_validators(accounts, validators)[i]) < accounts.len(),
        first_place(accounts, managed_validators(accounts, validators)[j]) < accounts.len(),
        i < j ==> first_place(accounts, managed_validators(accounts, validators)[i]) < first_place(
            accounts,
            managed_validators(accounts, validators)[j],
        ),
    decreases accounts.len(),
{
    let r = managed_validators(accounts, validators);
    let earlier = accounts.drop_last();
    let kept = managed_validators(earlier, validators);
    let a = accounts.last();
    let n = accounts.len() as int;
    lemma_managed_validators(earlier, validators);
    if j < kept.len() {
        lemma_managed_order(earlier, validators, i, j);
        lemma_place_stays(accounts, kept[i]);
        lemma_place_stays(accounts, kept[j]);
    } else {
        // the last validator is the last account, which does not occur earlier
        assert(r[j] == a);
        let is_a = is_address(a);
        lemma_first_where(earlier, is_a, n - 1);
        if first_where(earlier, is_a, n - 1) < n - 1 {
            assert(earlier.contains(earlier[first_where(earlier, is_a, n - 1)]));
        }
        lemma_first_where_prefix(accounts, earlier, is_a, n - 1);
        assert(first_place(accounts, a) == n - 1);
        if i < j {
            lemma_managed_order(earlier, validators, i, i);
            lemma_place_stays(accounts, kept[i]);
        }
    }
}

/// An address that occurs before the last account first occurs at the same
/// place whether or not the last account is looked at.
pub proof fn lemma_place_stays(accounts: Seq<AddressView>, x: AddressView)
    requires
        accounts.len() > 0,
        first_place(accounts.drop_last(), x) < accounts.len() - 1,
    ensures
        first_place(accounts, x) == first_place(accounts.drop_last(), x),
{
    let is_x = is_address(x);
    lemma_first_where_prefix(accounts, accounts.drop_last(), is_x, accounts.len() - 1);
}

/// Parses a list of address texts.
pub fn parse_addresses(network: Network, texts: &Vec<String>) -> (r: Result<
    Vec<Address>,
    AgentError,
>)
    ensures
        match decoded_all(network.is_testnet(), texts.deep_view()) {
            Some(all) => r matches Ok(v) && v.deep_view() == all,
            None => r == Err::<Vec<Address>, AgentError>(AgentError::AddressConversion),
        },
{
    let ghost testnet = network.is_testnet();
    let ghost t = texts.deep_view();
    let mut out: Vec<Address> = Vec::new();
    let mut i: usize = 0;
    while i < texts.len()
        invariant
            i <= texts.len(),
            t == texts.deep_view(),
            testnet == network.is_testnet(),
            out.len() == i,
            forall|k: int|
                0 <= k < i ==> decoded_address(testnet, #[trigger] t[k]) == Some(
                    out.deep_view()[k],
                ),
        decreases texts.len() - i,
    {
        assert(t[i as int] == texts[i as int]@);
        match Address::from_text(network, texts[i].as_str()) {
            Ok(a) => {
                let ghost before = out.deep_view();
                out.push(a);
                assert(out.deep_view() =~= before.push(a@));
            },
            Err(_) => {
                return Err(AgentError::AddressConversion);
            },
        }
        i += 1;
    }
    assert(out.deep_view() =~= decoded_all(testnet, t).unwrap());
    Ok(out)
}

/// The validators this agent acts for: the configured accounts of the child
/// subnet that the parent lists as validators of it, each once, in
/// configuration order.  `validator_set` holds the address texts the parent
/// reported, if it reported a set at all.  A text that is not an address is
/// an `AddressConversion` failure.
pub fn get_validators(
    network: Network,
    child_subnet_accounts: &Vec<Address>,
    validator_set: &Option<Vec<String>>,
) -> (r: Result<Vec<Address>, AgentError>)
    ensures
        match validator_set {
            None => r matches Ok(v) && v.deep_view() == Seq::<AddressView>::empty(),
            Some(texts) => match decoded_all(network.is_testnet(), texts.deep_view()) {
                Some(all) => r matches Ok(v) && v.deep_view() == managed_validators(
                    child_subnet_accounts.deep_view(),
                    all,
                ) && v.deep_view().no_duplicates() && (forall|x: AddressView| #[trigger]
                    v.deep_view().contains(x) <==> child_subnet_accounts.deep_view().contains(x)
                        && all.contains(x)),
                None => r == Err::<Vec<Address>, AgentError>(AgentError::AddressConversion),
            },
        },
{
    let texts = match validator_set {
        None => {
            let v: Vec<Address> = Vec::new();
            assert(v.deep_view() =~= Seq::<AddressView>::empty());
            return Ok(v);
        },
        Some(texts) => texts,
    };
    let set = match parse_addresses(network, texts) {
        Ok(set) => set,
        Err(e) => {
            return Err(e);
        },
    };
    let ghost accounts = child_subnet_accounts.deep_view();
    let ghost listed = set.deep_view();
    let mut out: Vec<Address> = Vec::new();
    let mut i: usize = 0;
    assert(accounts.take(0) =~= Seq::<AddressView>::empty());
    while i < child_subnet_accounts.len()
        invariant
            i <= child_subnet_accounts.len(),
            accounts == child_subnet_accounts.deep_view(),
            listed == set.deep_view(),
            out.deep_view() == managed_validators(accounts.take(i as int), listed),
        decreases child_subnet_accounts.len() - i,
    {
        let account = &child_subnet_accounts[i];
        proof {
            assert(accounts.take(i + 1).drop_last() =~= accounts.take(i as int));
            assert(accounts.take(i + 1).last() == account@);
            lemma_managed_validators(accounts.take(i as int), listed);
        }
        if contains_address(&set, account) && !contains_address(&out, account) {
            let ghost before = out.deep_view();
            out.push(account.clone());
            assert(out.deep_view() =~= before.push(account@));
        }
        i += 1;
    }
    proof {
        assert(accounts.take(accounts.len() as int) =~= accounts);
        lemma_managed_validators(accounts, listed);
    }
    Ok(out)
}

/// Whether the supervisor is at work, asleep between rounds, or gone.
#[derive(Clone, Copy, Debug, PartialEq, Eq, Structural)]
pub enum SupervisorPhase {
    Running,
    Sleeping,
    Exited,
}

/// What the supervisor is told.
#[derive(Clone, Copy, Debug, PartialEq, Eq, Structural)]
pub enum SupervisorEvent {
    /// The chain's answer to the last action of the turn in progress.
    Turn { event: AttemptEvent },
    /// The pause between two rounds is over.
    Woke,
    /// The supervisor was asked to stop.
    Shutdown,
}

/// What the supervisor asks for.
#[derive(Clone, Copy, Debug, PartialEq, Eq, Structural)]
pub enum SupervisorAction {
    /// Perform `action` on behalf of the validator at position `validator`.
    Turn { validator: usize, direction: Direction, action: AttemptAction },
    /// Pause for so many seconds, unless interrupted.
    Sleep { seconds: u64 },
    /// A stop was requested while a submission is in flight: keep waiting
    /// for its receipt.
    AwaitReceipt,
    /// The supervisor is done, cleanly or with the failure that ended it.
    Exit { failure: Option<AgentError> },
}

/// The mathematical content of a pair supervisor.
pub struct SupervisorView {
    pub validators: Seq<AddressView>,
    pub bottom_up: int,
    pub top_down: int,
    pub validator: int,
    pub direction: Direction,
    pub attempt: AttemptView,
    pub stopping: bool,
    pub phase: SupervisorPhase,
}

impl SupervisorView {
    /// The period that governs a direction.
    pub open spec fn period_of(self, direction: Direction) -> int {
        match direction {
            Direction::BottomUp => self.bottom_up,
            Direction::TopDown => self.top_down,
        }
    }

    pub open spec fn wf(self) -> bool {
        &&& self.bottom_up > 0
        &&& self.top_down > 0
        &&& self.attempt.wf()
        &&& self.attempt.period == self.period_of(self.direction)
        &&& 0 <= self.validator
        &&& self.validators.len() <= usize::MAX
        &&& self.phase != SupervisorPhase::Exited ==> self.validator < self.validators.len()
        &&& self.stopping ==> self.phase == SupervisorPhase::Running
            && self.attempt.phase is Submitting
    }

    /// The supervisor after it has left.
    pub open spec fn exited(self) -> SupervisorView {
        SupervisorView { phase: SupervisorPhase::Exited, stopping: false, ..self }
    }

    /// The supervisor at the start of the turn of `validator` in `direction`.
    pub open spec fn at_turn(self, validator: int, direction: Direction) -> (
        SupervisorView,
        SupervisorAction,
    ) {
        (
            SupervisorView {
                validator,
                direction,
                attempt: fresh(self.period_of(direction)),
                phase: SupervisorPhase::Running,
                ..self
            },
            SupervisorAction::Turn {
                validator: validator as usize,
                direction,
                action: AttemptAction::Observe,
            },
        )
    }

    /// What follows a finished turn: the same validator's turn in the other
    /// direction, then the next validator, then a pause.
    pub open spec fn advance(self) -> (SupervisorView, SupervisorAction) {
        match self.direction {
            Direction::BottomUp => self.at_turn(self.validator, Direction::TopDown),
            Direction::TopDown => if self.validator + 1 < self.validators.len() {
                self.at_turn(self.validator + 1, Direction::BottomUp)
            } else {
                (
                    SupervisorView { phase: SupervisorPhase::Sleeping, ..self },
                    SupervisorAction::Sleep { seconds: CHAIN_HEAD_POLL_INTERVAL },
                )
            },
        }
    }

    /// The transition function of the supervisor.
    pub open spec fn step(self, event: SupervisorEvent) -> (SupervisorView, SupervisorAction) {
        match (self.phase, event) {
            (SupervisorPhase::Exited, _) => (self, SupervisorAction::Exit { failure: None }),
            (SupervisorPhase::Sleeping, SupervisorEvent::Woke) => self.at_turn(
                0,
                Direction::BottomUp,
            ),
            (SupervisorPhase::Sleeping, SupervisorEvent::Shutdown) => (
                self.exited(),
                SupervisorAction::Exit { failure: None },
            ),
            (SupervisorPhase::Running, SupervisorEvent::Shutdown) => {
                if self.attempt.phase is Submitting {
                    (SupervisorView { stopping: true, ..self }, SupervisorAction::AwaitReceipt)
                } else {
                    (self.exited(), SupervisorAction::Exit { failure: None })
                }
            },
            (SupervisorPhase::Running, SupervisorEvent::Turn { event }) => {
                let (attempt, action) = self.attempt.step(self.direction, event);
                match action {
                    AttemptAction::Fail { error } => (
                        self.exited(),
                        SupervisorAction::Exit { failure: Some(error) },
                    ),
                    AttemptAction::Done => if self.stopping {
                        (self.exited(), SupervisorAction::Exit { failure: None })
                    } else {
                        self.advance()
                    },
                    _ => if self.stopping {
                        (self.exited(), SupervisorAction::Exit { failure: None })
                    } else {
                        (
                            SupervisorView { attempt, ..self },
                            SupervisorAction::Turn {
                                validator: self.validator as usize,
                                direction: self.direction,
                                action,
                            },
                        )
                    },
                }
            },
            _ => (self.exited(), SupervisorAction::Exit { failure: Some(AgentError::Fatal) }),
        }
    }

    /// The supervisor for a set of validators, and its first action: the
    /// first validator's bottom-up turn, or a clean exit when the pair has no
    /// validator to act for.
    pub open spec fn start(validators: Seq<AddressView>, bottom_up: int, top_down: int) -> (
        SupervisorView,
        SupervisorAction,
    ) {
        let idle = SupervisorView {
            validators,
            bottom_up,
            top_down,
            validator: 0,
            direction: Direction::BottomUp,
            attempt: fresh(bottom_up),
            stopping: false,
            phase: SupervisorPhase::Exited,
        };
        if validators.len() == 0 {
            (idle, SupervisorAction::Exit { failure: None })
        } else {
            idle.at_turn(0, Direction::BottomUp)
        }
    }
}

impl SupervisorView {
    /// The place of the turn in progress within a round: validators in
    /// order, bottom-up before top-down.
    pub open spec fn slot(self) -> int {
        2 * self.validator + match self.direction {
            Direction::BottomUp => 0int,
            Direction::TopDown => 1int,
        }
    }
}

/// A round visits the turns in a fixed order: after the turn at one place
/// comes the turn at the next place, and after the last turn the pause.
/// The round begins at the first place.
pub proof fn lemma_round_order(s: SupervisorView)
    requires
        s.wf(),
        s.phase == SupervisorPhase::Running,
    ensures
        s.slot() + 1 < 2 * s.validators.len() ==> s.advance().0.phase == SupervisorPhase::Running
            && s.advance().0.slot() == s.slot() + 1 && s.advance().1 == (SupervisorAction::Turn {
            validator: s.advance().0.validator as usize,
            direction: s.advance().0.direction,
            action: AttemptAction::Observe,
        }),
        s.slot() + 1 >= 2 * s.validators.len() ==> s.advance().0.phase
            == SupervisorPhase::Sleeping && s.advance().1 == (SupervisorAction::Sleep {
            seconds: CHAIN_HEAD_POLL_INTERVAL,
        }),
        s.at_turn(0, Direction::BottomUp).0.slot() == 0,
{
}

/// A step keeps the supervisor well formed.
pub proof fn lemma_supervisor_step_wf(s: SupervisorView, event: SupervisorEvent)
    requires
        s.wf(),
    ensures
        s.step(event).0.wf(),
        s.step(event).0.validators == s.validators,
{
    match (s.phase, event) {
        (SupervisorPhase::Running, SupervisorEvent::Turn { event }) => {
            lemma_step_wf(s.attempt, s.direction, event);
        },
        _ => {},
    }
}

/// Once a stop is requested no new work begins: the supervisor never again
/// asks to query, build or submit; it only waits for the receipt of the
/// submission in flight and then leaves.
pub proof fn lemma_no_new_work_after_shutdown(s: SupervisorView, event: SupervisorEvent)
    requires
        s.wf(),
        s.stopping || event == SupervisorEvent::Shutdown,
    ensures
        !(s.step(event).1 is Turn),
        s.step(event).1 is Exit || (s.step(event).1 is AwaitReceipt
            && s.step(event).0.attempt.phase is Submitting),
{
}

/// A turn that fails without ending the pair does not hold up the others:
/// the supervisor moves on to the next turn or to its pause.
pub proof fn lemma_failure_does_not_block(s: SupervisorView, error: AgentError)
    requires
        s.wf(),
        s.phase == SupervisorPhase::Running,
        !s.stopping,
        !(s.attempt.phase is Finished),
        !(s.attempt.phase is Dead),
    ensures
        ({
            let r = s.step(SupervisorEvent::Turn { event: AttemptEvent::Failed { error } });
            if error.spec_stops_pair() {
                r.1 == (SupervisorAction::Exit { failure: Some(error) })
            } else {
                r == s.advance()
            }
        }),
{
}

/// The supervisor of one (child, parent) pair.
#[derive(Debug)]
pub struct PairSupervisor {
    validators: Vec<Address>,
    bottom_up: CheckpointPeriod,
    top_down: CheckpointPeriod,
    validator: usize,
    direction: Direction,
    attempt: Attempt,
    stopping: bool,
    phase: SupervisorPhase,
}

impl View for PairSupervisor {
    type V = SupervisorView;

    closed spec fn view(&self) -> SupervisorView {
        SupervisorView {
            validators: self.validators.deep_view(),
            bottom_up: self.bottom_up@,
            top_down: self.top_down@,
            validator: self.validator as int,
            direction: self.direction,
            attempt: self.attempt@,
            stopping: self.stopping,
            phase: self.phase,
        }
    }
}

impl PairSupervisor {
    #[verifier::type_invariant]
    spec fn inv(self) -> bool {
        self@.wf()
    }

    /// Sets up the supervisor for the validators found by `get_validators`
    /// and returns its first action.  Without validators the pair has no
    /// work and the supervisor leaves at once.
    pub fn new(validators: Vec<Address>, bottom_up: CheckpointPeriod, top_down: CheckpointPeriod) -> (r:
        (Self, SupervisorAction))
        ensures
            (r.0@, r.1) == SupervisorView::start(validators.deep_view(), bottom_up@, top_down@),
            r.0@.wf(),
    {
        let p = bottom_up.epochs();
        let q = top_down.epochs();
        let empty = validators.len() == 0;
        assert(validators.deep_view().len() == validators.len());
        let idle = PairSupervisor {
            validators,
            bottom_up,
            top_down,
            validator: 0,
            direction: Direction::BottomUp,
            attempt: Attempt::new(bottom_up),
            stopping: false,
            phase: SupervisorPhase::Exited,
        };
        if empty {
            (idle, SupervisorAction::Exit { failure: None })
        } else {
            idle.at_turn(0, Direction::BottomUp)
        }
    }

    /// Whether the supervisor is running, sleeping or gone.
    pub fn phase(&self) -> (r: SupervisorPhase)
        ensures
            r == self@.phase,
    {
        self.phase
    }

    /// The validators the supervisor acts for.
    pub fn validators(&self) -> (r: &Vec<Address>)
        ensures
            r.deep_view() == self@.validators,
    {
        &self.validators
    }

    /// The turn in progress.
    pub fn attempt(&self) -> (r: &Attempt)
        ensures
            r@ == self@.attempt,
    {
        &self.attempt
    }

    fn exited(self) -> (r: Self)
        ensures
            r@ == self@.exited(),
    {
        proof {
            use_type_invariant(&self);
        }
        PairSupervisor { phase: SupervisorPhase::Exited, stopping: false, ..self }
    }

    fn at_turn(self, validator: usize, direction: Direction) -> (r: (Self, SupervisorAction))
        requires
            validator < self@.validators.len(),
            !self@.stopping,
            self@.bottom_up > 0,
            self@.top_down > 0,
            self@.validators.len() <= usize::MAX,
        ensures
            (r.0@, r.1) == self@.at_turn(validator as int, direction),
    {
        let period = match direction {
            Direction::BottomUp => self.bottom_up,
            Direction::TopDown => self.top_down,
        };
        (
            PairSupervisor {
                validator,
                direction,
                attempt: Attempt::new(period),
                phase: SupervisorPhase::Running,
                ..self
            },
            SupervisorAction::Turn { validator, direction, action: AttemptAction::Observe },
        )
    }

    fn advance(self) -> (r: (Self, SupervisorAction))
        requires
            self@.phase == SupervisorPhase::Running,
            !self@.stopping,
        ensures
            (r.0@, r.1) == self@.advance(),
    {
        proof {
            use_type_invariant(&self);
        }
        assert(self.validators.deep_view().len() == self.validators.len());
        match self.direction {
            Direction::BottomUp => {
                let v = self.validator;
                self.at_turn(v, Direction::TopDown)
            },
            Direction::TopDown => {
                if self.validator + 1 < self.validators.len() {
                    let v = self.validator + 1;
                    self.at_turn(v, Direction::BottomUp)
                } else {
                    (
                        PairSupervisor { phase: SupervisorPhase::Sleeping, ..self },
                        SupervisorAction::Sleep { seconds: CHAIN_HEAD_POLL_INTERVAL },
                    )
                }
            },
        }
    }
}

/// Advances the supervisor of a pair by one event and says what to do next.
///
/// The supervisor walks through the validators in configuration order and
/// gives each a bottom-up and a top-down turn, pauses, and starts over.  A
/// turn that fails in a way that does not end the pair is skipped.  After a
/// stop request it starts nothing new: it waits for the receipt of a
/// submission that is in flight, if there is one, and leaves.
pub fn manage_subnet(supervisor: PairSupervisor, event: SupervisorEvent) -> (r: (
    PairSupervisor,
    SupervisorAction,
))
    ensures
        (r.0@, r.1) == supervisor@.step(event),
        r.0@.wf(),
{
    proof {
        use_type_invariant(&supervisor);
        lemma_supervisor_step_wf(supervisor@, event);
    }
    assert(supervisor.validators.deep_view().len() == supervisor.validators.len());
    match (supervisor.phase, event) {
        (SupervisorPhase::Exited, _) => (supervisor, SupervisorAction::Exit { failure: None }),
        (SupervisorPhase::Sleeping, SupervisorEvent::Woke) => supervisor.at_turn(
            0,
            Direction::BottomUp,
        ),
        (SupervisorPhase::Sleeping, SupervisorEvent::Shutdown) => (
            supervisor.exited(),
            SupervisorAction::Exit { failure: None },
        ),
        (SupervisorPhase::Running, SupervisorEvent::Shutdown) => {
            let in_flight = match supervisor.attempt.phase() {
                Phase::Submitting { .. } => true,
                _ => false,
            };
            if in_flight {
                (PairSupervisor { stopping: true, ..supervisor }, SupervisorAction::AwaitReceipt)
            } else {
                (supervisor.exited(), SupervisorAction::Exit { failure: None })
            }
        },
        (SupervisorPhase::Running, SupervisorEvent::Turn { event }) => {
            let (attempt, action) = match supervisor.direction {
                Direction::BottomUp => manage_bottomup_checkpoints(supervisor.attempt, event),
                Direction::TopDown => manage_topdown_checkpoints(supervisor.attempt, event),
            };
            match action {
                AttemptAction::Fail { error } => (
                    supervisor.exited(),
                    SupervisorAction::Exit { failure: Some(error) },
                ),
                AttemptAction::Done => {
                    if supervisor.stopping {
                        (supervisor.exited(), SupervisorAction::Exit { failure: None })
                    } else {
                        supervisor.advance()
                    }
                },
                _ => {
                    if supervisor.stopping {
                        (supervisor.exited(), SupervisorAction::Exit { failure: None })
                    } else {
                        let validator = supervisor.validator;
                        let direction = supervisor.direction;
                        (
                            PairSupervisor { attempt, ..supervisor },
                            SupervisorAction::Turn { validator, direction, action },
                        )
                    }
                },
            }
        },
        _ => (
            supervisor.exited(),
            SupervisorAction::Exit { failure: Some(AgentError::Fatal) },
        ),
    }
}

} // verus!
