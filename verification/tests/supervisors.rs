use ipc_agent::address::{Address, Network};
use ipc_agent::attempt::{AttemptAction, AttemptEvent, Direction, Phase};
use ipc_agent::epoch::CheckpointPeriod;
use ipc_agent::error::AgentError;
use ipc_agent::supervisor::{
    get_validators, manage_subnet, parse_addresses, PairSupervisor, SupervisorAction,
    SupervisorEvent, SupervisorPhase, CHAIN_HEAD_POLL_INTERVAL,
};

fn period(p: i64) -> CheckpointPeriod {
    CheckpointPeriod::new(p).unwrap()
}

fn turn(event: AttemptEvent) -> SupervisorEvent {
    SupervisorEvent::Turn { event }
}

fn observe(validator: usize, direction: Direction) -> SupervisorAction {
    SupervisorAction::Turn { validator, direction, action: AttemptAction::Observe }
}

fn two_validators() -> (PairSupervisor, SupervisorAction) {
    PairSupervisor::new(vec![Address::new_id(100), Address::new_id(101)], period(10), period(5))
}

#[test]
fn validators_are_configured_accounts_in_the_set() {
    let accounts = vec![Address::new_id(103), Address::new_id(100), Address::new_id(101)];
    let set = Some(vec!["t0101".to_string(), "t0100".to_string(), "t0999".to_string()]);
    let got = get_validators(Network::Testnet, &accounts, &set).unwrap();
    assert_eq!(got, vec![Address::new_id(100), Address::new_id(101)]);
}

#[test]
fn repeated_account_is_one_validator() {
    let accounts = vec![Address::new_id(1), Address::new_id(1)];
    let set = Some(vec!["t01".to_string()]);
    assert_eq!(get_validators(Network::Testnet, &accounts, &set), Ok(vec![Address::new_id(1)]));
    let accounts =
        vec![Address::new_id(2), Address::new_id(1), Address::new_id(2), Address::new_id(3), Address::new_id(1)];
    let set = Some(vec!["t01".to_string(), "t02".to_string(), "t02".to_string()]);
    assert_eq!(
        get_validators(Network::Testnet, &accounts, &set),
        Ok(vec![Address::new_id(2), Address::new_id(1)])
    );
}

#[test]
fn repeated_account_gets_one_turn_per_round() {
    let accounts = vec![Address::new_id(1), Address::new_id(1)];
    let set = Some(vec!["t01".to_string()]);
    let validators = get_validators(Network::Testnet, &accounts, &set).unwrap();
    let (s, act) = PairSupervisor::new(validators, period(10), period(10));
    assert_eq!(act, observe(0, Direction::BottomUp));
    let idle = AttemptEvent::Heads { last_executed: 0, current: 3 };
    let (s, act) = manage_subnet(s, turn(idle));
    assert_eq!(act, observe(0, Direction::TopDown));
    let (_, act) = manage_subnet(s, turn(idle));
    assert_eq!(act, SupervisorAction::Sleep { seconds: 10 });
}

#[test]
fn validators_without_a_set_are_none() {
    let accounts = vec![Address::new_id(100)];
    assert_eq!(get_validators(Network::Testnet, &accounts, &None), Ok(vec![]));
    assert_eq!(get_validators(Network::Testnet, &accounts, &Some(vec![])), Ok(vec![]));
    assert_eq!(
        get_validators(Network::Testnet, &vec![], &Some(vec!["t0100".to_string()])),
        Ok(vec![])
    );
}

#[test]
fn validators_with_unreadable_address_fail() {
    let accounts = vec![Address::new_id(100)];
    let set = Some(vec!["t0100".to_string(), "bogus".to_string()]);
    assert_eq!(
        get_validators(Network::Testnet, &accounts, &set),
        Err(AgentError::AddressConversion)
    );
    // an address of the other network is no address here
    let set = Some(vec!["f0100".to_string()]);
    assert_eq!(
        get_validators(Network::Testnet, &accounts, &set),
        Err(AgentError::AddressConversion)
    );
}

#[test]
fn addresses_parse_in_order() {
    let texts = vec!["f01".to_string(), "f064".to_string()];
    assert_eq!(
        parse_addresses(Network::Mainnet, &texts),
        Ok(vec![Address::new_id(1), Address::new_id(64)])
    );
    assert_eq!(parse_addresses(Network::Mainnet, &vec![]), Ok(vec![]));
}

#[test]
fn pair_without_validators_exits_cleanly() {
    let (s, act) = PairSupervisor::new(vec![], period(10), period(10));
    assert_eq!(act, SupervisorAction::Exit { failure: None });
    assert_eq!(s.phase(), SupervisorPhase::Exited);
    let (s, act) = manage_subnet(s, SupervisorEvent::Woke);
    assert_eq!(act, SupervisorAction::Exit { failure: None });
    assert_eq!(s.phase(), SupervisorPhase::Exited);
}

#[test]
fn round_visits_validators_in_order_and_both_directions() {
    let (s, act) = two_validators();
    assert_eq!(act, observe(0, Direction::BottomUp));
    assert_eq!(s.phase(), SupervisorPhase::Running);
    assert_eq!(s.validators().len(), 2);
    assert_eq!(s.attempt().checkpoint_period().epochs(), 10);
    let idle = AttemptEvent::Heads { last_executed: 0, current: 3 };
    let (s, act) = manage_subnet(s, turn(idle));
    assert_eq!(act, observe(0, Direction::TopDown));
    assert_eq!(s.attempt().checkpoint_period().epochs(), 5);
    let (s, act) = manage_subnet(s, turn(idle));
    assert_eq!(act, observe(1, Direction::BottomUp));
    let (s, act) = manage_subnet(s, turn(idle));
    assert_eq!(act, observe(1, Direction::TopDown));
    let (s, act) = manage_subnet(s, turn(idle));
    assert_eq!(act, SupervisorAction::Sleep { seconds: 10 });
    assert_eq!(CHAIN_HEAD_POLL_INTERVAL, 10);
    assert_eq!(s.phase(), SupervisorPhase::Sleeping);
    let (s, act) = manage_subnet(s, SupervisorEvent::Woke);
    assert_eq!(act, observe(0, Direction::BottomUp));
    assert_eq!(s.phase(), SupervisorPhase::Running);
}

#[test]
fn single_pair_single_validator_one_cycle() {
    let (s, act) = PairSupervisor::new(vec![Address::new_id(100)], period(10), period(10));
    assert_eq!(act, observe(0, Direction::BottomUp));
    let (s, act) = manage_subnet(s, turn(AttemptEvent::Heads { last_executed: 10, current: 25 }));
    assert_eq!(
        act,
        SupervisorAction::Turn {
            validator: 0,
            direction: Direction::BottomUp,
            action: AttemptAction::QueryVote { epoch: 20 }
        }
    );
    let (s, act) = manage_subnet(s, turn(AttemptEvent::Vote { voted: false }));
    assert_eq!(
        act,
        SupervisorAction::Turn {
            validator: 0,
            direction: Direction::BottomUp,
            action: AttemptAction::Build { epoch: 20 }
        }
    );
    let (s, act) = manage_subnet(s, turn(AttemptEvent::Built));
    assert_eq!(
        act,
        SupervisorAction::Turn {
            validator: 0,
            direction: Direction::BottomUp,
            action: AttemptAction::Submit { epoch: 20 }
        }
    );
    assert_eq!(s.attempt().phase(), Phase::Submitting { epoch: 20 });
    let (s, act) = manage_subnet(s, turn(AttemptEvent::Receipt));
    assert_eq!(act, observe(0, Direction::TopDown));
    let (s, act) = manage_subnet(s, turn(AttemptEvent::Heads { last_executed: 20, current: 25 }));
    assert_eq!(act, SupervisorAction::Sleep { seconds: 10 });
    let (s, act) = manage_subnet(s, SupervisorEvent::Woke);
    assert_eq!(act, observe(0, Direction::BottomUp));
    let (s, act) = manage_subnet(s, turn(AttemptEvent::Heads { last_executed: 20, current: 35 }));
    assert_eq!(
        act,
        SupervisorAction::Turn {
            validator: 0,
            direction: Direction::BottomUp,
            action: AttemptAction::QueryVote { epoch: 30 }
        }
    );
    let (_, act) = manage_subnet(s, turn(AttemptEvent::Vote { voted: false }));
    assert_eq!(
        act,
        SupervisorAction::Turn {
            validator: 0,
            direction: Direction::BottomUp,
            action: AttemptAction::Build { epoch: 30 }
        }
    );
}

#[test]
fn duplicate_suppression_skips_and_sleeps() {
    let (s, _) = PairSupervisor::new(vec![Address::new_id(100)], period(10), period(10));
    let (s, _) = manage_subnet(s, turn(AttemptEvent::Heads { last_executed: 10, current: 25 }));
    let (s, act) = manage_subnet(s, turn(AttemptEvent::Vote { voted: true }));
    assert_eq!(act, observe(0, Direction::TopDown));
    let (s, act) = manage_subnet(s, turn(AttemptEvent::Heads { last_executed: 20, current: 25 }));
    assert_eq!(act, SupervisorAction::Sleep { seconds: 10 });
    let (_, act) = manage_subnet(s, SupervisorEvent::Woke);
    assert_eq!(act, observe(0, Direction::BottomUp));
}

#[test]
fn one_validators_failure_does_not_block_the_next() {
    let (s, _) = two_validators();
    let (s, act) = manage_subnet(s, turn(AttemptEvent::Failed { error: AgentError::Transient }));
    assert_eq!(act, observe(0, Direction::TopDown));
    let (s, act) = manage_subnet(s, turn(AttemptEvent::Failed { error: AgentError::MessageGap }));
    assert_eq!(act, observe(1, Direction::BottomUp));
    assert_eq!(s.phase(), SupervisorPhase::Running);
}

#[test]
fn grave_failure_ends_the_supervisor() {
    for error in [AgentError::Fatal, AgentError::Configuration, AgentError::AddressConversion] {
        let (s, _) = two_validators();
        let (s, act) = manage_subnet(s, turn(AttemptEvent::Failed { error }));
        assert_eq!(act, SupervisorAction::Exit { failure: Some(error) });
        assert_eq!(s.phase(), SupervisorPhase::Exited);
    }
}

#[test]
fn shutdown_while_idle_exits_at_once() {
    let (s, _) = two_validators();
    let (s, act) = manage_subnet(s, SupervisorEvent::Shutdown);
    assert_eq!(act, SupervisorAction::Exit { failure: None });
    assert_eq!(s.phase(), SupervisorPhase::Exited);
}

#[test]
fn shutdown_while_sleeping_exits_at_once() {
    let (s, _) = PairSupervisor::new(vec![Address::new_id(100)], period(10), period(10));
    let idle = AttemptEvent::Heads { last_executed: 0, current: 3 };
    let (s, _) = manage_subnet(s, turn(idle));
    let (s, act) = manage_subnet(s, turn(idle));
    assert_eq!(act, SupervisorAction::Sleep { seconds: 10 });
    let (s, act) = manage_subnet(s, SupervisorEvent::Shutdown);
    assert_eq!(act, SupervisorAction::Exit { failure: None });
    assert_eq!(s.phase(), SupervisorPhase::Exited);
}

#[test]
fn shutdown_before_broadcast_starts_no_submission() {
    let (s, _) = two_validators();
    let (s, _) = manage_subnet(s, turn(AttemptEvent::Heads { last_executed: 0, current: 10 }));
    let (s, act) = manage_subnet(s, turn(AttemptEvent::Vote { voted: false }));
    assert_eq!(
        act,
        SupervisorAction::Turn {
            validator: 0,
            direction: Direction::BottomUp,
            action: AttemptAction::Build { epoch: 10 }
        }
    );
    let (s, act) = manage_subnet(s, SupervisorEvent::Shutdown);
    assert_eq!(act, SupervisorAction::Exit { failure: None });
    assert_eq!(s.phase(), SupervisorPhase::Exited);
}

#[test]
fn shutdown_in_flight_waits_for_the_receipt() {
    let (s, _) = two_validators();
    let (s, _) = manage_subnet(s, turn(AttemptEvent::Heads { last_executed: 0, current: 10 }));
    let (s, _) = manage_subnet(s, turn(AttemptEvent::Vote { voted: false }));
    let (s, _) = manage_subnet(s, turn(AttemptEvent::Built));
    let (s, act) = manage_subnet(s, SupervisorEvent::Shutdown);
    assert_eq!(act, SupervisorAction::AwaitReceipt);
    assert_eq!(s.phase(), SupervisorPhase::Running);
    let (s, act) = manage_subnet(s, turn(AttemptEvent::Receipt));
    assert_eq!(act, SupervisorAction::Exit { failure: None });
    assert_eq!(s.phase(), SupervisorPhase::Exited);
}

#[test]
fn shutdown_in_flight_top_down_does_not_look_again() {
    let (s, _) = PairSupervisor::new(vec![Address::new_id(100)], period(10), period(10));
    let (s, act) = manage_subnet(s, turn(AttemptEvent::Heads { last_executed: 0, current: 3 }));
    assert_eq!(act, observe(0, Direction::TopDown));
    let (s, _) = manage_subnet(s, turn(AttemptEvent::Heads { last_executed: 0, current: 10 }));
    let (s, _) = manage_subnet(s, turn(AttemptEvent::Vote { voted: false }));
    let (s, _) = manage_subnet(s, turn(AttemptEvent::Built));
    let (s, act) = manage_subnet(s, SupervisorEvent::Shutdown);
    assert_eq!(act, SupervisorAction::AwaitReceipt);
    let (_, act) = manage_subnet(s, turn(AttemptEvent::Receipt));
    assert_eq!(act, SupervisorAction::Exit { failure: None });
}

#[test]
fn shutdown_in_flight_with_lost_receipt_exits() {
    let (s, _) = two_validators();
    let (s, _) = manage_subnet(s, turn(AttemptEvent::Heads { last_executed: 0, current: 10 }));
    let (s, _) = manage_subnet(s, turn(AttemptEvent::Vote { voted: false }));
    let (s, _) = manage_subnet(s, turn(AttemptEvent::Built));
    let (s, _) = manage_subnet(s, SupervisorEvent::Shutdown);
    let (_, act) =
        manage_subnet(s, turn(AttemptEvent::Failed { error: AgentError::ReceiptUnknown }));
    assert_eq!(act, SupervisorAction::Exit { failure: None });
}

#[test]
fn events_out_of_place_are_fatal() {
    let (s, _) = two_validators();
    let (s, act) = manage_subnet(s, SupervisorEvent::Woke);
    assert_eq!(act, SupervisorAction::Exit { failure: Some(AgentError::Fatal) });
    assert_eq!(s.phase(), SupervisorPhase::Exited);
}
