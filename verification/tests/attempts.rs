use ipc_agent::attempt::{
    manage_bottomup_checkpoints, manage_topdown_checkpoints, Attempt, AttemptAction, AttemptEvent,
    Direction, Phase,
};
use ipc_agent::epoch::CheckpointPeriod;
use ipc_agent::error::AgentError;

fn fresh(p: i64) -> Attempt {
    Attempt::new(CheckpointPeriod::new(p).unwrap())
}

#[test]
fn single_cycle_builds_and_submits() {
    // period 10, child head 25, epoch 10 already executed
    let a = fresh(10);
    assert_eq!(a.phase(), Phase::Observing);
    let (a, act) = a.step(Direction::BottomUp, AttemptEvent::Heads { last_executed: 10, current: 25 });
    assert_eq!(act, AttemptAction::QueryVote { epoch: 20 });
    let (a, act) = a.step(Direction::BottomUp, AttemptEvent::Vote { voted: false });
    assert_eq!(act, AttemptAction::Build { epoch: 20 });
    assert_eq!(a.phase(), Phase::Building { epoch: 20 });
    let (a, act) = a.step(Direction::BottomUp, AttemptEvent::Built);
    assert_eq!(act, AttemptAction::Submit { epoch: 20 });
    assert_eq!(a.phase(), Phase::Submitting { epoch: 20 });
    let (a, act) = a.step(Direction::BottomUp, AttemptEvent::Receipt);
    assert_eq!(act, AttemptAction::Done);
    assert_eq!(a.phase(), Phase::Finished);

    // next tick: head 35, epoch 20 executed
    let b = fresh(10);
    let (b, act) = b.step(Direction::BottomUp, AttemptEvent::Heads { last_executed: 20, current: 35 });
    assert_eq!(act, AttemptAction::QueryVote { epoch: 30 });
    let (_, act) = b.step(Direction::BottomUp, AttemptEvent::Vote { voted: false });
    assert_eq!(act, AttemptAction::Build { epoch: 30 });
}

#[test]
fn already_voted_skips_the_build() {
    let a = fresh(10);
    let (a, act) = a.step(Direction::BottomUp, AttemptEvent::Heads { last_executed: 10, current: 25 });
    assert_eq!(act, AttemptAction::QueryVote { epoch: 20 });
    let (a, act) = a.step(Direction::BottomUp, AttemptEvent::Vote { voted: true });
    assert_eq!(act, AttemptAction::Done);
    assert_eq!(a.phase(), Phase::Finished);
}

#[test]
fn voted_slot_moves_probe_to_next_slot() {
    let a = fresh(10);
    let (a, act) = a.step(Direction::TopDown, AttemptEvent::Heads { last_executed: 0, current: 25 });
    assert_eq!(act, AttemptAction::QueryVote { epoch: 10 });
    assert_eq!(a.last_executed_epoch(), 0);
    assert_eq!(a.current_epoch(), 25);
    assert_eq!(a.checkpoint_period().epochs(), 10);
    let (a, act) = a.step(Direction::TopDown, AttemptEvent::Vote { voted: true });
    assert_eq!(act, AttemptAction::QueryVote { epoch: 20 });
    let (_, act) = a.step(Direction::TopDown, AttemptEvent::Vote { voted: false });
    assert_eq!(act, AttemptAction::Build { epoch: 20 });
}

#[test]
fn nothing_due_finishes_at_once() {
    let a = fresh(10);
    let (a, act) = a.step(Direction::BottomUp, AttemptEvent::Heads { last_executed: 20, current: 25 });
    assert_eq!(act, AttemptAction::Done);
    assert_eq!(a.phase(), Phase::Finished);
    let (a, act) =
        fresh(10).step(Direction::BottomUp, AttemptEvent::Heads { last_executed: i64::MAX, current: i64::MAX });
    assert_eq!(act, AttemptAction::Done);
    assert_eq!(a.phase(), Phase::Finished);
}

#[test]
fn lost_receipt_ends_turn_and_next_turn_asks_again() {
    let a = fresh(10);
    let (a, _) = a.step(Direction::BottomUp, AttemptEvent::Heads { last_executed: 10, current: 25 });
    let (a, _) = a.step(Direction::BottomUp, AttemptEvent::Vote { voted: false });
    let (a, _) = a.step(Direction::BottomUp, AttemptEvent::Built);
    let (a, act) =
        a.step(Direction::BottomUp, AttemptEvent::Failed { error: AgentError::ReceiptUnknown });
    assert_eq!(act, AttemptAction::Done);
    assert_eq!(a.phase(), Phase::Finished);

    // next tick, the submission did land: advance
    let b = fresh(10);
    let (b, act) = b.step(Direction::BottomUp, AttemptEvent::Heads { last_executed: 10, current: 26 });
    assert_eq!(act, AttemptAction::QueryVote { epoch: 20 });
    let (_, act) = b.step(Direction::BottomUp, AttemptEvent::Vote { voted: true });
    assert_eq!(act, AttemptAction::Done);

    // next tick, it did not: submit again
    let c = fresh(10);
    let (c, _) = c.step(Direction::BottomUp, AttemptEvent::Heads { last_executed: 10, current: 26 });
    let (c, act) = c.step(Direction::BottomUp, AttemptEvent::Vote { voted: false });
    assert_eq!(act, AttemptAction::Build { epoch: 20 });
    let (_, act) = c.step(Direction::BottomUp, AttemptEvent::Built);
    assert_eq!(act, AttemptAction::Submit { epoch: 20 });
}

#[test]
fn benign_failures_end_the_turn_only() {
    for error in [
        AgentError::Transient,
        AgentError::AlreadyVoted,
        AgentError::MessageGap,
        AgentError::ReceiptUnknown,
    ] {
        let (a, act) = fresh(10).step(Direction::TopDown, AttemptEvent::Failed { error });
        assert_eq!(act, AttemptAction::Done);
        assert_eq!(a.phase(), Phase::Finished);
    }
}

#[test]
fn grave_failures_kill_the_turn() {
    for error in [AgentError::AddressConversion, AgentError::Configuration, AgentError::Fatal] {
        let a = fresh(10);
        let (a, _) = a.step(Direction::TopDown, AttemptEvent::Heads { last_executed: 0, current: 10 });
        let (a, act) = a.step(Direction::TopDown, AttemptEvent::Failed { error });
        assert_eq!(act, AttemptAction::Fail { error });
        assert_eq!(a.phase(), Phase::Dead);
    }
}

#[test]
fn build_failure_records_error_and_retries_next_tick() {
    let a = fresh(10);
    let (a, _) = a.step(Direction::TopDown, AttemptEvent::Heads { last_executed: 0, current: 10 });
    let (a, act) = a.step(Direction::TopDown, AttemptEvent::Vote { voted: false });
    assert_eq!(act, AttemptAction::Build { epoch: 10 });
    let (a, act) = a.step(Direction::TopDown, AttemptEvent::Failed { error: AgentError::MessageGap });
    assert_eq!(act, AttemptAction::Done);
    assert_eq!(a.phase(), Phase::Finished);
}

#[test]
fn event_out_of_turn_is_fatal() {
    let (a, act) = fresh(10).step(Direction::BottomUp, AttemptEvent::Built);
    assert_eq!(act, AttemptAction::Fail { error: AgentError::Fatal });
    assert_eq!(a.phase(), Phase::Dead);
    let (_, act) = fresh(10).step(Direction::BottomUp, AttemptEvent::Vote { voted: false });
    assert_eq!(act, AttemptAction::Fail { error: AgentError::Fatal });
    let (a, _) = fresh(10).step(Direction::BottomUp, AttemptEvent::Heads { last_executed: 0, current: 5 });
    let (_, act) = a.step(Direction::BottomUp, AttemptEvent::Receipt);
    assert_eq!(act, AttemptAction::Fail { error: AgentError::Fatal });
}

#[test]
fn top_down_looks_again_after_a_receipt_once() {
    let a = fresh(10);
    let (a, _) = manage_topdown_checkpoints(a, AttemptEvent::Heads { last_executed: 0, current: 10 });
    let (a, _) = manage_topdown_checkpoints(a, AttemptEvent::Vote { voted: false });
    let (a, _) = manage_topdown_checkpoints(a, AttemptEvent::Built);
    let (a, act) = manage_topdown_checkpoints(a, AttemptEvent::Receipt);
    assert_eq!(act, AttemptAction::Observe);
    assert_eq!(a.phase(), Phase::Observing);
    let (a, act) = manage_topdown_checkpoints(a, AttemptEvent::Heads { last_executed: 10, current: 20 });
    assert_eq!(act, AttemptAction::QueryVote { epoch: 20 });
    let (a, _) = manage_topdown_checkpoints(a, AttemptEvent::Vote { voted: false });
    let (a, _) = manage_topdown_checkpoints(a, AttemptEvent::Built);
    let (a, act) = manage_topdown_checkpoints(a, AttemptEvent::Receipt);
    assert_eq!(act, AttemptAction::Done);
    assert_eq!(a.phase(), Phase::Finished);
}

#[test]
fn bottom_up_does_not_look_again() {
    let a = fresh(10);
    let (a, _) = manage_bottomup_checkpoints(a, AttemptEvent::Heads { last_executed: 0, current: 10 });
    let (a, _) = manage_bottomup_checkpoints(a, AttemptEvent::Vote { voted: false });
    let (a, _) = manage_bottomup_checkpoints(a, AttemptEvent::Built);
    let (a, act) = manage_bottomup_checkpoints(a, AttemptEvent::Receipt);
    assert_eq!(act, AttemptAction::Done);
    assert_eq!(a.phase(), Phase::Finished);
}

#[test]
fn submissions_are_multiples_after_last_executed() {
    for (p, last, cur) in [(10i64, 3i64, 57i64), (7, 0, 100), (3, -7, 2), (5, 20, 24)] {
        let mut a = fresh(p);
        let (n, mut act) = a.step(Direction::BottomUp, AttemptEvent::Heads { last_executed: last, current: cur });
        a = n;
        let mut answers = 0;
        loop {
            match act {
                AttemptAction::QueryVote { .. } => {
                    answers += 1;
                    let (n, x) = a.step(Direction::BottomUp, AttemptEvent::Vote { voted: answers < 3 });
                    a = n;
                    act = x;
                }
                AttemptAction::Build { epoch } => {
                    assert_eq!(epoch % p, 0);
                    assert!(epoch > last && epoch <= cur);
                    let (n, x) = a.step(Direction::BottomUp, AttemptEvent::Built);
                    a = n;
                    act = x;
                }
                AttemptAction::Submit { epoch } => {
                    assert_eq!(epoch.rem_euclid(p), 0);
                    assert!(epoch > last && epoch <= cur);
                    break;
                }
                _ => break,
            }
        }
    }
}
