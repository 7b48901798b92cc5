use ipc_agent::address::Address;
use ipc_agent::checkpoint::{
    subnets_to_manage, CheckpointSubsystem, SubsystemAction, SubsystemEvent, SubsystemPhase,
    SUBSYSTEM_SHUTDOWN_GRACE,
};
use ipc_agent::config::{Backend, ConfigSnapshot, Subnet};
use ipc_agent::subnet_id::SubnetID;

fn subnet(id: SubnetID, accounts: Vec<Address>) -> Subnet {
    Subnet {
        id,
        accounts,
        rpc_endpoint: "http://127.0.0.1:1234/rpc/v1".to_string(),
        auth_token: None,
        backend: Backend::Native,
    }
}

fn root() -> SubnetID {
    SubnetID::new(314, vec![])
}

fn child(actor: u64) -> SubnetID {
    SubnetID::new(314, vec![Address::new_id(actor)])
}

fn one_pair() -> ConfigSnapshot {
    ConfigSnapshot::new()
        .insert(subnet(root(), vec![Address::new_id(1), Address::new_id(2)]))
        .insert(subnet(child(100), vec![Address::new_id(7)]))
}

fn two_pairs() -> ConfigSnapshot {
    one_pair().insert(subnet(child(101), vec![Address::new_id(8)]))
}

fn spawned(action: SubsystemAction) -> Vec<(Subnet, Subnet)> {
    match action {
        SubsystemAction::Spawn { pairs } => pairs,
        other => panic!("expected a spawn, got {:?}", other),
    }
}

#[test]
fn managed_pairs_need_accounts_and_a_configured_parent() {
    let config = ConfigSnapshot::new()
        .insert(subnet(root(), vec![Address::new_id(1)]))
        .insert(subnet(child(100), vec![Address::new_id(7)]))
        .insert(subnet(child(101), vec![]))
        .insert(subnet(SubnetID::new(314, vec![Address::new_id(200), Address::new_id(5)]), vec![Address::new_id(9)]))
        .insert(subnet(SubnetID::new(99, vec![Address::new_id(100)]), vec![Address::new_id(9)]));
    let pairs = subnets_to_manage(&config);
    assert_eq!(pairs.len(), 1);
    assert_eq!(pairs[0].0.id, child(100));
    assert_eq!(pairs[0].1.id, root());
    assert_eq!(pairs[0].1.accounts, vec![Address::new_id(1)]);
}

#[test]
fn root_with_accounts_is_not_managed() {
    let config = ConfigSnapshot::new().insert(subnet(root(), vec![Address::new_id(1)]));
    assert!(subnets_to_manage(&config).is_empty());
    assert!(subnets_to_manage(&ConfigSnapshot::new()).is_empty());
}

#[test]
fn grandchild_is_paired_with_its_own_parent() {
    let grandchild = SubnetID::new(314, vec![Address::new_id(100), Address::new_id(5)]);
    let config = ConfigSnapshot::new()
        .insert(subnet(grandchild.clone(), vec![Address::new_id(9)]))
        .insert(subnet(child(100), vec![]))
        .insert(subnet(root(), vec![]));
    let pairs = subnets_to_manage(&config);
    assert_eq!(pairs.len(), 1);
    assert_eq!(pairs[0].0.id, grandchild);
    assert_eq!(pairs[0].1.id, child(100));
}

#[test]
fn start_spawns_one_supervisor_per_pair() {
    let s = CheckpointSubsystem::new(one_pair());
    assert_eq!(s.phase(), SubsystemPhase::Idle);
    assert_eq!(s.supervisors(), 0);
    let (s, act) = s.run(SubsystemEvent::Started);
    let pairs = spawned(act);
    assert_eq!(pairs.len(), 1);
    assert_eq!(pairs[0].0.id, child(100));
    assert_eq!(pairs[0].1.id, root());
    assert_eq!(s.phase(), SubsystemPhase::Running);
    assert_eq!(s.supervisors(), 1);
}

#[test]
fn reload_restarts_supervisors_for_the_new_snapshot() {
    let (s, _) = CheckpointSubsystem::new(one_pair()).run(SubsystemEvent::Started);
    let (s, act) = s.run(SubsystemEvent::ConfigChanged { snapshot: two_pairs() });
    assert!(matches!(act, SubsystemAction::StopSupervisors));
    assert_eq!(s.phase(), SubsystemPhase::Reloading);
    let (s, act) = s.run(SubsystemEvent::SupervisorsFinished);
    let pairs = spawned(act);
    assert_eq!(pairs.len(), 2);
    assert_eq!(pairs[0].0.id, child(100));
    assert_eq!(pairs[1].0.id, child(101));
    assert_eq!(s.phase(), SubsystemPhase::Running);
    assert_eq!(s.supervisors(), 2);
    assert_eq!(s.config().len(), 3);
}

#[test]
fn applying_the_same_snapshot_twice_changes_nothing() {
    let (s, _) = CheckpointSubsystem::new(one_pair()).run(SubsystemEvent::Started);
    let (s, _) = s.run(SubsystemEvent::ConfigChanged { snapshot: two_pairs() });
    let (s, first) = s.run(SubsystemEvent::SupervisorsFinished);
    let first = spawned(first);
    let count = s.supervisors();
    let (s, _) = s.run(SubsystemEvent::ConfigChanged { snapshot: two_pairs() });
    let (s, second) = s.run(SubsystemEvent::SupervisorsFinished);
    let second = spawned(second);
    assert_eq!(first, second);
    assert_eq!(s.supervisors(), count);
    assert_eq!(count, 2);
}

#[test]
fn shutdown_stops_waits_and_returns() {
    let (s, _) = CheckpointSubsystem::new(one_pair()).run(SubsystemEvent::Started);
    let (s, act) = s.run(SubsystemEvent::ShutdownRequested);
    assert!(matches!(act, SubsystemAction::StopSupervisors));
    assert_eq!(s.phase(), SubsystemPhase::ShuttingDown);
    assert_eq!(s.supervisors(), 1);
    let (s, act) = s.run(SubsystemEvent::ConfigChanged { snapshot: two_pairs() });
    assert!(matches!(act, SubsystemAction::Wait));
    let (s, act) = s.run(SubsystemEvent::SupervisorsFinished);
    assert!(matches!(act, SubsystemAction::Return));
    assert_eq!(s.phase(), SubsystemPhase::Stopped);
    assert_eq!(s.supervisors(), 0);
    let (s, act) = s.run(SubsystemEvent::Started);
    assert!(matches!(act, SubsystemAction::Return));
    assert_eq!(s.phase(), SubsystemPhase::Stopped);
    assert_eq!(SUBSYSTEM_SHUTDOWN_GRACE, 10);
}

#[test]
fn closed_config_channel_shuts_down() {
    let (s, _) = CheckpointSubsystem::new(one_pair()).run(SubsystemEvent::Started);
    let (s, act) = s.run(SubsystemEvent::ConfigChannelClosed);
    assert!(matches!(act, SubsystemAction::StopSupervisors));
    let (s, act) = s.run(SubsystemEvent::SupervisorsFinished);
    assert!(matches!(act, SubsystemAction::Return));
    assert_eq!(s.phase(), SubsystemPhase::Stopped);
}

#[test]
fn shutdown_during_reload_returns_after_the_old_supervisors() {
    let (s, _) = CheckpointSubsystem::new(one_pair()).run(SubsystemEvent::Started);
    let (s, _) = s.run(SubsystemEvent::ConfigChanged { snapshot: two_pairs() });
    let (s, act) = s.run(SubsystemEvent::ShutdownRequested);
    assert!(matches!(act, SubsystemAction::Wait));
    assert_eq!(s.phase(), SubsystemPhase::ShuttingDown);
    let (s, act) = s.run(SubsystemEvent::SupervisorsFinished);
    assert!(matches!(act, SubsystemAction::Return));
    assert_eq!(s.supervisors(), 0);
}

#[test]
fn supervisors_that_finish_by_themselves_leave_the_subsystem_waiting() {
    let (s, _) = CheckpointSubsystem::new(one_pair()).run(SubsystemEvent::Started);
    let (s, act) = s.run(SubsystemEvent::SupervisorsFinished);
    assert!(matches!(act, SubsystemAction::Wait));
    assert_eq!(s.phase(), SubsystemPhase::Running);
    assert_eq!(s.supervisors(), 0);
}

#[test]
fn idle_subsystem_takes_a_newer_snapshot_or_stops() {
    let s = CheckpointSubsystem::new(one_pair());
    let (s, act) = s.run(SubsystemEvent::ConfigChanged { snapshot: two_pairs() });
    assert!(matches!(act, SubsystemAction::Wait));
    let (s, act) = s.run(SubsystemEvent::Started);
    assert_eq!(spawned(act).len(), 2);
    assert_eq!(s.supervisors(), 2);
    let (s, act) = CheckpointSubsystem::new(one_pair()).run(SubsystemEvent::ShutdownRequested);
    assert!(matches!(act, SubsystemAction::Return));
    assert_eq!(s.phase(), SubsystemPhase::Stopped);
}

#[test]
fn snapshot_is_a_mapping() {
    let config = one_pair();
    assert_eq!(config.len(), 2);
    assert!(config.contains(&root()));
    assert!(config.contains(&child(100)));
    assert!(!config.contains(&child(101)));
    assert_eq!(config.get(&child(100)).unwrap().accounts, vec![Address::new_id(7)]);
    assert!(config.get(&child(101)).is_none());
    assert_eq!(config.find(&child(100)), Some(1));
    let replaced = config.insert(subnet(child(100), vec![Address::new_id(70)]));
    assert_eq!(replaced.len(), 2);
    assert_eq!(replaced.get(&child(100)).unwrap().accounts, vec![Address::new_id(70)]);
    let copy = replaced.clone();
    assert_eq!(copy, replaced);
    assert_eq!(copy.entry(0).id, root());
    assert_eq!(copy.entry(1).id, child(100));
}

#[test]
fn no_subnet_is_supervised_twice() {
    let config = two_pairs()
        .insert(subnet(child(100), vec![Address::new_id(70)]))
        .insert(subnet(child(101), vec![Address::new_id(80)]));
    let pairs = subnets_to_manage(&config);
    assert_eq!(pairs.len(), 2);
    assert_ne!(pairs[0].0.id, pairs[1].0.id);
    assert_eq!(pairs[0].0.accounts, vec![Address::new_id(70)]);
}
