use ipc_agent::address::{Address, EvmAddress};
use ipc_agent::config::{Backend, EvmSubnet, Subnet};
use ipc_agent::error::AgentError;
use ipc_agent::evm::{
    block_number_from_receipt, bottom_up_checkpoint, epoch_from_block_number,
    epoch_to_block_number, pad_name, submit_bottom_up_checkpoint, validators, EthSubnetManager,
    SUBNET_MAJORITY_PERCENTAGE, SUBNET_NAME_MAX_LEN, TRANSACTION_RECEIPT_RETRIES,
};
use ipc_agent::params::{whole_to_atto, ConstructParams};
use ipc_agent::receipt::ReceiptFailure;
use ipc_agent::subnet_id::SubnetID;

fn evm(b: u8) -> EvmAddress {
    EvmAddress([b; 20])
}

fn native(b: u8) -> Address {
    Address::new_delegated(10, vec![b; 20])
}

fn tx() -> Vec<u8> {
    vec![0xcd; 32]
}

fn lost(error: AgentError) -> ReceiptFailure {
    ReceiptFailure { error, transaction: tx() }
}

fn manager() -> EthSubnetManager {
    EthSubnetManager::new(evm(1), evm(2), 314)
}

fn params() -> ConstructParams {
    ConstructParams {
        parent: SubnetID::new(314, vec![native(5), native(6)]),
        name: "test".to_string(),
        ipc_gateway_addr: native(1),
        consensus: 3,
        min_validator_stake: Some(1_000_000_000_000_000_000),
        min_validators: 4,
        bottomup_check_period: 10,
        topdown_check_period: 20,
    }
}

fn evm_subnet(gateway: Address, registry: Address) -> Subnet {
    Subnet {
        id: SubnetID::new(31415, vec![native(9)]),
        accounts: vec![],
        rpc_endpoint: "http://127.0.0.1:8545".to_string(),
        auth_token: None,
        backend: Backend::Evm(EvmSubnet {
            private_key: "0xkey".to_string(),
            gateway_addr: gateway,
            registry_addr: registry,
        }),
    }
}

#[test]
fn constants_have_their_defaults() {
    assert_eq!(SUBNET_MAJORITY_PERCENTAGE, 60);
    assert_eq!(TRANSACTION_RECEIPT_RETRIES, 10);
    assert_eq!(SUBNET_NAME_MAX_LEN, 32);
}

#[test]
fn manager_keeps_its_construction_state() {
    let m = manager();
    assert_eq!(m.gateway(), evm(1));
    assert_eq!(m.registry(), evm(2));
    assert_eq!(m.chain_id(), 314);
}

#[test]
fn same_gateway_is_accepted() {
    assert_eq!(manager().ensure_same_gateway(&native(1)), Ok(()));
    let mut long = vec![1u8; 20];
    long.push(77);
    assert_eq!(manager().ensure_same_gateway(&Address::new_delegated(10, long)), Ok(()));
}

#[test]
fn other_gateway_is_a_configuration_failure() {
    assert_eq!(manager().ensure_same_gateway(&native(3)), Err(AgentError::Configuration));
    let mut almost = vec![1u8; 20];
    almost[19] = 2;
    assert_eq!(
        manager().ensure_same_gateway(&Address::new_delegated(10, almost)),
        Err(AgentError::Configuration)
    );
}

#[test]
fn gateway_of_wrong_class_does_not_convert() {
    assert_eq!(
        manager().ensure_same_gateway(&Address::new_id(64)),
        Err(AgentError::AddressConversion)
    );
}

#[test]
fn manager_from_contract_subnet() {
    let m = EthSubnetManager::from_subnet(&evm_subnet(native(1), native(2))).unwrap();
    assert_eq!(m, EthSubnetManager::new(evm(1), evm(2), 31415));
}

#[test]
fn manager_from_native_subnet_is_refused() {
    let mut s = evm_subnet(native(1), native(2));
    s.backend = Backend::Native;
    assert_eq!(EthSubnetManager::from_subnet(&s), Err(AgentError::Configuration));
}

#[test]
fn manager_from_subnet_with_unconvertible_addresses() {
    assert_eq!(
        EthSubnetManager::from_subnet(&evm_subnet(Address::new_id(1), native(2))),
        Err(AgentError::AddressConversion)
    );
    assert_eq!(
        EthSubnetManager::from_subnet(&evm_subnet(native(1), Address::new_id(2))),
        Err(AgentError::AddressConversion)
    );
}

#[test]
fn name_is_zero_padded_to_32_bytes() {
    let mut expect = [0u8; 32];
    expect[..4].copy_from_slice(b"test");
    assert_eq!(pad_name("test"), Some(expect));
    assert_eq!(pad_name(""), Some([0u8; 32]));
    let full = "abcdefghijklmnopqrstuvwxyz012345";
    let mut expect = [0u8; 32];
    expect.copy_from_slice(full.as_bytes());
    assert_eq!(pad_name(full), Some(expect));
}

#[test]
fn name_too_long_or_not_ascii_has_no_padded_form() {
    assert_eq!(pad_name("abcdefghijklmnopqrstuvwxyz0123456"), None);
    assert_eq!(pad_name("caf\u{e9}"), None);
}

#[test]
fn create_subnet_prepares_registry_parameters() {
    let p = manager().create_subnet(&params()).unwrap();
    assert_eq!(p.parent_root, 314);
    assert_eq!(p.parent_route, vec![evm(5), evm(6)]);
    let mut name = [0u8; 32];
    name[..4].copy_from_slice(b"test");
    assert_eq!(p.name, name);
    assert_eq!(p.ipc_gateway_addr, evm(1));
    assert_eq!(p.consensus, 3);
    assert_eq!(p.min_activation_collateral, 1_000_000_000_000_000_000);
    assert_eq!(p.min_validators, 4);
    assert_eq!(p.bottom_up_check_period, 10);
    assert_eq!(p.top_down_check_period, 20);
    assert_eq!(p.majority_percentage, 60);
}

#[test]
fn create_subnet_refusals() {
    let mut p = params();
    p.ipc_gateway_addr = native(9);
    assert_eq!(manager().create_subnet(&p), Err(AgentError::Configuration));
    let mut p = params();
    p.ipc_gateway_addr = Address::new_id(9);
    assert_eq!(manager().create_subnet(&p), Err(AgentError::AddressConversion));
    let mut p = params();
    p.name = "abcdefghijklmnopqrstuvwxyz0123456".to_string();
    assert_eq!(manager().create_subnet(&p), Err(AgentError::Configuration));
    let mut p = params();
    p.min_validator_stake = None;
    assert_eq!(manager().create_subnet(&p), Err(AgentError::Configuration));
    let mut p = params();
    p.parent = SubnetID::new(314, vec![native(5), Address::new_id(6)]);
    assert_eq!(manager().create_subnet(&p), Err(AgentError::AddressConversion));
    let mut p = params();
    p.bottomup_check_period = 0;
    assert_eq!(manager().create_subnet(&p), Err(AgentError::Configuration));
    let mut p = params();
    p.topdown_check_period = -3;
    assert_eq!(manager().create_subnet(&p), Err(AgentError::Configuration));
}

#[test]
fn create_subnet_checks_the_gateway_first() {
    let mut p = params();
    p.ipc_gateway_addr = native(9);
    p.name = "abcdefghijklmnopqrstuvwxyz0123456".to_string();
    p.parent = SubnetID::new(314, vec![Address::new_id(6)]);
    assert_eq!(manager().create_subnet(&p), Err(AgentError::Configuration));
    let mut p = params();
    p.min_validator_stake = None;
    p.parent = SubnetID::new(314, vec![Address::new_id(6)]);
    assert_eq!(manager().create_subnet(&p), Err(AgentError::Configuration));
}

#[test]
fn deployed_subnet_is_the_first_event() {
    let logs = Some(vec![None, Some(evm(7)), Some(evm(8))]);
    assert_eq!(EthSubnetManager::subnet_deployed(&tx(), &logs), Ok(native(7)));
    assert_eq!(EthSubnetManager::subnet_deployed(&tx(), &Some(vec![Some(evm(8))])), Ok(native(8)));
}

#[test]
fn deployment_without_receipt_or_event() {
    assert_eq!(EthSubnetManager::subnet_deployed(&tx(), &None), Err(lost(AgentError::ReceiptUnknown)));
    assert_eq!(EthSubnetManager::subnet_deployed(&tx(), &Some(vec![])), Err(lost(AgentError::Fatal)));
    assert_eq!(
        EthSubnetManager::subnet_deployed(&tx(), &Some(vec![None, None])),
        Err(lost(AgentError::Fatal))
    );
}

#[test]
fn receipt_block_number_is_the_epoch() {
    assert_eq!(block_number_from_receipt(&tx(), Some(Some(1234))), Ok(1234));
    assert_eq!(block_number_from_receipt(&tx(), Some(Some(0))), Ok(0));
    assert_eq!(block_number_from_receipt(&tx(), Some(Some(i64::MAX as u64))), Ok(i64::MAX));
    assert_eq!(
        block_number_from_receipt(&tx(), Some(Some(i64::MAX as u64 + 1))),
        Err(lost(AgentError::Fatal))
    );
    assert_eq!(block_number_from_receipt(&tx(), Some(None)), Err(lost(AgentError::ReceiptUnknown)));
    assert_eq!(block_number_from_receipt(&tx(), None), Err(lost(AgentError::ReceiptUnknown)));
    assert_eq!(
        block_number_from_receipt(&vec![1, 2], None),
        Err(ReceiptFailure { error: AgentError::ReceiptUnknown, transaction: vec![1, 2] })
    );
}

#[test]
fn epochs_and_block_numbers_convert_within_range() {
    assert_eq!(epoch_from_block_number(5), Ok(5));
    assert_eq!(epoch_from_block_number(u64::MAX), Err(AgentError::Fatal));
    assert_eq!(epoch_to_block_number(5), Ok(5));
    assert_eq!(epoch_to_block_number(0), Ok(0));
    assert_eq!(epoch_to_block_number(-1), Err(AgentError::Fatal));
}

#[test]
fn vote_query_in_subnet() {
    let subnet = SubnetID::new(314, vec![native(5), native(6)]);
    let q = manager().has_voted_in_subnet(&subnet, 20, &native(8)).unwrap();
    assert_eq!(q.contract, evm(6));
    assert_eq!(q.epoch, 20);
    assert_eq!(q.validator, evm(8));
    assert_eq!(
        manager().has_voted_in_subnet(&SubnetID::new(314, vec![]), 20, &native(8)),
        Err(AgentError::AddressConversion)
    );
    assert_eq!(
        manager().has_voted_in_subnet(&subnet, 20, &Address::new_id(8)),
        Err(AgentError::AddressConversion)
    );
    assert_eq!(manager().has_voted_in_subnet(&subnet, -1, &native(8)), Err(AgentError::Fatal));
    assert_eq!(
        manager().has_voted_in_subnet(&subnet, -1, &Address::new_id(8)),
        Err(AgentError::AddressConversion)
    );
}

#[test]
fn vote_query_in_gateway() {
    let q = manager().has_voted_in_gateway(30, &native(8)).unwrap();
    assert_eq!(q.contract, evm(1));
    assert_eq!(q.epoch, 30);
    assert_eq!(q.validator, evm(8));
    assert_eq!(
        manager().has_voted_in_gateway(30, &Address::new_id(8)),
        Err(AgentError::AddressConversion)
    );
    assert_eq!(manager().has_voted_in_gateway(-30, &native(8)), Err(AgentError::Fatal));
}

#[test]
fn top_down_message_query() {
    let subnet = SubnetID::new(314, vec![native(5), native(6)]);
    let q = manager().top_down_msgs(&subnet, 12).unwrap();
    assert_eq!(q.root, 314);
    assert_eq!(q.route, vec![evm(5), evm(6)]);
    assert_eq!(q.block, 12);
    assert_eq!(manager().top_down_msgs(&subnet, -12), Err(AgentError::Fatal));
    assert_eq!(
        manager().top_down_msgs(&SubnetID::new(314, vec![Address::new_id(1)]), 12),
        Err(AgentError::AddressConversion)
    );
}

#[test]
fn join_call() {
    let subnet = SubnetID::new(314, vec![native(5)]);
    let j = manager().join_subnet(&subnet, Some(whole_to_atto(3)), "1.2.3.4:5".to_string()).unwrap();
    assert_eq!(j.contract, evm(5));
    assert_eq!(j.collateral, 3_000_000_000_000_000_000);
    assert_eq!(j.validator_net_addr, "1.2.3.4:5");
    assert_eq!(
        manager().join_subnet(&subnet, None, String::new()),
        Err(AgentError::Configuration)
    );
    assert_eq!(
        manager().join_subnet(&SubnetID::new(314, vec![]), Some(1), String::new()),
        Err(AgentError::AddressConversion)
    );
}

#[test]
fn whole_tokens_in_smallest_units() {
    assert_eq!(whole_to_atto(0), 0);
    assert_eq!(whole_to_atto(20), 20_000_000_000_000_000_000);
    assert_eq!(whole_to_atto(u64::MAX), u64::MAX as u128 * 1_000_000_000_000_000_000);
}

#[test]
fn validators_become_native_addresses() {
    assert_eq!(validators(&vec![evm(1), evm(2)]), vec![native(1), native(2)]);
    assert_eq!(validators(&vec![]), vec![]);
}

#[test]
fn missing_checkpoint_is_transient() {
    assert_eq!(bottom_up_checkpoint(true, 5u8), Ok(5));
    assert_eq!(bottom_up_checkpoint(false, 5u8), Err(AgentError::Transient));
}

#[test]
fn checkpoint_goes_to_the_last_contract_of_the_route() {
    assert_eq!(submit_bottom_up_checkpoint(&vec![evm(1), evm(2)]), Ok(evm(2)));
    assert_eq!(submit_bottom_up_checkpoint(&vec![]), Err(AgentError::AddressConversion));
}
