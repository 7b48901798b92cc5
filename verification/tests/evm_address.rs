use ipc_agent::address::{ethers_address_to_fil_address, Address, EvmAddress, Network};
use ipc_agent::error::AgentError;
use ipc_agent::evm::{agent_subnet_to_evm_addresses, last_evm_address};
use ipc_agent::subnet_id::SubnetID;

fn hex(addr: &EvmAddress) -> String {
    let mut out = String::from("0x");
    for b in addr.0.iter() {
        out.push_str(&format!("{:02x}", b));
    }
    out
}

fn from_hex(text: &str) -> EvmAddress {
    let digits = &text[2..];
    let mut bytes = [0u8; 20];
    for i in 0..20 {
        bytes[i] = u8::from_str_radix(&digits[2 * i..2 * i + 2], 16).unwrap();
    }
    EvmAddress(bytes)
}

#[test]
fn test_agent_subnet_to_evm_address() {
    let addr =
        Address::from_text(Network::Mainnet, "f410ffzyuupbyl2uiucmzr3lu3mtf3luyknthaz4xsrq").unwrap();
    let id = SubnetID::new(0, vec![addr]);

    let eth = last_evm_address(&id).unwrap();
    assert_eq!(hex(&eth), "0x2e714a3c385ea88a09998ed74db265dae9853667");
}

#[test]
fn test_agent_subnet_to_evm_addresses() {
    let eth_addr = from_hex("0x0000000000000000000000000000000000000000");
    let addr = ethers_address_to_fil_address(&eth_addr);
    let addr2 =
        Address::from_text(Network::Mainnet, "f410ffzyuupbyl2uiucmzr3lu3mtf3luyknthaz4xsrq").unwrap();

    let id = SubnetID::new(0, vec![addr, addr2]);

    let addrs = agent_subnet_to_evm_addresses(&id).unwrap();

    let a = from_hex("0x0000000000000000000000000000000000000000");
    let b = from_hex("0x2e714a3c385ea88a09998ed74db265dae9853667");

    assert_eq!(addrs, vec![a, b]);
}

#[test]
fn path_converts_to_root_and_route() {
    let id = SubnetID::from_text(
        Network::Mainnet,
        "/314/f410ffzyuupbyl2uiucmzr3lu3mtf3luyknthaz4xsrq",
    )
    .unwrap();
    assert_eq!(id.root_id(), 314);
    let route = agent_subnet_to_evm_addresses(&id).unwrap();
    assert_eq!(route, vec![from_hex("0x2e714a3c385ea88a09998ed74db265dae9853667")]);
}

#[test]
fn non_delegated_segment_does_not_convert() {
    let id = SubnetID::new(314, vec![Address::new_id(100)]);
    assert_eq!(agent_subnet_to_evm_addresses(&id), Err(AgentError::AddressConversion));
    assert_eq!(last_evm_address(&id), Err(AgentError::AddressConversion));
}

#[test]
fn root_has_no_last_address() {
    let id = SubnetID::new(314, vec![]);
    assert_eq!(last_evm_address(&id), Err(AgentError::AddressConversion));
    assert_eq!(agent_subnet_to_evm_addresses(&id), Ok(vec![]));
}

#[test]
fn short_subaddress_does_not_convert() {
    let id = SubnetID::new(314, vec![Address::new_delegated(10, vec![1u8; 19])]);
    assert_eq!(last_evm_address(&id), Err(AgentError::AddressConversion));
}

#[test]
fn long_subaddress_keeps_first_twenty_bytes() {
    let mut sub = vec![7u8; 20];
    sub.extend_from_slice(&[9u8; 5]);
    let id = SubnetID::new(314, vec![Address::new_delegated(10, sub)]);
    assert_eq!(last_evm_address(&id), Ok(EvmAddress([7u8; 20])));
}

#[test]
fn contract_address_round_trip() {
    let e = from_hex("0x2e714a3c385ea88a09998ed74db265dae9853667");
    let native = ethers_address_to_fil_address(&e);
    let parsed =
        Address::from_text(Network::Mainnet, "f410ffzyuupbyl2uiucmzr3lu3mtf3luyknthaz4xsrq").unwrap();
    assert_eq!(native, parsed);
}

#[test]
fn address_text_of_other_network_is_rejected() {
    assert_eq!(
        Address::from_text(Network::Testnet, "f410ffzyuupbyl2uiucmzr3lu3mtf3luyknthaz4xsrq"),
        Err(AgentError::AddressConversion)
    );
    assert_eq!(Address::from_text(Network::Testnet, "t0100"), Ok(Address::new_id(100)));
    assert_eq!(Address::from_text(Network::Mainnet, "not an address"), Err(AgentError::AddressConversion));
}
