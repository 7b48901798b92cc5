use ipc_agent::address::{Address, Network};
use ipc_agent::config::{Backend, ConfigSnapshot, Subnet};
use ipc_agent::error::AgentError;
use ipc_agent::handlers::join::{parse_from, JoinSubnetHandler, JoinSubnetParams};
use ipc_agent::handlers::list;
use ipc_agent::handlers::list_subnets;
use ipc_agent::subnet_id::SubnetID;

fn subnet(id: SubnetID, accounts: Vec<Address>) -> Subnet {
    Subnet {
        id,
        accounts,
        rpc_endpoint: "http://127.0.0.1:1234/rpc/v1".to_string(),
        auth_token: None,
        backend: Backend::Native,
    }
}

fn pool() -> ConfigSnapshot {
    ConfigSnapshot::new()
        .insert(subnet(SubnetID::new(314, vec![]), vec![Address::new_id(11), Address::new_id(12)]))
        .insert(subnet(SubnetID::new(314, vec![Address::new_id(1002)]), vec![]))
}

fn join(subnet: &str, from: Option<&str>) -> JoinSubnetParams {
    JoinSubnetParams {
        subnet: subnet.to_string(),
        from: from.map(|s| s.to_string()),
        collateral: 20,
        validator_net_addr: "10.0.0.1:1347".to_string(),
    }
}

#[test]
fn join_resolves_against_the_parent() {
    let h = JoinSubnetHandler::new(pool());
    let call = h.handle(Network::Testnet, join("/314/t01002", Some("t0500"))).unwrap();
    assert_eq!(call.subnet, SubnetID::new(314, vec![Address::new_id(1002)]));
    assert_eq!(call.parent, SubnetID::new(314, vec![]));
    assert_eq!(call.from, Address::new_id(500));
    assert_eq!(call.collateral, 20_000_000_000_000_000_000);
    assert_eq!(call.params.validator_net_addr, "10.0.0.1:1347");
}

#[test]
fn join_defaults_to_the_first_parent_account() {
    let h = JoinSubnetHandler::new(pool());
    let call = h.handle(Network::Testnet, join("/314/t01002", None)).unwrap();
    assert_eq!(call.from, Address::new_id(11));
}

#[test]
fn join_refusals() {
    let h = JoinSubnetHandler::new(pool());
    assert_eq!(h.handle(Network::Testnet, join("314/t01002", None)), Err(AgentError::Configuration));
    assert_eq!(h.handle(Network::Testnet, join("/314", None)), Err(AgentError::Configuration));
    assert_eq!(
        h.handle(Network::Testnet, join("/315/t01002", None)),
        Err(AgentError::Configuration)
    );
    assert_eq!(
        h.handle(Network::Testnet, join("/314/t01002", Some("nobody"))),
        Err(AgentError::AddressConversion)
    );
    assert_eq!(
        h.handle(Network::Testnet, join("/314/t01002/t05", None)),
        Err(AgentError::Configuration)
    );
}

#[test]
fn sender_is_named_or_first_account() {
    let accounts = vec![Address::new_id(11), Address::new_id(12)];
    assert_eq!(
        parse_from(Network::Mainnet, &accounts, &Some("f099".to_string())),
        Ok(Address::new_id(99))
    );
    assert_eq!(parse_from(Network::Mainnet, &accounts, &None), Ok(Address::new_id(11)));
    assert_eq!(parse_from(Network::Mainnet, &vec![], &None), Err(AgentError::Configuration));
    assert_eq!(
        parse_from(Network::Mainnet, &accounts, &Some("t099".to_string())),
        Err(AgentError::AddressConversion)
    );
}

#[test]
fn list_children_of_a_configured_subnet() {
    let h = list::ListSubnetsHandler::new(pool());
    let ok = list::ListSubnetsParams { subnet: "/314".to_string() };
    assert_eq!(h.handle(Network::Testnet, &ok), Ok(SubnetID::new(314, vec![])));
    let unknown = list::ListSubnetsParams { subnet: "/9".to_string() };
    assert_eq!(h.handle(Network::Testnet, &unknown), Err(AgentError::Configuration));
    let bad = list::ListSubnetsParams { subnet: "root".to_string() };
    assert_eq!(h.handle(Network::Testnet, &bad), Err(AgentError::Configuration));
}

#[test]
fn list_subnets_of_a_gateway() {
    let h = list_subnets::ListSubnetsHandler::new(pool());
    let ok = list_subnets::ListSubnetsParams {
        gateway_address: "t064".to_string(),
        subnet_id: "/314/t01002".to_string(),
    };
    assert_eq!(
        h.handle(Network::Testnet, &ok),
        Ok((SubnetID::new(314, vec![Address::new_id(1002)]), Address::new_id(64)))
    );
    let bad_gateway = list_subnets::ListSubnetsParams {
        gateway_address: "gateway".to_string(),
        subnet_id: "/314/t01002".to_string(),
    };
    assert_eq!(h.handle(Network::Testnet, &bad_gateway), Err(AgentError::AddressConversion));
    let unknown = list_subnets::ListSubnetsParams {
        gateway_address: "gateway".to_string(),
        subnet_id: "/314/t01003".to_string(),
    };
    assert_eq!(h.handle(Network::Testnet, &unknown), Err(AgentError::Configuration));
}
