//! List the subnets registered in a gateway actor.

use vstd::prelude::*;
use crate::address::{Address, AddressView, Network, decoded_address};
use crate::config::{ConfigSnapshot, SubnetView, has_id};
use crate::error::AgentError;
use crate::subnet_id::{SubnetID, SubnetIdView, subnet_id_of_text};

verus! {

/// The request to list the subnets a gateway knows.
#[derive(Debug, PartialEq, Eq)]
pub struct ListSubnetsParams {
    pub gateway_address: String,
    pub subnet_id: String,
}

/// The subnet and gateway a list request asks about, or why it is refused:
/// the subnet must be written as a path and be configured, a `Configuration`
/// failure otherwise; a gateway text that is not an address is an
/// `AddressConversion` failure.
pub open spec fn listed_gateway_of(
    testnet: bool,
    pool: Seq<SubnetView>,
    subnet_id: Seq<char>,
    gateway_address: Seq<char>,
) -> Result<(SubnetIdView, AddressView), AgentError> {
    match subnet_id_of_text(testnet, subnet_id) {
        Some(id) => if has_id(pool, id) {
            match decoded_address(testnet, gateway_address) {
                Some(a) => Ok((id, a)),
                None => Err(AgentError::AddressConversion),
            }
        } else {
            Err(AgentError::Configuration)
        },
        None => Err(AgentError::Configuration),
    }
}

/// The list subnets request handler.
#[derive(Debug)]
pub struct ListSubnetsHandler {
    pub pool: ConfigSnapshot,
}

impl ListSubnetsHandler {
    /// A handler that serves requests against the subnets in `pool`.
    pub fn new(pool: ConfigSnapshot) -> (r: Self)
        ensures
            r.pool@ == pool@,
    {
        ListSubnetsHandler { pool }
    }

    /// Resolves a list request to the subnet to ask and the gateway to ask
    /// about.
    pub fn handle(&self, network: Network, request: &ListSubnetsParams) -> (r: Result<
        (SubnetID, Address),
        AgentError,
    >)
        ensures
            match listed_gateway_of(
                network.is_testnet(),
                self.pool@,
                request.subnet_id@,
                request.gateway_address@,
            ) {
                Ok(p) => r matches Ok(v) && v.0@ == p.0 && v.1@ == p.1,
                Err(e) => r == Err::<(SubnetID, Address), AgentError>(e),
            },
    {
        let subnet = match SubnetID::from_text(network, request.subnet_id.as_str()) {
            Ok(id) => id,
            Err(e) => {
                return Err(e);
            },
        };
        if !self.pool.contains(&subnet) {
            return Err(AgentError::Configuration);
        }
        match Address::from_text(network, request.gateway_address.as_str()) {
            Ok(gateway) => Ok((subnet, gateway)),
            Err(e) => Err(e),
        }
    }
}

} // verus!
