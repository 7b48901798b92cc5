//! List the child subnets of a subnet.

use vstd::prelude::*;
use crate::address::Network;
use crate::config::{ConfigSnapshot, SubnetView, has_id};
use crate::error::AgentError;
use crate::subnet_id::{SubnetID, SubnetIdView, subnet_id_of_text};

verus! {

/// The request to list the children of a subnet.
#[derive(Debug, PartialEq, Eq)]
pub struct ListSubnetsParams {
    pub subnet: String,
}

/// The subnet a list request asks about, or why it is refused: the subnet
/// must be written as a path and be configured, a `Configuration` failure
/// otherwise.
pub open spec fn listed_subnet_of(testnet: bool, pool: Seq<SubnetView>, subnet: Seq<char>) -> Result<
    SubnetIdView,
    AgentError,
> {
    match subnet_id_of_text(testnet, subnet) {
        Some(id) => if has_id(pool, id) {
            Ok(id)
        } else {
            Err(AgentError::Configuration)
        },
        None => Err(AgentError::Configuration),
    }
}

/// The list subnets request handler.
#[derive(Debug)]
pub struct ListSubnetsHandler {
    pub pool: ConfigSnapshot,
}

impl ListSubnetsHandler {
    /// A handler that serves requests against the subnets in `pool`.
    pub fn new(pool: ConfigSnapshot) -> (r: Self)
        ensures
            r.pool@ == pool@,
    {
        ListSubnetsHandler { pool }
    }

    /// Resolves a list request to the subnet whose children are listed.
    pub fn handle(&self, network: Network, request: &ListSubnetsParams) -> (r: Result<
        SubnetID,
        AgentError,
    >)
        ensures
            match listed_subnet_of(network.is_testnet(), self.pool@, request.subnet@) {
                Ok(id) => r matches Ok(v) && v@ == id,
                Err(e) => r == Err::<SubnetID, AgentError>(e),
            },
    {
        let subnet = match SubnetID::from_text(network, request.subnet.as_str()) {
            Ok(id) => id,
            Err(e) => {
                return Err(e);
            },
        };
        if !self.pool.contains(&subnet) {
            return Err(AgentError::Configuration);
        }
        Ok(subnet)
    }
}

} // verus!
