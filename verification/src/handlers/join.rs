//! Join subnet handler and parameters.

use vstd::prelude::*;
use crate::address::{Address, AddressView, Network, decoded_address};
use crate::config::{ConfigSnapshot, SubnetView, entry_of};
use crate::error::AgentError;
use crate::params::{ATTO_PER_WHOLE, JoinParams, whole_to_atto};
use crate::subnet_id::{SubnetID, SubnetIdView, subnet_id_of_text};

verus! {

/// The request to join a subnet.
#[derive(Debug, PartialEq, Eq)]
pub struct JoinSubnetParams {
    pub subnet: String,
    pub from: Option<String>,
    /// Collateral in whole tokens.
    pub collateral: u64,
    pub validator_net_addr: String,
}

/// What a join request resolves to: the subnet to join, the sender, the
/// collateral in the smallest unit of the token, and the call parameters.
#[derive(Debug, PartialEq, Eq)]
pub struct JoinSubnetCall {
    pub subnet: SubnetID,
    pub parent: SubnetID,
    pub from: Address,
    pub collateral: u128,
    pub params: JoinParams,
}

pub struct JoinSubnetCallView {
    pub subnet: SubnetIdView,
    pub parent: SubnetIdView,
    pub from: AddressView,
    pub collateral: u128,
    pub validator_net_addr: Seq<char>,
}

impl View for JoinSubnetCall {
    type V = JoinSubnetCallView;

    open spec fn view(&self) -> JoinSubnetCallView {
        JoinSubnetCallView {
            subnet: self.subnet@,
            parent: self.parent@,
            from: self.from@,
            collateral: self.collateral,
            validator_net_addr: self.params.validator_net_addr@,
        }
    }
}

/// The sender of a request: the address the request names, or else the
/// first account configured for the subnet.  A text that is not an address
/// is an `AddressConversion` failure; no name and no account a
/// `Configuration` failure.
pub open spec fn sender_of(testnet: bool, accounts: Seq<AddressView>, from: Option<Seq<char>>) -> Result<
    AddressView,
    AgentError,
> {
    match from {
        Some(text) => match decoded_address(testnet, text) {
            Some(a) => Ok(a),
            None => Err(AgentError::AddressConversion),
        },
        None => if accounts.len() > 0 {
            Ok(accounts[0])
        } else {
            Err(AgentError::Configuration)
        },
    }
}

/// Resolves the sender of a request.
pub fn parse_from(network: Network, accounts: &Vec<Address>, from: &Option<String>) -> (r: Result<
    Address,
    AgentError,
>)
    ensures
        match sender_of(network.is_testnet(), accounts.deep_view(), from.deep_view()) {
            Ok(a) => r matches Ok(v) && v@ == a,
            Err(e) => r == Err::<Address, AgentError>(e),
        },
{
    match from {
        Some(text) => Address::from_text(network, text.as_str()),
        None => {
            assert(accounts.deep_view().len() == accounts.len());
            if accounts.len() > 0 {
                assert(accounts.deep_view()[0] == accounts[0]@);
                Ok(accounts[0].clone())
            } else {
                Err(AgentError::Configuration)
            }
        },
    }
}

/// What a join request resolves to under a configuration, or why it is
/// refused: the subnet must be written as a path, have a parent, and that
/// parent must be configured, each a `Configuration` failure otherwise; then
/// the sender is resolved against the parent's accounts.
pub open spec fn join_call_of(
    testnet: bool,
    pool: Seq<SubnetView>,
    subnet: Seq<char>,
    from: Option<Seq<char>>,
    collateral: u64,
    validator_net_addr: Seq<char>,
) -> Result<JoinSubnetCallView, AgentError> {
    match subnet_id_of_text(testnet, subnet) {
        None => Err(AgentError::Configuration),
        Some(id) => match id.parent() {
            None => Err(AgentError::Configuration),
            Some(parent) => match entry_of(pool, parent) {
                None => Err(AgentError::Configuration),
                Some(conn) => match sender_of(testnet, conn.accounts, from) {
                    Err(e) => Err(e),
                    Ok(sender) => Ok(
                        JoinSubnetCallView {
                            subnet: id,
                            parent,
                            from: sender,
                            collateral: (collateral * ATTO_PER_WHOLE) as u128,
                            validator_net_addr,
                        },
                    ),
                },
            },
        },
    }
}

/// The join subnet request handler.
#[derive(Debug)]
pub struct JoinSubnetHandler {
    pub pool: ConfigSnapshot,
}

impl JoinSubnetHandler {
    /// A handler that serves requests against the subnets in `pool`.
    pub fn new(pool: ConfigSnapshot) -> (r: Self)
        ensures
            r.pool@ == pool@,
    {
        JoinSubnetHandler { pool }
    }

    /// Resolves a join request.
    pub fn handle(&self, network: Network, request: JoinSubnetParams) -> (r: Result<
        JoinSubnetCall,
        AgentError,
    >)
        ensures
            match join_call_of(
                network.is_testnet(),
                self.pool@,
                request.subnet@,
                request.from.deep_view(),
                request.collateral,
                request.validator_net_addr@,
            ) {
                Ok(c) => r matches Ok(v) && v@ == c,
                Err(e) => r == Err::<JoinSubnetCall, AgentError>(e),
            },
    {
        let subnet = match SubnetID::from_text(network, request.subnet.as_str()) {
            Ok(id) => id,
            Err(e) => {
                return Err(e);
            },
        };
        let parent = match subnet.parent() {
            Some(p) => p,
            None => {
                return Err(AgentError::Configuration);
            },
        };
        let conn = match self.pool.get(&parent) {
            Some(conn) => conn,
            None => {
                return Err(AgentError::Configuration);
            },
        };
        let collateral = whole_to_atto(request.collateral);
        let from = match parse_from(network, &conn.accounts, &request.from) {
            Ok(a) => a,
            Err(e) => {
                return Err(e);
            },
        };
        Ok(
            JoinSubnetCall {
                subnet,
                parent,
                from,
                collateral,
                params: JoinParams { validator_net_addr: request.validator_net_addr },
            },
        )
    }
}

} // verus!
