//! The contract-chain side of the chain adapter: how subnet identifiers,
//! addresses, epochs and receipts cross the boundary to contract calls.

use vstd::prelude::*;
use crate::address::{
    Address, AddressView, EvmAddress, ethers_address_to_fil_address, evm_bytes_of,
    payload_to_evm_address,
};
use crate::config::{Backend, BackendView, Subnet, SubnetView};
use crate::epoch::ChainEpoch;
use crate::error::AgentError;
use crate::params::{ConstructParams, ConstructParamsView};
use crate::receipt::{ReceiptFailure, ReceiptFailureView};
use crate::search::{first_where, lemma_first_where_stays};
use vstd::string::StrSliceExecFns;
use vstd::utf8::is_ascii_chars;
use crate::subnet_id::{SubnetID, SubnetIdView};

verus! {

/// The majority vote percentage for checkpoint submission in a new subnet.
pub const SUBNET_MAJORITY_PERCENTAGE: u8 = 60;

/// How often a transaction receipt is polled for before giving up.
pub const TRANSACTION_RECEIPT_RETRIES: usize = 10;

/// The longest subnet name the registry takes, in bytes.
pub const SUBNET_NAME_MAX_LEN: usize = 32;

/// The contract addresses of all of `children`, absent if one of them does
/// not convert.
pub open spec fn route_of(children: Seq<AddressView>) -> Option<Seq<Seq<u8>>> {
    if forall|i: int| 0 <= i < children.len() ==> evm_bytes_of(#[trigger] children[i]) is Some {
        Some(Seq::new(children.len(), |i: int| evm_bytes_of(children[i]).unwrap()))
    } else {
        None
    }
}

/// The contract address of the last segment of a subnet identifier: the
/// contract that anchors the subnet on its parent.  A root network has no
/// such segment, and a segment that is not a delegated address does not
/// convert; both are `AddressConversion` failures.
pub fn last_evm_address(subnet: &SubnetID) -> (r: Result<EvmAddress, AgentError>)
    ensures
        match subnet@.subnet_actor() {
            Some(a) => match evm_bytes_of(a) {
                Some(bytes) => r matches Ok(e) && e@ == bytes,
                None => r == Err::<EvmAddress, AgentError>(AgentError::AddressConversion),
            },
            None => r == Err::<EvmAddress, AgentError>(AgentError::AddressConversion),
        },
{
    let children = subnet.children();
    let n: usize = children.len();
    assert(children.deep_view().len() == n);
    if n == 0 {
        return Err(AgentError::AddressConversion);
    }
    assert(children.deep_view()[n - 1] == children[n - 1]@);
    payload_to_evm_address(children[n - 1].payload())
}

/// The route of a subnet identifier: the contract address of every segment,
/// in order.  A segment that does not convert is an `AddressConversion`
/// failure.
pub fn agent_subnet_to_evm_addresses(subnet: &SubnetID) -> (r: Result<Vec<EvmAddress>, AgentError>)
    ensures
        match route_of(subnet@.children) {
            Some(route) => r matches Ok(v) && v.deep_view() == route,
            None => r == Err::<Vec<EvmAddress>, AgentError>(AgentError::AddressConversion),
        },
{
    let children = subnet.children();
    let ghost c = children.deep_view();
    let mut out: Vec<EvmAddress> = Vec::new();
    let mut i: usize = 0;
    while i < children.len()
        invariant
            i <= children.len(),
            c == children.deep_view(),
            c == subnet@.children,
            out.len() == i,
            forall|k: int| 0 <= k < i ==> evm_bytes_of(#[trigger] c[k]) == Some(out.deep_view()[k]),
        decreases children.len() - i,
    {
        assert(c[i as int] == children[i as int]@);
        match payload_to_evm_address(children[i].payload()) {
            Ok(e) => {
                let ghost before = out.deep_view();
                out.push(e);
                assert(out.deep_view() =~= before.push(e@));
            },
            Err(_) => {
                return Err(AgentError::AddressConversion);
            },
        }
        i += 1;
    }
    assert(out.deep_view() =~= route_of(c).unwrap());
    Ok(out)
}

/// The epoch at which the transaction `transaction` was included: the block
/// number of its receipt.  `receipt` is absent when polling ran out of
/// retries, and its block number is absent while the transaction is
/// pending; either way the outcome is `ReceiptUnknown`.  A block number that
/// is no epoch breaks an invariant.  Every failure names the transaction.
pub fn block_number_from_receipt(transaction: &Vec<u8>, receipt: Option<Option<u64>>) -> (r: Result<
    ChainEpoch,
    ReceiptFailure,
>)
    ensures
        match receipt {
            Some(Some(n)) => if n <= i64::MAX {
                r == Ok::<ChainEpoch, ReceiptFailure>(n as ChainEpoch)
            } else {
                r matches Err(f) && f@ == (ReceiptFailureView {
                    error: AgentError::Fatal,
                    transaction: transaction@,
                })
            },
            _ => r matches Err(f) && f@ == (ReceiptFailureView {
                error: AgentError::ReceiptUnknown,
                transaction: transaction@,
            }),
        },
{
    match receipt {
        Some(Some(n)) => match epoch_from_block_number(n) {
            Ok(epoch) => Ok(epoch),
            Err(error) => Err(ReceiptFailure::new(error, transaction)),
        },
        _ => Err(ReceiptFailure::new(AgentError::ReceiptUnknown, transaction)),
    }
}

/// A block number or an epoch counter read from a contract, as an epoch.  A
/// number that is no epoch breaks an invariant.
pub fn epoch_from_block_number(number: u64) -> (r: Result<ChainEpoch, AgentError>)
    ensures
        number <= i64::MAX ==> r == Ok::<ChainEpoch, AgentError>(number as ChainEpoch),
        number > i64::MAX ==> r == Err::<ChainEpoch, AgentError>(AgentError::Fatal),
{
    if number <= 0x7fff_ffff_ffff_ffff {
        Ok(number as ChainEpoch)
    } else {
        Err(AgentError::Fatal)
    }
}

/// An epoch as a contract call takes it.  A negative epoch breaks an
/// invariant.
pub fn epoch_to_block_number(epoch: ChainEpoch) -> (r: Result<u64, AgentError>)
    ensures
        epoch >= 0 ==> r == Ok::<u64, AgentError>(epoch as u64),
        epoch < 0 ==> r == Err::<u64, AgentError>(AgentError::Fatal),
{
    if epoch >= 0 {
        Ok(epoch as u64)
    } else {
        Err(AgentError::Fatal)
    }
}

/// The arguments of a query for the top-down messages of a subnet.
#[derive(Debug, PartialEq, Eq)]
pub struct TopDownMsgsQuery {
    pub root: u64,
    pub route: Vec<EvmAddress>,
    pub block: u64,
}

/// The arguments of a call that joins a subnet.
#[derive(Debug, PartialEq, Eq)]
pub struct JoinCall {
    pub contract: EvmAddress,
    pub collateral: u128,
    pub validator_net_addr: String,
}

/// The native addresses of a list of contract addresses.
pub fn validators(list: &Vec<EvmAddress>) -> (r: Vec<Address>)
    ensures
        r.len() == list.len(),
        forall|i: int|
            0 <= i < list.len() ==> (#[trigger] r.deep_view()[i]) == (AddressView::Delegated {
                namespace: crate::address::EAM_NAMESPACE,
                subaddress: list.deep_view()[i],
            }),
{
    let mut out: Vec<Address> = Vec::new();
    let mut i: usize = 0;
    while i < list.len()
        invariant
            i <= list.len(),
            out.len() == i,
            forall|k: int|
                0 <= k < i ==> (#[trigger] out.deep_view()[k]) == (AddressView::Delegated {
                    namespace: crate::address::EAM_NAMESPACE,
                    subaddress: list.deep_view()[k],
                }),
        decreases list.len() - i,
    {
        let ghost before = out.deep_view();
        let a = ethers_address_to_fil_address(&list[i]);
        assert(list.deep_view()[i as int] == list[i as int]@);
        out.push(a);
        assert(out.deep_view() =~= before.push(a@));
        i += 1;
    }
    out
}

/// The checkpoint the gateway holds for an epoch.  The gateway answers with
/// a flag and a checkpoint; without the flag there is no checkpoint at that
/// epoch yet, a `Transient` failure.
pub fn bottom_up_checkpoint<C>(exists: bool, checkpoint: C) -> (r: Result<C, AgentError>)
    ensures
        exists ==> r == Ok::<C, AgentError>(checkpoint),
        !exists ==> r == Err::<C, AgentError>(AgentError::Transient),
{
    if !exists {
        Err(AgentError::Transient)
    } else {
        Ok(checkpoint)
    }
}

/// The contract a bottom-up checkpoint is submitted to: the last address of
/// the route of its source.  An empty route names no contract, an
/// `AddressConversion` failure.
pub fn submit_bottom_up_checkpoint(route: &Vec<EvmAddress>) -> (r: Result<EvmAddress, AgentError>)
    ensures
        route.len() > 0 ==> r == Ok::<EvmAddress, AgentError>(route[route.len() - 1]),
        route.len() == 0 ==> r == Err::<EvmAddress, AgentError>(AgentError::AddressConversion),
{
    if route.len() == 0 {
        Err(AgentError::AddressConversion)
    } else {
        Ok(route[route.len() - 1])
    }
}

/// The arguments of a vote query on a contract.
#[derive(Clone, Copy, Debug, PartialEq, Eq)]
pub struct VoteQuery {
    pub contract: EvmAddress,
    pub epoch: u64,
    pub validator: EvmAddress,
}

pub struct VoteQueryView {
    pub contract: Seq<u8>,
    pub epoch: u64,
    pub validator: Seq<u8>,
}

impl View for VoteQuery {
    type V = VoteQueryView;

    open spec fn view(&self) -> VoteQueryView {
        VoteQueryView { contract: self.contract@, epoch: self.epoch, validator: self.validator@ }
    }
}

/// The vote query on the contract at `contract` for `validator` and
/// `epoch`, or why there is none: a contract or validator address that does
/// not convert is an `AddressConversion` failure, and a negative epoch
/// breaks an invariant.
pub open spec fn vote_query_of(
    contract: Option<Seq<u8>>,
    epoch: ChainEpoch,
    validator: AddressView,
) -> Result<VoteQueryView, AgentError> {
    match (contract, evm_bytes_of(validator)) {
        (Some(contract), Some(validator)) => if epoch >= 0 {
            Ok(VoteQueryView { contract, epoch: epoch as u64, validator })
        } else {
            Err(AgentError::Fatal)
        },
        _ => Err(AgentError::AddressConversion),
    }
}

/// The adapter for a subnet that runs on a contract chain.  What is specific
/// to the backend, the addresses of its gateway and registry contracts and
/// its chain number, is construction state.
#[derive(Clone, Copy, Debug, PartialEq, Eq)]
pub struct EthSubnetManager {
    gateway: EvmAddress,
    registry: EvmAddress,
    chain_id: u64,
}

pub struct EthManagerView {
    pub gateway: Seq<u8>,
    pub registry: Seq<u8>,
    pub chain_id: u64,
}

impl View for EthSubnetManager {
    type V = EthManagerView;

    closed spec fn view(&self) -> EthManagerView {
        EthManagerView { gateway: self.gateway@, registry: self.registry@, chain_id: self.chain_id }
    }
}

/// The manager a configuration entry describes, or why it describes none:
/// an entry of the native backend is a `Configuration` failure, and a
/// gateway or registry address that does not convert an `AddressConversion`
/// failure.
pub open spec fn manager_of(subnet: SubnetView) -> Result<EthManagerView, AgentError> {
    match subnet.backend {
        BackendView::Native => Err(AgentError::Configuration),
        BackendView::Evm { private_key, gateway_addr, registry_addr } => match (
            evm_bytes_of(gateway_addr),
            evm_bytes_of(registry_addr),
        ) {
            (Some(gateway), Some(registry)) => Ok(
                EthManagerView { gateway, registry, chain_id: subnet.id.root },
            ),
            _ => Err(AgentError::AddressConversion),
        },
    }
}

impl EthSubnetManager {
    /// A manager for the contracts at `gateway` and `registry` on the chain
    /// numbered `chain_id`.
    pub fn new(gateway: EvmAddress, registry: EvmAddress, chain_id: u64) -> (r: Self)
        ensures
            r@ == (EthManagerView { gateway: gateway@, registry: registry@, chain_id }),
    {
        EthSubnetManager { gateway, registry, chain_id }
    }

    /// The address of the gateway contract.
    pub fn gateway(&self) -> (r: EvmAddress)
        ensures
            r@ == self@.gateway,
    {
        self.gateway
    }

    /// The address of the registry contract.
    pub fn registry(&self) -> (r: EvmAddress)
        ensures
            r@ == self@.registry,
    {
        self.registry
    }

    /// The number of the chain.
    pub fn chain_id(&self) -> (r: u64)
        ensures
            r == self@.chain_id,
    {
        self.chain_id
    }

    /// Checks that `gateway` is the gateway this manager talks to.  An
    /// address that does not convert is an `AddressConversion` failure, a
    /// different gateway a `Configuration` failure.
    pub fn ensure_same_gateway(&self, gateway: &Address) -> (r: Result<(), AgentError>)
        ensures
            r == (match evm_bytes_of(gateway@) {
                None => Err::<(), AgentError>(AgentError::AddressConversion),
                Some(bytes) => if bytes == self@.gateway {
                    Ok(())
                } else {
                    Err(AgentError::Configuration)
                },
            }),
    {
        let evm_gateway_addr = match payload_to_evm_address(gateway.payload()) {
            Ok(a) => a,
            Err(e) => {
                return Err(e);
            },
        };
        if evm_gateway_addr.same(&self.gateway) {
            Ok(())
        } else {
            Err(AgentError::Configuration)
        }
    }

    /// The manager for a configured subnet of the contract backend.
    pub fn from_subnet(subnet: &Subnet) -> (r: Result<Self, AgentError>)
        ensures
            match manager_of(subnet@) {
                Ok(m) => r matches Ok(v) && v@ == m,
                Err(e) => r == Err::<Self, AgentError>(e),
            },
    {
        let config = match &subnet.backend {
            Backend::Evm(config) => config,
            Backend::Native => {
                return Err(AgentError::Configuration);
            },
        };
        let gateway = match payload_to_evm_address(config.gateway_addr.payload()) {
            Ok(a) => a,
            Err(e) => {
                return Err(e);
            },
        };
        let registry = match payload_to_evm_address(config.registry_addr.payload()) {
            Ok(a) => a,
            Err(e) => {
                return Err(e);
            },
        };
        Ok(EthSubnetManager::new(gateway, registry, subnet.id.root_id()))
    }

    /// The call that asks the subnet contract of `subnet_id` whether
    /// `validator` has voted for `epoch`.
    pub fn has_voted_in_subnet(&self, subnet_id: &SubnetID, epoch: ChainEpoch, validator: &Address) -> (r:
        Result<VoteQuery, AgentError>)
        ensures
            match vote_query_of(
                match subnet_id@.subnet_actor() {
                    Some(a) => evm_bytes_of(a),
                    None => None,
                },
                epoch,
                validator@,
            ) {
                Ok(q) => r matches Ok(v) && v@ == q,
                Err(e) => r == Err::<VoteQuery, AgentError>(e),
            },
    {
        let contract = match last_evm_address(subnet_id) {
            Ok(a) => a,
            Err(e) => {
                return Err(e);
            },
        };
        let validator = match payload_to_evm_address(validator.payload()) {
            Ok(a) => a,
            Err(e) => {
                return Err(e);
            },
        };
        match epoch_to_block_number(epoch) {
            Ok(epoch) => Ok(VoteQuery { contract, epoch, validator }),
            Err(e) => Err(e),
        }
    }

    /// The query for the top-down messages of `subnet_id` as of `epoch`.
    pub fn top_down_msgs(&self, subnet_id: &SubnetID, epoch: ChainEpoch) -> (r: Result<
        TopDownMsgsQuery,
        AgentError,
    >)
        ensures
            match route_of(subnet_id@.children) {
                None => r == Err::<TopDownMsgsQuery, AgentError>(AgentError::AddressConversion),
                Some(route) => if epoch >= 0 {
                    r matches Ok(q) && q.root == subnet_id@.root && q.route.deep_view() == route
                        && q.block == epoch
                } else {
                    r == Err::<TopDownMsgsQuery, AgentError>(AgentError::Fatal)
                },
            },
    {
        let route = match agent_subnet_to_evm_addresses(subnet_id) {
            Ok(r) => r,
            Err(e) => {
                return Err(e);
            },
        };
        match epoch_to_block_number(epoch) {
            Ok(block) => Ok(TopDownMsgsQuery { root: subnet_id.root_id(), route, block }),
            Err(e) => Err(e),
        }
    }

    /// The call by which a validator joins `subnet` with `collateral`, which
    /// is absent when the amount is negative or does not fit 128 bits, a
    /// `Configuration` failure.
    pub fn join_subnet(&self, subnet: &SubnetID, collateral: Option<u128>, validator_net_addr: String) -> (r:
        Result<JoinCall, AgentError>)
        ensures
            match collateral {
                None => r == Err::<JoinCall, AgentError>(AgentError::Configuration),
                Some(c) => match subnet@.subnet_actor() {
                    Some(a) => match evm_bytes_of(a) {
                        Some(bytes) => r matches Ok(j) && j.contract@ == bytes && j.collateral == c
                            && j.validator_net_addr@ == validator_net_addr@,
                        None => r == Err::<JoinCall, AgentError>(AgentError::AddressConversion),
                    },
                    None => r == Err::<JoinCall, AgentError>(AgentError::AddressConversion),
                },
            },
    {
        let collateral = match collateral {
            Some(c) => c,
            None => {
                return Err(AgentError::Configuration);
            },
        };
        match last_evm_address(subnet) {
            Ok(contract) => Ok(JoinCall { contract, collateral, validator_net_addr }),
            Err(e) => Err(e),
        }
    }

    /// The call that asks the gateway contract whether `validator` has voted
    /// for `epoch`.
    pub fn has_voted_in_gateway(&self, epoch: ChainEpoch, validator: &Address) -> (r: Result<
        VoteQuery,
        AgentError,
    >)
        ensures
            match vote_query_of(Some(self@.gateway), epoch, validator@) {
                Ok(q) => r matches Ok(v) && v@ == q,
                Err(e) => r == Err::<VoteQuery, AgentError>(e),
            },
    {
        let validator = match payload_to_evm_address(validator.payload()) {
            Ok(a) => a,
            Err(e) => {
                return Err(e);
            },
        };
        match epoch_to_block_number(epoch) {
            Ok(epoch) => Ok(VoteQuery { contract: self.gateway, epoch, validator }),
            Err(e) => Err(e),
        }
    }
}

/// What the registry contract is called with to deploy a subnet actor.
#[derive(Debug, PartialEq, Eq)]
pub struct RegistryConstructParams {
    pub parent_root: u64,
    pub parent_route: Vec<EvmAddress>,
    pub name: [u8; 32],
    pub ipc_gateway_addr: EvmAddress,
    pub consensus: u8,
    pub min_activation_collateral: u128,
    pub min_validators: u64,
    pub bottom_up_check_period: u64,
    pub top_down_check_period: u64,
    pub majority_percentage: u8,
}

pub struct RegistryConstructParamsView {
    pub parent_root: u64,
    pub parent_route: Seq<Seq<u8>>,
    pub name: Seq<u8>,
    pub ipc_gateway_addr: Seq<u8>,
    pub consensus: u8,
    pub min_activation_collateral: u128,
    pub min_validators: u64,
    pub bottom_up_check_period: u64,
    pub top_down_check_period: u64,
    pub majority_percentage: u8,
}

impl View for RegistryConstructParams {
    type V = RegistryConstructParamsView;

    open spec fn view(&self) -> RegistryConstructParamsView {
        RegistryConstructParamsView {
            parent_root: self.parent_root,
            parent_route: self.parent_route.deep_view(),
            name: self.name@,
            ipc_gateway_addr: self.ipc_gateway_addr@,
            consensus: self.consensus,
            min_activation_collateral: self.min_activation_collateral,
            min_validators: self.min_validators,
            bottom_up_check_period: self.bottom_up_check_period,
            top_down_check_period: self.top_down_check_period,
            majority_percentage: self.majority_percentage,
        }
    }
}

/// A subnet name as the registry stores it: the bytes of the name followed
/// by zeros up to 32 bytes.  Only ASCII names of at most 32 bytes have one.
pub open spec fn padded_name(name: Seq<char>) -> Option<Seq<u8>> {
    if is_ascii_chars(name) && name.len() <= 32 {
        Some(
            Seq::new(
                32,
                |i: int|
                    if i < name.len() {
                        name[i] as u8
                    } else {
                        0u8
                    },
            ),
        )
    } else {
        None
    }
}

/// Pads a subnet name for the registry.
pub fn pad_name(name: &str) -> (r: Option<[u8; 32]>)
    ensures
        match padded_name(name@) {
            Some(p) => r matches Some(a) && a@ == p,
            None => r is None,
        },
{
    if !name.is_ascii() {
        return None;
    }
    let n: usize = name.unicode_len();
    if n > SUBNET_NAME_MAX_LEN {
        return None;
    }
    let mut out: [u8; 32] = [0u8; 32];
    let mut i: usize = 0;
    while i < n
        invariant
            i <= n <= 32,
            n == name@.len(),
            name.is_ascii(),
            forall|k: int| 0 <= k < i ==> out@[k] == name@[k] as u8,
            forall|k: int| i <= k < 32 ==> out@[k] == 0u8,
        decreases n - i,
    {
        out[i] = name.get_ascii(i);
        i += 1;
    }
    assert(out@ =~= padded_name(name@).unwrap());
    Some(out)
}

/// What the registry is called with for `params`, or why the call is not
/// made.  In this order: the gateway named in the parameters must be the
/// manager's gateway; the name must have a padded form; the stake must be
/// present; every segment of the parent must convert; both periods must be
/// positive.
pub open spec fn registry_params_of(
    manager: EthManagerView,
    params: ConstructParamsView,
) -> Result<RegistryConstructParamsView, AgentError> {
    match evm_bytes_of(params.ipc_gateway_addr) {
        None => Err(AgentError::AddressConversion),
        Some(gateway) => if gateway != manager.gateway {
            Err(AgentError::Configuration)
        } else {
            match (padded_name(params.name), params.min_validator_stake) {
                (Some(name), Some(stake)) => match route_of(params.parent.children) {
                    None => Err(AgentError::AddressConversion),
                    Some(route) => if params.bottomup_check_period > 0
                        && params.topdown_check_period > 0 {
                        Ok(
                            RegistryConstructParamsView {
                                parent_root: params.parent.root,
                                parent_route: route,
                                name,
                                ipc_gateway_addr: manager.gateway,
                                consensus: params.consensus,
                                min_activation_collateral: stake,
                                min_validators: params.min_validators,
                                bottom_up_check_period: params.bottomup_check_period as u64,
                                top_down_check_period: params.topdown_check_period as u64,
                                majority_percentage: SUBNET_MAJORITY_PERCENTAGE,
                            },
                        )
                    } else {
                        Err(AgentError::Configuration)
                    },
                },
                _ => Err(AgentError::Configuration),
            }
        },
    }
}

/// Where a deployed subnet actor lives, read off the logs of the deployment
/// receipt.  Each log is given as the address its deployment event names, or
/// nothing if it is no deployment event.  The first event counts.  Without a
/// receipt the outcome is `ReceiptUnknown`; a receipt without the event
/// breaks an invariant.
pub open spec fn deployed_address(receipt: Option<Seq<Option<Seq<u8>>>>) -> Result<
    AddressView,
    AgentError,
> {
    match receipt {
        None => Err(AgentError::ReceiptUnknown),
        Some(logs) => {
            let first = first_event(logs, logs.len() as int);
            if first < logs.len() {
                Ok(
                    AddressView::Delegated {
                        namespace: crate::address::EAM_NAMESPACE,
                        subaddress: logs[first].unwrap(),
                    },
                )
            } else {
                Err(AgentError::Fatal)
            }
        },
    }
}

/// The position of the first event among the first `n` logs, or `n`.
pub open spec fn first_event(logs: Seq<Option<Seq<u8>>>, n: int) -> int {
    first_where(logs, |l: Option<Seq<u8>>| l is Some, n)
}

impl EthSubnetManager {
    /// Prepares the deployment of a subnet actor through the registry.
    pub fn create_subnet(&self, params: &ConstructParams) -> (r: Result<
        RegistryConstructParams,
        AgentError,
    >)
        ensures
            match registry_params_of(self@, params@) {
                Ok(p) => r matches Ok(v) && v@ == p,
                Err(e) => r == Err::<RegistryConstructParams, AgentError>(e),
            },
    {
        match self.ensure_same_gateway(&params.ipc_gateway_addr) {
            Ok(()) => {},
            Err(e) => {
                return Err(e);
            },
        }
        let name = match pad_name(params.name.as_str()) {
            Some(n) => n,
            None => {
                return Err(AgentError::Configuration);
            },
        };
        let min_validator_stake = match params.min_validator_stake {
            Some(s) => s,
            None => {
                return Err(AgentError::Configuration);
            },
        };
        let route = match agent_subnet_to_evm_addresses(&params.parent) {
            Ok(r) => r,
            Err(e) => {
                return Err(e);
            },
        };
        if params.bottomup_check_period <= 0 || params.topdown_check_period <= 0 {
            return Err(AgentError::Configuration);
        }
        Ok(
            RegistryConstructParams {
                parent_root: params.parent.root_id(),
                parent_route: route,
                name,
                ipc_gateway_addr: self.gateway,
                consensus: params.consensus,
                min_activation_collateral: min_validator_stake,
                min_validators: params.min_validators,
                bottom_up_check_period: params.bottomup_check_period as u64,
                top_down_check_period: params.topdown_check_period as u64,
                majority_percentage: SUBNET_MAJORITY_PERCENTAGE,
            },
        )
    }

    /// Reads the address of the deployed subnet actor off the receipt of the
    /// deploying transaction `transaction`.  A failure names the
    /// transaction.
    pub fn subnet_deployed(transaction: &Vec<u8>, receipt: &Option<Vec<Option<EvmAddress>>>) -> (r:
        Result<Address, ReceiptFailure>)
        ensures
            match deployed_address(receipt.deep_view()) {
                Ok(a) => r matches Ok(v) && v@ == a,
                Err(e) => r matches Err(f) && f@ == (ReceiptFailureView {
                    error: e,
                    transaction: transaction@,
                }),
            },
    {
        let logs = match receipt {
            Some(logs) => logs,
            None => {
                return Err(ReceiptFailure::new(AgentError::ReceiptUnknown, transaction));
            },
        };
        let ghost l = logs.deep_view();
        let mut i: usize = 0;
        while i < logs.len()
            invariant
                i <= logs.len(),
                l == logs.deep_view(),
                receipt.deep_view() == Some(l),
                first_event(l, i as int) == i,
            decreases logs.len() - i,
        {
            assert(l[i as int] == logs[i as int].deep_view());
            match &logs[i] {
                Some(subnet_addr) => {
                    proof {
                        lemma_first_where_stays(
                            l,
                            |x: Option<Seq<u8>>| x is Some,
                            i as int,
                            l.len() as int,
                        );
                        assert(l[i as int] == Some(subnet_addr@));
                    }
                    return Ok(ethers_address_to_fil_address(subnet_addr));
                },
                None => {},
            }
            i += 1;
        }
        Err(ReceiptFailure::new(AgentError::Fatal, transaction))
    }
}

} // verus!
