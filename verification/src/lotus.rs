//! The native-chain side of the chain adapter: the messages the agent
//! pushes to the message pool and the checks it makes before pushing them.

use vstd::prelude::*;
use crate::address::{Address, AddressView, Network, decoded_address};
use crate::error::AgentError;
use crate::search::{first_where, lemma_first_where_stays};
use crate::subnet_id::{SubnetID, SubnetIdView, subnet_id_of_text};
use crate::text::text_equal;
use crate::tipset::Cid;

verus! {

/// The ID of the init actor, which creates actors.
pub const INIT_ACTOR_ID: u64 = 1;

/// The name under which the subnet actor's code is listed.
pub const MANIFEST_ID: &'static str = "ipc_subnet_actor";

/// The actor methods the agent invokes.
#[derive(Clone, Copy, Debug, PartialEq, Eq, Structural)]
pub enum Method {
    /// `Exec` on the init actor.
    InitExec,
    /// `Join` on a subnet actor.
    Join,
    /// `Leave` on a subnet actor.
    Leave,
    /// `Kill` on a subnet actor.
    Kill,
}

/// A message for the message pool.
#[derive(Debug, PartialEq, Eq)]
pub struct MpoolPushMessage {
    pub to: Address,
    pub from: Address,
    pub method: Method,
    pub params: Vec<u8>,
    pub value: u128,
}

pub struct MpoolPushMessageView {
    pub to: AddressView,
    pub from: AddressView,
    pub method: Method,
    pub params: Seq<u8>,
    pub value: u128,
}

impl View for MpoolPushMessage {
    type V = MpoolPushMessageView;

    open spec fn view(&self) -> MpoolPushMessageView {
        MpoolPushMessageView {
            to: self.to@,
            from: self.from@,
            method: self.method,
            params: self.params@,
            value: self.value,
        }
    }
}

impl MpoolPushMessage {
    /// A message without value.
    pub fn new(to: Address, from: Address, method: Method, params: Vec<u8>) -> (r: Self)
        ensures
            r@ == (MpoolPushMessageView {
                to: to@,
                from: from@,
                method,
                params: params@,
                value: 0,
            }),
    {
        MpoolPushMessage { to, from, method, params, value: 0 }
    }
}

/// The message that invokes `method` on the actor of `subnet`, or why there
/// is none: the chain at hand must be the one the subnet lives on, that is,
/// the name it reports must write the identifier `network`; and the subnet
/// must have an actor.  Both are `Configuration` failures.
pub open spec fn actor_message_of(
    testnet: bool,
    network_name: Seq<char>,
    network: SubnetIdView,
    subnet: SubnetIdView,
    from: AddressView,
    method: Method,
    params: Seq<u8>,
    value: u128,
) -> Result<MpoolPushMessageView, AgentError> {
    if subnet_id_of_text(testnet, network_name) != Some(network) {
        Err(AgentError::Configuration)
    } else {
        match subnet.subnet_actor() {
            None => Err(AgentError::Configuration),
            Some(to) => Ok(MpoolPushMessageView { to, from, method, params, value }),
        }
    }
}

/// The position of the first entry named `name` among the first `n`, or `n`.
pub open spec fn position_of_name(entries: Seq<(Seq<char>, Seq<u8>)>, name: Seq<char>, n: int) -> int {
    first_where(entries, |e: (Seq<char>, Seq<u8>)| e.0 == name, n)
}

/// The view of a list of named code identifiers.
pub open spec fn code_cids_view(entries: Seq<(String, Cid)>) -> Seq<(Seq<char>, Seq<u8>)> {
    entries.map_values(|e: (String, Cid)| (e.0@, e.1@))
}

/// The subnet manager for a native chain, around the client that talks to
/// the chain.
#[derive(Debug)]
pub struct LotusSubnetManager<T> {
    pub lotus_client: T,
}

impl<T> LotusSubnetManager<T> {
    /// A manager that talks through `lotus_client`.
    pub fn new(lotus_client: T) -> (r: Self)
        ensures
            r.lotus_client == lotus_client,
    {
        LotusSubnetManager { lotus_client }
    }

    /// The client the manager talks through.
    pub fn client(&self) -> (r: &T)
        ensures
            *r == self.lotus_client,
    {
        &self.lotus_client
    }

    /// Whether `network` is the network the chain reports under
    /// `network_name`.
    pub fn is_network_match(&self, chain: Network, network: &SubnetID, network_name: &str) -> (r:
        bool)
        ensures
            r == (subnet_id_of_text(chain.is_testnet(), network_name@) == Some(network@)),
    {
        match SubnetID::from_text(chain, network_name) {
            Ok(id) => id.same(network),
            Err(_) => false,
        }
    }

    /// The subnet actor's code identifier among the codes the chain lists:
    /// the first entry under the subnet actor's name.  Its absence is a
    /// `Configuration` failure.
    pub fn get_subnet_actor_code_cid(&self, cid_map: &Vec<(String, Cid)>) -> (r: Result<
        Cid,
        AgentError,
    >)
        ensures
            ({
                let entries = code_cids_view(cid_map@);
                let p = position_of_name(entries, MANIFEST_ID@, entries.len() as int);
                if p < entries.len() {
                    r matches Ok(c) && c@ == entries[p].1
                } else {
                    r == Err::<Cid, AgentError>(AgentError::Configuration)
                }
            }),
    {
        let ghost entries = code_cids_view(cid_map@);
        let mut i: usize = 0;
        while i < cid_map.len()
            invariant
                i <= cid_map.len(),
                entries == code_cids_view(cid_map@),
                position_of_name(entries, MANIFEST_ID@, i as int) == i,
            decreases cid_map.len() - i,
        {
            if text_equal(cid_map[i].0.as_str(), MANIFEST_ID) {
                proof {
                    lemma_first_where_stays(
                        entries,
                        |e: (Seq<char>, Seq<u8>)| e.0 == MANIFEST_ID@,
                        i as int,
                        entries.len() as int,
                    );
                }
                return Ok(cid_map[i].1.clone());
            }
            i += 1;
        }
        Err(AgentError::Configuration)
    }

    /// The message that makes the init actor create a subnet actor.
    /// `network_name` is the name the chain reports, `parent` the parent of
    /// the new subnet, and `init_params` the encoded parameters of the call.
    pub fn create_subnet(
        &self,
        chain: Network,
        network_name: &str,
        parent: &SubnetID,
        from: Address,
        init_params: Vec<u8>,
    ) -> (r: Result<MpoolPushMessage, AgentError>)
        ensures
            subnet_id_of_text(chain.is_testnet(), network_name@) == Some(parent@) ==> (r matches Ok(
                m,
            ) && m@ == (MpoolPushMessageView {
                to: AddressView::ID(INIT_ACTOR_ID),
                from: from@,
                method: Method::InitExec,
                params: init_params@,
                value: 0,
            })),
            subnet_id_of_text(chain.is_testnet(), network_name@) != Some(parent@) ==> r == Err::<
                MpoolPushMessage,
                AgentError,
            >(AgentError::Configuration),
    {
        if !self.is_network_match(chain, parent, network_name) {
            return Err(AgentError::Configuration);
        }
        Ok(MpoolPushMessage::new(Address::new_id(INIT_ACTOR_ID), from, Method::InitExec, init_params))
    }

    /// The address of a subnet actor just created, read off the receipt of
    /// the creating message.
    pub fn created_address(&self, chain: Network, receipt_result: &str) -> (r: Result<
        Address,
        AgentError,
    >)
        ensures
            match decoded_address(chain.is_testnet(), receipt_result@) {
                Some(a) => r matches Ok(addr) && addr@ == a,
                None => r == Err::<Address, AgentError>(AgentError::AddressConversion),
            },
    {
        Address::from_text(chain, receipt_result)
    }

    /// The message by which `from` joins `subnet` with `collateral`.
    /// `network_name` is the name the chain reports and `network` the
    /// network the subnet actor lives on; `params` are the encoded
    /// parameters of the call.
    pub fn join_subnet(
        &self,
        chain: Network,
        network_name: &str,
        network: &SubnetID,
        subnet: &SubnetID,
        from: Address,
        collateral: u128,
        params: Vec<u8>,
    ) -> (r: Result<MpoolPushMessage, AgentError>)
        ensures
            match actor_message_of(
                chain.is_testnet(),
                network_name@,
                network@,
                subnet@,
                from@,
                Method::Join,
                params@,
                collateral,
            ) {
                Ok(m) => r matches Ok(v) && v@ == m,
                Err(e) => r == Err::<MpoolPushMessage, AgentError>(e),
            },
    {
        self.actor_message(chain, network_name, network, subnet, from, Method::Join, params, collateral)
    }

    /// The message by which `from` leaves `subnet`.
    pub fn leave_subnet(
        &self,
        chain: Network,
        network_name: &str,
        network: &SubnetID,
        subnet: &SubnetID,
        from: Address,
    ) -> (r: Result<MpoolPushMessage, AgentError>)
        ensures
            match actor_message_of(
                chain.is_testnet(),
                network_name@,
                network@,
                subnet@,
                from@,
                Method::Leave,
                Seq::empty(),
                0,
            ) {
                Ok(m) => r matches Ok(v) && v@ == m,
                Err(e) => r == Err::<MpoolPushMessage, AgentError>(e),
            },
    {
        self.actor_message(chain, network_name, network, subnet, from, Method::Leave, Vec::new(), 0)
    }

    /// The message by which `from` kills `subnet`.
    pub fn kill_subnet(
        &self,
        chain: Network,
        network_name: &str,
        network: &SubnetID,
        subnet: &SubnetID,
        from: Address,
    ) -> (r: Result<MpoolPushMessage, AgentError>)
        ensures
            match actor_message_of(
                chain.is_testnet(),
                network_name@,
                network@,
                subnet@,
                from@,
                Method::Kill,
                Seq::empty(),
                0,
            ) {
                Ok(m) => r matches Ok(v) && v@ == m,
                Err(e) => r == Err::<MpoolPushMessage, AgentError>(e),
            },
    {
        self.actor_message(chain, network_name, network, subnet, from, Method::Kill, Vec::new(), 0)
    }

    fn actor_message(
        &self,
        chain: Network,
        network_name: &str,
        network: &SubnetID,
        subnet: &SubnetID,
        from: Address,
        method: Method,
        params: Vec<u8>,
        value: u128,
    ) -> (r: Result<MpoolPushMessage, AgentError>)
        ensures
            match actor_message_of(
                chain.is_testnet(),
                network_name@,
                network@,
                subnet@,
                from@,
                method,
                params@,
                value,
            ) {
                Ok(m) => r matches Ok(v) && v@ == m,
                Err(e) => r == Err::<MpoolPushMessage, AgentError>(e),
            },
    {
        if !self.is_network_match(chain, network, network_name) {
            return Err(AgentError::Configuration);
        }
        match subnet.subnet_actor() {
            Some(to) => Ok(MpoolPushMessage { to, from, method, params, value }),
            None => Err(AgentError::Configuration),
        }
    }
}

} // verus!
