//! Parameters of the subnet actor calls the agent makes.

use vstd::prelude::*;
use crate::address::{Address, AddressView};
use crate::epoch::ChainEpoch;
use crate::subnet_id::{SubnetID, SubnetIdView};

verus! {

/// What a new subnet is constructed with.
#[derive(Debug, PartialEq, Eq)]
pub struct ConstructParams {
    pub parent: SubnetID,
    pub name: String,
    pub ipc_gateway_addr: Address,
    pub consensus: u8,
    /// The minimal stake of a validator in the smallest unit of the token;
    /// absent when the amount is negative or does not fit 128 bits.
    pub min_validator_stake: Option<u128>,
    pub min_validators: u64,
    pub bottomup_check_period: ChainEpoch,
    pub topdown_check_period: ChainEpoch,
}

pub struct ConstructParamsView {
    pub parent: SubnetIdView,
    pub name: Seq<char>,
    pub ipc_gateway_addr: AddressView,
    pub consensus: u8,
    pub min_validator_stake: Option<u128>,
    pub min_validators: u64,
    pub bottomup_check_period: ChainEpoch,
    pub topdown_check_period: ChainEpoch,
}

impl View for ConstructParams {
    type V = ConstructParamsView;

    open spec fn view(&self) -> ConstructParamsView {
        ConstructParamsView {
            parent: self.parent@,
            name: self.name@,
            ipc_gateway_addr: self.ipc_gateway_addr@,
            consensus: self.consensus,
            min_validator_stake: self.min_validator_stake,
            min_validators: self.min_validators,
            bottomup_check_period: self.bottomup_check_period,
            topdown_check_period: self.topdown_check_period,
        }
    }
}

/// What a validator joins a subnet with.
#[derive(Debug, PartialEq, Eq)]
pub struct JoinParams {
    pub validator_net_addr: String,
}

/// Number of smallest units in one whole token.
pub const ATTO_PER_WHOLE: u128 = 1_000_000_000_000_000_000;

/// An amount of whole tokens in the smallest unit of the token.
pub fn whole_to_atto(whole: u64) -> (r: u128)
    ensures
        r == whole * ATTO_PER_WHOLE,
{
    assert(whole * ATTO_PER_WHOLE <= u128::MAX) by (nonlinear_arith)
        requires
            whole <= u64::MAX,
            ATTO_PER_WHOLE == 1_000_000_000_000_000_000,
    ;
    whole as u128 * ATTO_PER_WHOLE
}

} // verus!
