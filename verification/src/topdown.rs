//! The top-down checkpoint manager: parent-to-child checkpoints for one
//! (child, parent) pair.

use vstd::prelude::*;
use crate::address::{Address, AddressView};
use crate::attempt::Attempt;
use crate::config::{Subnet, SubnetView};
use crate::epoch::{ChainEpoch, CheckpointPeriod, is_owed, next_submission_epoch};
use crate::error::AgentError;
use crate::payload::{
    CrossMsg, CrossMsgView, TopDownCheckpoint, TopDownCheckpointView, contiguous_from,
    is_contiguous_from,
};
use crate::subnet_id::{SubnetID, SubnetIdView};

verus! {

/// The ID of the gateway actor, to which top-down checkpoints are addressed.
pub const GATEWAY_ACTOR_ID: u64 = 64;

/// How far behind the last executed checkpoint the child's committed state is
/// read: the state two epochs after it.
pub const SUBMISSION_TIPSET_OFFSET: ChainEpoch = 2;

/// A top-down checkpoint together with where it goes and who sends it.
#[derive(Debug, PartialEq, Eq)]
pub struct TopDownSubmission {
    pub to: Address,
    pub from: Address,
    pub checkpoint: TopDownCheckpoint,
}

/// The height of the child tipset at which the applied nonce is read for a
/// checkpoint that follows `last_executed`; absent when it is not an epoch.
pub fn submission_tipset_height(last_executed: ChainEpoch) -> (r: Option<ChainEpoch>)
    ensures
        last_executed + 2 <= i64::MAX ==> r == Some((last_executed + 2) as ChainEpoch),
        last_executed + 2 > i64::MAX ==> r is None,
{
    last_executed.checked_add(SUBMISSION_TIPSET_OFFSET)
}

/// The nonce of the first message the child has not applied yet, absent when
/// the applied nonce is the largest there is.
pub fn first_missing_nonce(applied_topdown_nonce: u64) -> (r: Option<u64>)
    ensures
        applied_topdown_nonce < u64::MAX ==> r == Some((applied_topdown_nonce + 1) as u64),
        applied_topdown_nonce == u64::MAX ==> r is None,
{
    applied_topdown_nonce.checked_add(1)
}

/// Assembles the top-down checkpoint for `submission_epoch` from the nonce
/// the child has applied and the messages the parent returned for the nonces
/// after it, and addresses it to the gateway on behalf of `account`.
///
/// The messages must continue the applied nonce without a gap: the first has
/// nonce `applied_topdown_nonce + 1` and each further one the next nonce.
/// Otherwise nothing is assembled and the failure is `MessageGap`.
pub fn submit_topdown_checkpoint(
    submission_epoch: ChainEpoch,
    account: &Address,
    applied_topdown_nonce: u64,
    top_down_msgs: Vec<CrossMsg>,
) -> (r: Result<TopDownSubmission, AgentError>)
    ensures
        contiguous_from(top_down_msgs.deep_view(), applied_topdown_nonce + 1) ==> (r matches Ok(s)
            && s.to@ == AddressView::ID(GATEWAY_ACTOR_ID) && s.from@ == account@ && s.checkpoint@
            == (TopDownCheckpointView {
            epoch: submission_epoch,
            top_down_msgs: top_down_msgs.deep_view(),
        })),
        !contiguous_from(top_down_msgs.deep_view(), applied_topdown_nonce + 1) ==> r == Err::<
            TopDownSubmission,
            AgentError,
        >(AgentError::MessageGap),
{
    let nonce: u128 = applied_topdown_nonce as u128 + 1;
    if !is_contiguous_from(&top_down_msgs, nonce) {
        return Err(AgentError::MessageGap);
    }
    Ok(
        TopDownSubmission {
            to: Address::new_id(GATEWAY_ACTOR_ID),
            from: account.clone(),
            checkpoint: TopDownCheckpoint { epoch: submission_epoch, top_down_msgs },
        },
    )
}

/// Manages top-down checkpoints of one child subnet.
#[derive(Debug)]
pub struct TopDownCheckpointManager {
    parent: SubnetID,
    child_subnet: Subnet,
    checkpoint_period: CheckpointPeriod,
}

pub struct TopDownManagerView {
    pub parent: SubnetIdView,
    pub child_subnet: SubnetView,
    pub checkpoint_period: int,
}

impl View for TopDownCheckpointManager {
    type V = TopDownManagerView;

    closed spec fn view(&self) -> TopDownManagerView {
        TopDownManagerView {
            parent: self.parent@,
            child_subnet: self.child_subnet@,
            checkpoint_period: self.checkpoint_period@,
        }
    }
}

impl TopDownCheckpointManager {
    /// A manager for `child_subnet` under `parent`, with the top-down period
    /// read from the child's gateway.  The period must be positive and
    /// `parent` must be the parent of the child; anything else is a
    /// `Configuration` failure.
    pub fn new(parent: SubnetID, child_subnet: Subnet, checkpoint_period: ChainEpoch) -> (r: Result<
        Self,
        AgentError,
    >)
        ensures
            checkpoint_period > 0 && child_subnet@.id.parent() == Some(parent@) ==> (r matches Ok(m)
                && m@ == (TopDownManagerView {
                parent: parent@,
                child_subnet: child_subnet@,
                checkpoint_period: checkpoint_period as int,
            })),
            !(checkpoint_period > 0 && child_subnet@.id.parent() == Some(parent@)) ==> (r matches Err(
                e,
            ) && e == AgentError::Configuration),
    {
        let period = match CheckpointPeriod::new(checkpoint_period) {
            Ok(p) => p,
            Err(e) => {
                return Err(e);
            },
        };
        let is_parent = match child_subnet.id.parent() {
            Some(p) => p.same(&parent),
            None => false,
        };
        if !is_parent {
            return Err(AgentError::Configuration);
        }
        Ok(TopDownCheckpointManager { parent, child_subnet, checkpoint_period: period })
    }

    /// The parent subnet.
    pub fn parent_subnet_id(&self) -> (r: &SubnetID)
        ensures
            r@ == self@.parent,
    {
        &self.parent
    }

    /// The child subnet.
    pub fn child_subnet(&self) -> (r: &Subnet)
        ensures
            r@ == self@.child_subnet,
    {
        &self.child_subnet
    }

    /// The top-down checkpoint period.
    pub fn checkpoint_period(&self) -> (r: ChainEpoch)
        ensures
            r == self@.checkpoint_period,
            r > 0,
    {
        self.checkpoint_period.epochs()
    }

    /// A fresh turn for one validator.
    pub fn attempt(&self) -> (r: Attempt)
        ensures
            r@ == crate::attempt::fresh(self@.checkpoint_period),
    {
        Attempt::new(self.checkpoint_period)
    }

    /// The epoch `validator` should submit for next, given the epochs it has
    /// voted for: the smallest slot after `last_executed` that the parent
    /// chain has reached at `current` and that is not among `voted`.
    pub fn next_submission_epoch(
        &self,
        last_executed: ChainEpoch,
        current: ChainEpoch,
        voted: &Vec<ChainEpoch>,
    ) -> (r: Option<ChainEpoch>)
        ensures
            match r {
                Some(e) => is_owed(
                    e as int,
                    self@.checkpoint_period,
                    last_executed as int,
                    current as int,
                    voted@,
                ) && forall|o: int| #[trigger]
                    is_owed(
                        o,
                        self@.checkpoint_period,
                        last_executed as int,
                        current as int,
                        voted@,
                    ) ==> e <= o,
                None => forall|o: int|
                    !#[trigger] is_owed(
                        o,
                        self@.checkpoint_period,
                        last_executed as int,
                        current as int,
                        voted@,
                    ),
            },
    {
        next_submission_epoch(self.checkpoint_period, last_executed, current, voted)
    }

    /// The payload for `epoch`: the messages the parent holds for the child
    /// after the nonce the child has applied.  Every payload built has
    /// nonces `n, n + 1, ...` with `n = applied_topdown_nonce + 1`; messages
    /// that do not are a `MessageGap` failure.
    pub fn build_checkpoint(
        &self,
        epoch: ChainEpoch,
        applied_topdown_nonce: u64,
        top_down_msgs: Vec<CrossMsg>,
    ) -> (r: Result<TopDownCheckpoint, AgentError>)
        ensures
            contiguous_from(top_down_msgs.deep_view(), applied_topdown_nonce + 1) ==> (r matches Ok(
                c,
            ) && c@ == (TopDownCheckpointView {
                epoch,
                top_down_msgs: top_down_msgs.deep_view(),
            })),
            !contiguous_from(top_down_msgs.deep_view(), applied_topdown_nonce + 1) ==> r == Err::<
                TopDownCheckpoint,
                AgentError,
            >(AgentError::MessageGap),
            r matches Ok(c) ==> contiguous_from(c@.top_down_msgs, applied_topdown_nonce + 1),
    {
        let nonce: u128 = applied_topdown_nonce as u128 + 1;
        if !is_contiguous_from(&top_down_msgs, nonce) {
            return Err(AgentError::MessageGap);
        }
        Ok(TopDownCheckpoint { epoch, top_down_msgs })
    }
}

} // verus!
