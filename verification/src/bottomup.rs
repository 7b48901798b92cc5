//! The bottom-up checkpoint manager: child-to-parent checkpoints for one
//! (child, parent) pair.

use vstd::prelude::*;
use crate::address::{Address, AddressView};
use crate::attempt::Attempt;
use crate::config::{Subnet, SubnetView};
use crate::epoch::{ChainEpoch, CheckpointPeriod, is_multiple, is_owed, next_submission_epoch};
use crate::error::AgentError;
use crate::payload::{
    BottomUpCheckpoint, BottomUpCheckpointView, ChildCheck, ChildCheckView, CrossMsg,
    CrossMsgView, ascending_without_gaps, contiguous_from, distinct_sources,
    has_distinct_sources, is_contiguous_from,
};
use crate::subnet_id::{SubnetID, SubnetIdView};
use crate::tipset::Cid;

verus! {

/// Why a bottom-up checkpoint cannot be assembled, if it cannot.
///
/// An epoch that is not a multiple of the period after the last executed
/// epoch breaks an invariant.  A template that lists a child subnet twice is
/// put down to the endpoint and tried again at the next poll.  Cross
/// messages whose nonces do not ascend one by one are a message gap.
pub open spec fn bottom_up_failure(
    period: int,
    epoch: int,
    last_executed: int,
    children: Seq<ChildCheckView>,
    cross_msgs: Seq<CrossMsgView>,
) -> Option<AgentError> {
    if !(is_multiple(epoch, period) && epoch > last_executed) {
        Some(AgentError::Fatal)
    } else if !distinct_sources(children) {
        Some(AgentError::Transient)
    } else if !ascending_without_gaps(cross_msgs) {
        Some(AgentError::MessageGap)
    } else {
        None
    }
}

/// A bottom-up checkpoint together with where it goes and who sends it.
#[derive(Debug, PartialEq, Eq)]
pub struct BottomUpSubmission {
    pub to: Address,
    pub from: Address,
    pub checkpoint: BottomUpCheckpoint,
}

/// Addresses a bottom-up checkpoint to the actor that anchors its source
/// subnet on the parent, on behalf of `account`.  A checkpoint of a root
/// network has nowhere to go, a `Configuration` failure.
pub fn submit_bottomup_checkpoint(account: &Address, checkpoint: BottomUpCheckpoint) -> (r: Result<
    BottomUpSubmission,
    AgentError,
>)
    ensures
        match checkpoint@.source.subnet_actor() {
            Some(actor) => r matches Ok(s) && s.to@ == actor && s.from@ == account@ && s.checkpoint@
                == checkpoint@,
            None => r == Err::<BottomUpSubmission, AgentError>(AgentError::Configuration),
        },
{
    match checkpoint.source.subnet_actor() {
        Some(to) => Ok(BottomUpSubmission { to, from: account.clone(), checkpoint }),
        None => Err(AgentError::Configuration),
    }
}

/// Manages bottom-up checkpoints of one child subnet.
#[derive(Debug)]
pub struct BottomUpCheckpointManager {
    parent: SubnetID,
    child_subnet: Subnet,
    checkpoint_period: CheckpointPeriod,
}

pub struct BottomUpManagerView {
    pub parent: SubnetIdView,
    pub child_subnet: SubnetView,
    pub checkpoint_period: int,
}

impl View for BottomUpCheckpointManager {
    type V = BottomUpManagerView;

    closed spec fn view(&self) -> BottomUpManagerView {
        BottomUpManagerView {
            parent: self.parent@,
            child_subnet: self.child_subnet@,
            checkpoint_period: self.checkpoint_period@,
        }
    }
}

impl BottomUpCheckpointManager {
    /// A manager for `child_subnet` under `parent`, with the bottom-up period
    /// read from the subnet actor on the parent.  The period must be
    /// positive and `parent` must be the parent of the child; anything else
    /// is a `Configuration` failure.
    pub fn new(parent: SubnetID, child_subnet: Subnet, checkpoint_period: ChainEpoch) -> (r: Result<
        Self,
        AgentError,
    >)
        ensures
            checkpoint_period > 0 && child_subnet@.id.parent() == Some(parent@) ==> (r matches Ok(m)
                && m@ == (BottomUpManagerView {
                parent: parent@,
                child_subnet: child_subnet@,
                checkpoint_period: checkpoint_period as int,
            })),
            !(checkpoint_period > 0 && child_subnet@.id.parent() == Some(parent@)) ==> (r matches Err(
                e,
            ) && e == AgentError::Configuration),
    {
        let period = match CheckpointPeriod::new(checkpoint_period) {
            Ok(p) => p,
            Err(e) => {
                return Err(e);
            },
        };
        let is_parent = match child_subnet.id.parent() {
            Some(p) => p.same(&parent),
            None => false,
        };
        if !is_parent {
            return Err(AgentError::Configuration);
        }
        Ok(BottomUpCheckpointManager { parent, child_subnet, checkpoint_period: period })
    }

    /// The parent subnet.
    pub fn parent_subnet_id(&self) -> (r: &SubnetID)
        ensures
            r@ == self@.parent,
    {
        &self.parent
    }

    /// The child subnet.
    pub fn child_subnet(&self) -> (r: &Subnet)
        ensures
            r@ == self@.child_subnet,
    {
        &self.child_subnet
    }

    /// The bottom-up checkpoint period.
    pub fn checkpoint_period(&self) -> (r: ChainEpoch)
        ensures
            r == self@.checkpoint_period,
            r > 0,
    {
        self.checkpoint_period.epochs()
    }

    /// A fresh turn for one validator.
    pub fn attempt(&self) -> (r: Attempt)
        ensures
            r@ == crate::attempt::fresh(self@.checkpoint_period),
    {
        Attempt::new(self.checkpoint_period)
    }

    /// The epoch a validator should submit for next, given the epochs it has
    /// voted for: the smallest slot after `last_executed` that the child
    /// chain has reached at `current` and that is not among `voted`.
    pub fn next_submission_epoch(
        &self,
        last_executed: ChainEpoch,
        current: ChainEpoch,
        voted: &Vec<ChainEpoch>,
    ) -> (r: Option<ChainEpoch>)
        ensures
            match r {
                Some(e) => is_owed(
                    e as int,
                    self@.checkpoint_period,
                    last_executed as int,
                    current as int,
                    voted@,
                ) && forall|o: int| #[trigger]
                    is_owed(
                        o,
                        self@.checkpoint_period,
                        last_executed as int,
                        current as int,
                        voted@,
                    ) ==> e <= o,
                None => forall|o: int|
                    !#[trigger] is_owed(
                        o,
                        self@.checkpoint_period,
                        last_executed as int,
                        current as int,
                        voted@,
                    ),
            },
    {
        next_submission_epoch(self.checkpoint_period, last_executed, current, voted)
    }

    /// Assembles the checkpoint of the child subnet for `epoch` from the
    /// template the child chain gave for that epoch (`children` and
    /// `cross_msgs`), the previous checkpoint the parent knows of, and the
    /// child's current tipset as `proof`.
    ///
    /// The result is a checkpoint of the child with exactly these parts, or
    /// the failure that `bottom_up_failure` names.  Every checkpoint built is
    /// for a multiple of the period after `last_executed`.
    pub fn build_checkpoint(
        &self,
        epoch: ChainEpoch,
        last_executed: ChainEpoch,
        children: Vec<ChildCheck>,
        cross_msgs: Vec<CrossMsg>,
        prev_check: Option<Cid>,
        proof: Vec<u8>,
    ) -> (r: Result<BottomUpCheckpoint, AgentError>)
        ensures
            match bottom_up_failure(
                self@.checkpoint_period,
                epoch as int,
                last_executed as int,
                children.deep_view(),
                cross_msgs.deep_view(),
            ) {
                Some(e) => r == Err::<BottomUpCheckpoint, AgentError>(e),
                None => r matches Ok(c) && c@ == (BottomUpCheckpointView {
                    source: self@.child_subnet.id,
                    epoch,
                    prev_check: match prev_check {
                        Some(p) => Some(p@),
                        None => None,
                    },
                    children: children.deep_view(),
                    cross_msgs: cross_msgs.deep_view(),
                    proof: proof@,
                }),
            },
            r matches Ok(c) ==> c@.epoch as int % self@.checkpoint_period == 0 && c@.epoch
                > last_executed,
    {
        let period: ChainEpoch = self.checkpoint_period.epochs();
        if epoch <= last_executed || !divides(period, epoch) {
            return Err(AgentError::Fatal);
        }
        if !has_distinct_sources(&children) {
            return Err(AgentError::Transient);
        }
        let ghost m = cross_msgs.deep_view();
        if cross_msgs.len() > 0 {
            assert(m[0] == cross_msgs[0]@);
            if !is_contiguous_from(&cross_msgs, cross_msgs[0].nonce as u128) {
                return Err(AgentError::MessageGap);
            }
        }
        Ok(
            BottomUpCheckpoint {
                source: self.child_subnet.id.clone(),
                epoch,
                prev_check,
                children,
                cross_msgs,
                proof,
            },
        )
    }
}

/// Whether `epoch` is a whole number of periods.
pub fn divides(period: ChainEpoch, epoch: ChainEpoch) -> (r: bool)
    requires
        period > 0,
    ensures
        r == is_multiple(epoch as int, period as int),
{
    let wide: i128 = epoch as i128;
    if wide >= 0 {
        wide % (period as i128) == 0
    } else {
        proof {
            lemma_negated_multiple(epoch as int, period as int);
        }
        (-wide) % (period as i128) == 0
    }
}

/// A number is a multiple of the period exactly when its negation is.
pub proof fn lemma_negated_multiple(x: int, period: int)
    requires
        period > 0,
    ensures
        is_multiple(x, period) == is_multiple(-x, period),
{
    vstd::arithmetic::div_mod::lemma_fundamental_div_mod(x, period);
    vstd::arithmetic::div_mod::lemma_fundamental_div_mod(-x, period);
    vstd::arithmetic::div_mod::lemma_mod_bound(x, period);
    vstd::arithmetic::div_mod::lemma_mod_bound(-x, period);
    let q = x / period;
    let r = x % period;
    let q2 = (-x) / period;
    let r2 = (-x) % period;
    assert(period * (q + q2) == -(r + r2)) by (nonlinear_arith)
        requires
            x == period * q + r,
            -x == period * q2 + r2,
    ;
    assert(r + r2 == 0 || r + r2 == period) by (nonlinear_arith)
        requires
            period * (q + q2) == -(r + r2),
            0 <= r < period,
            0 <= r2 < period,
            period > 0,
    ;
}

} // verus!
