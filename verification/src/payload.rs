//! Checkpoint payloads and the rules a payload must meet before it is
//! submitted.

use vstd::prelude::*;
use crate::address::copy_bytes;
use crate::epoch::ChainEpoch;
use crate::subnet_id::{SubnetID, SubnetIdView};
use crate::tipset::Cid;

verus! {

/// A cross-net message.  Only its nonce matters to the agent; the message
/// itself travels as the chain encoded it.
#[derive(Debug, PartialEq, Eq)]
pub struct CrossMsg {
    pub nonce: u64,
    pub message: Vec<u8>,
}

pub struct CrossMsgView {
    pub nonce: u64,
    pub message: Seq<u8>,
}

impl View for CrossMsg {
    type V = CrossMsgView;

    open spec fn view(&self) -> CrossMsgView {
        CrossMsgView { nonce: self.nonce, message: self.message@ }
    }
}

impl DeepView for CrossMsg {
    type V = CrossMsgView;

    open spec fn deep_view(&self) -> CrossMsgView {
        self@
    }
}

impl Clone for CrossMsg {
    fn clone(&self) -> (r: Self)
        ensures
            r@ == self@,
    {
        CrossMsg { nonce: self.nonce, message: copy_bytes(&self.message) }
    }
}

/// The checkpoints a child of the source subnet committed.
#[derive(Debug, PartialEq, Eq)]
pub struct ChildCheck {
    pub source: SubnetID,
    pub checks: Vec<Cid>,
}

pub struct ChildCheckView {
    pub source: SubnetIdView,
    pub checks: Seq<Seq<u8>>,
}

impl View for ChildCheck {
    type V = ChildCheckView;

    open spec fn view(&self) -> ChildCheckView {
        ChildCheckView { source: self.source@, checks: self.checks.deep_view() }
    }
}

impl DeepView for ChildCheck {
    type V = ChildCheckView;

    open spec fn deep_view(&self) -> ChildCheckView {
        self@
    }
}

/// A parent-to-child checkpoint.
#[derive(Debug, PartialEq, Eq)]
pub struct TopDownCheckpoint {
    pub epoch: ChainEpoch,
    pub top_down_msgs: Vec<CrossMsg>,
}

pub struct TopDownCheckpointView {
    pub epoch: ChainEpoch,
    pub top_down_msgs: Seq<CrossMsgView>,
}

impl View for TopDownCheckpoint {
    type V = TopDownCheckpointView;

    open spec fn view(&self) -> TopDownCheckpointView {
        TopDownCheckpointView { epoch: self.epoch, top_down_msgs: self.top_down_msgs.deep_view() }
    }
}

/// A child-to-parent checkpoint.
#[derive(Debug, PartialEq, Eq)]
pub struct BottomUpCheckpoint {
    pub source: SubnetID,
    pub epoch: ChainEpoch,
    pub prev_check: Option<Cid>,
    pub children: Vec<ChildCheck>,
    pub cross_msgs: Vec<CrossMsg>,
    pub proof: Vec<u8>,
}

pub struct BottomUpCheckpointView {
    pub source: SubnetIdView,
    pub epoch: ChainEpoch,
    pub prev_check: Option<Seq<u8>>,
    pub children: Seq<ChildCheckView>,
    pub cross_msgs: Seq<CrossMsgView>,
    pub proof: Seq<u8>,
}

impl View for BottomUpCheckpoint {
    type V = BottomUpCheckpointView;

    open spec fn view(&self) -> BottomUpCheckpointView {
        BottomUpCheckpointView {
            source: self.source@,
            epoch: self.epoch,
            prev_check: match self.prev_check {
                Some(c) => Some(c@),
                None => None,
            },
            children: self.children.deep_view(),
            cross_msgs: self.cross_msgs.deep_view(),
            proof: self.proof@,
        }
    }
}

/// Two checkpoints are equivalent when they are for the same source and
/// epoch and their payload digests agree.  The parent chain commits at most
/// one class of equivalent checkpoints per source and epoch.
pub open spec fn equivalent(
    a: BottomUpCheckpointView,
    digest_a: Seq<u8>,
    b: BottomUpCheckpointView,
    digest_b: Seq<u8>,
) -> bool {
    a.source == b.source && a.epoch == b.epoch && digest_a == digest_b
}

impl BottomUpCheckpoint {
    /// Whether `other`, whose payload digest is `other_digest`, is
    /// equivalent to this checkpoint, whose payload digest is `digest`.
    pub fn is_equivalent(&self, digest: &Cid, other: &BottomUpCheckpoint, other_digest: &Cid) -> (r:
        bool)
        ensures
            r == equivalent(self@, digest@, other@, other_digest@),
    {
        self.epoch == other.epoch && self.source.same(&other.source) && digest.same(other_digest)
    }
}

/// The nonces are `first, first + 1, first + 2, ...` in this order.
pub open spec fn contiguous_from(msgs: Seq<CrossMsgView>, first: int) -> bool {
    forall|i: int| 0 <= i < msgs.len() ==> (#[trigger] msgs[i]).nonce == first + i
}

/// The nonces ascend one by one, with no gap and no repetition.
pub open spec fn ascending_without_gaps(msgs: Seq<CrossMsgView>) -> bool {
    msgs.len() > 0 ==> contiguous_from(msgs, msgs[0].nonce as int)
}

/// No two entries come from the same subnet.
pub open spec fn distinct_sources(children: Seq<ChildCheckView>) -> bool {
    forall|i: int, j: int|
        0 <= i < j < children.len() ==> (#[trigger] children[i]).source != (
        #[trigger] children[j]).source
}

/// Whether the nonces of `msgs` run on from `first` without a gap.
pub fn is_contiguous_from(msgs: &Vec<CrossMsg>, first: u128) -> (r: bool)
    ensures
        r == contiguous_from(msgs.deep_view(), first as int),
{
    let ghost m = msgs.deep_view();
    let mut i: usize = 0;
    while i < msgs.len()
        invariant
            i <= msgs.len(),
            m == msgs.deep_view(),
            forall|k: int| 0 <= k < i ==> (#[trigger] m[k]).nonce == first + k,
        decreases msgs.len() - i,
    {
        assert(m[i as int] == msgs[i as int]@);
        let expected: u128 = match first.checked_add(i as u128) {
            Some(e) => e,
            None => {
                return false;
            },
        };
        if msgs[i].nonce as u128 != expected {
            return false;
        }
        i += 1;
    }
    true
}

/// The messages of `msgs` whose nonce is `from_nonce` or later, in their
/// order.
pub fn messages_from(msgs: Vec<CrossMsg>, from_nonce: u64) -> (r: Vec<CrossMsg>)
    ensures
        r.deep_view() == msgs.deep_view().filter(|m: CrossMsgView| m.nonce >= from_nonce),
{
    let ghost all = msgs.deep_view();
    let ghost keep = |m: CrossMsgView| m.nonce >= from_nonce;
    let mut out: Vec<CrossMsg> = Vec::new();
    let mut i: usize = 0;
    while i < msgs.len()
        invariant
            i <= msgs.len(),
            all == msgs.deep_view(),
            keep == (|m: CrossMsgView| m.nonce >= from_nonce),
            out.deep_view() == all.take(i as int).filter(keep),
        decreases msgs.len() - i,
    {
        proof {
            assert(all.take(i + 1).drop_last() =~= all.take(i as int));
            assert(all.take(i + 1).last() == msgs[i as int]@);
            reveal(Seq::filter);
        }
        if msgs[i].nonce >= from_nonce {
            let ghost before = out.deep_view();
            out.push(msgs[i].clone());
            assert(out.deep_view() =~= before.push(msgs[i as int]@));
        }
        i += 1;
    }
    assert(all.take(all.len() as int) =~= all);
    out
}

/// Whether no two of `children` share a source subnet.
pub fn has_distinct_sources(children: &Vec<ChildCheck>) -> (r: bool)
    ensures
        r == distinct_sources(children.deep_view()),
{
    let ghost c = children.deep_view();
    let mut j: usize = 0;
    while j < children.len()
        invariant
            j <= children.len(),
            c == children.deep_view(),
            forall|a: int, b: int|
                0 <= a < b < j ==> (#[trigger] c[a]).source != (#[trigger] c[b]).source,
        decreases children.len() - j,
    {
        let mut i: usize = 0;
        while i < j
            invariant
                i <= j < children.len(),
                c == children.deep_view(),
                forall|a: int| 0 <= a < i ==> (#[trigger] c[a]).source != c[j as int].source,
            decreases j - i,
        {
            assert(c[i as int] == children[i as int]@);
            assert(c[j as int] == children[j as int]@);
            if children[i].source.same(&children[j].source) {
                return false;
            }
            i += 1;
        }
        j += 1;
    }
    true
}

} // verus!
