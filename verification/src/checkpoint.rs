//! The checkpoint subsystem: which (child, parent) pairs are supervised under
//! a configuration snapshot, and how the set of supervisors follows reloads
//! and shutdown requests.

use vstd::prelude::*;
use crate::config::{
    ConfigSnapshot, Subnet, SubnetView, distinct_ids, entry_of, has_id, lemma_entry_of,
    manageable, managed_pairs, pair_of,
};

verus! {

/// The view of a list of (child, parent) pairs.
pub open spec fn pairs_view(v: Seq<(Subnet, Subnet)>) -> Seq<(SubnetView, SubnetView)> {
    v.map_values(|p: (Subnet, Subnet)| (p.0@, p.1@))
}

/// No subnet is the child of two pairs.
pub open spec fn distinct_children(pairs: Seq<(SubnetView, SubnetView)>) -> bool {
    forall|i: int, j: int|
        0 <= i < j < pairs.len() ==> (#[trigger] pairs[i]).0.id != (#[trigger] pairs[j]).0.id
}

/// The (child, parent) pairs that need a supervisor: every configured subnet
/// with at least one account whose parent is configured as well, paired with
/// the entry of that parent, in snapshot order.  No subnet is the child of
/// two of them.
pub fn subnets_to_manage(config: &ConfigSnapshot) -> (r: Vec<(Subnet, Subnet)>)
    ensures
        pairs_view(r@) == managed_pairs(config@),
        distinct_children(pairs_view(r@)),
{
    let ghost s = config@;
    let n: usize = config.len();
    proof {
        lemma_managed_children_distinct(s);
    }
    let ghost f = |x: SubnetView| pair_of(s, x);
    let mut out: Vec<(Subnet, Subnet)> = Vec::new();
    let mut i: usize = 0;
    while i < n
        invariant
            i <= n,
            n == s.len(),
            s == config@,
            f == (|x: SubnetView| pair_of(s, x)),
            pairs_view(out@) == s.take(i as int).filter_map(f),
        decreases n - i,
    {
        let child = config.entry(i);
        let ghost before = pairs_view(out@);
        proof {
            assert(s.take(i + 1).drop_last() =~= s.take(i as int));
            assert(s.take(i + 1).last() == child@);
        }
        if child.accounts.len() > 0 {
            match child.id.parent() {
                Some(parent_id) => {
                    match config.get(&parent_id) {
                        Some(parent) => {
                            proof {
                                lemma_entry_of(s, parent_id@);
                                assert(child.accounts.deep_view().len() == child.accounts.len());
                                assert(manageable(s, child@));
                            }
                            out.push((child.clone(), parent.clone()));
                            assert(pairs_view(out@) =~= before + seq![(child@, parent@)]);
                        },
                        None => {
                            proof {
                                lemma_entry_of(s, parent_id@);
                            }
                        },
                    }
                },
                None => {},
            }
        } else {
            assert(child.accounts.deep_view().len() == child.accounts.len());
        }
        i += 1;
    }
    assert(s.take(s.len() as int) =~= s);
    out
}

/// Seconds the subsystem is given to wind down after a shutdown request.
pub const SUBSYSTEM_SHUTDOWN_GRACE: u64 = 10;

/// Whatever the function maps an element to occurs in the filtered mapping.
pub proof fn lemma_filter_map_keeps<A, B>(s: Seq<A>, f: spec_fn(A) -> Option<B>, i: int)
    requires
        0 <= i < s.len(),
        f(s[i]) is Some,
    ensures
        s.filter_map(f).contains(f(s[i]).unwrap()),
    decreases s.len(),
{
    let rest = s.drop_last();
    let kept = rest.filter_map(f);
    if i == s.len() - 1 {
        let v = f(s.last()).unwrap();
        assert(s.filter_map(f) == kept + seq![v]);
        assert((kept + seq![v])[kept.len() as int] == v);
    } else {
        lemma_filter_map_keeps(rest, f, i);
        let v = f(s[i]).unwrap();
        let k = choose|k: int| 0 <= k < kept.len() && kept[k] == v;
        match f(s.last()) {
            Some(w) => {
                assert((kept + seq![w])[k] == v);
            },
            None => {},
        }
    }
}

/// Two places in a filtered mapping come from two places of the list, in
/// the same order.
pub proof fn lemma_filter_map_order<A, B>(s: Seq<A>, f: spec_fn(A) -> Option<B>, i: int, j: int) -> (r:
    (int, int))
    requires
        0 <= i < j < s.filter_map(f).len(),
    ensures
        0 <= r.0 < r.1 < s.len(),
        f(s[r.0]) == Some(s.filter_map(f)[i]),
        f(s[r.1]) == Some(s.filter_map(f)[j]),
    decreases s.len(),
{
    let rest = s.drop_last();
    let kept = rest.filter_map(f);
    match f(s.last()) {
        Some(v) => {
            assert(s.filter_map(f) == kept + seq![v]);
            if j < kept.len() {
                lemma_filter_map_order(rest, f, i, j)
            } else {
                assert(s.filter_map(f)[i] == kept[i]);
                assert(kept.contains(kept[i]));
                rest.lemma_filter_map_contains(f, kept[i]);
                let t = choose|t: A| #[trigger] rest.contains(t) && f(t) == Some(kept[i]);
                let a = choose|a: int| 0 <= a < rest.len() && rest[a] == t;
                (a, s.len() - 1)
            }
        },
        None => {
            assert(s.filter_map(f) == kept);
            lemma_filter_map_order(rest, f, i, j)
        },
    }
}

/// In a snapshot no subnet is supervised twice: the children of the managed
/// pairs have different identifiers.
pub proof fn lemma_managed_children_distinct(s: Seq<SubnetView>)
    requires
        distinct_ids(s),
    ensures
        distinct_children(managed_pairs(s)),
{
    let f = |x: SubnetView| pair_of(s, x);
    let pairs = managed_pairs(s);
    assert forall|i: int, j: int| 0 <= i < j < pairs.len() implies (#[trigger] pairs[i]).0.id != (
    #[trigger] pairs[j]).0.id by {
        let (a, b) = lemma_filter_map_order(s, f, i, j);
        assert(pairs[i].0 == s[a]);
        assert(pairs[j].0 == s[b]);
        assert(s[a].id != s[b].id);
    }
}

/// A subnet is the child of a managed pair exactly when it is configured,
/// the agent controls an account on it, and its parent is configured.
pub proof fn lemma_managed_membership(s: Seq<SubnetView>, x: SubnetView)
    ensures
        (exists|p: SubnetView| managed_pairs(s).contains((x, p))) <==> (s.contains(x)
            && x.accounts.len() > 0 && x.id.parent() is Some && has_id(
            s,
            x.id.parent().unwrap(),
        )),
        forall|p: SubnetView| #[trigger]
            managed_pairs(s).contains((x, p)) ==> Some(p) == entry_of(s, x.id.parent().unwrap()),
{
    let f = |y: SubnetView| pair_of(s, y);
    assert forall|p: SubnetView| #[trigger] managed_pairs(s).contains((x, p)) implies s.contains(x)
        && manageable(s, x) && Some(p) == entry_of(s, x.id.parent().unwrap()) by {
        s.lemma_filter_map_contains(f, (x, p));
        let t = choose|t: SubnetView| s.contains(t) && f(t) == Some((x, p));
        assert(t == x);
        lemma_entry_of(s, x.id.parent().unwrap());
    }
    if s.contains(x) && manageable(s, x) {
        lemma_entry_of(s, x.id.parent().unwrap());
        let p = entry_of(s, x.id.parent().unwrap()).unwrap();
        assert(f(x) == Some((x, p)));
        let i = choose|i: int| 0 <= i < s.len() && s[i] == x;
        lemma_filter_map_keeps(s, f, i);
        assert(managed_pairs(s).contains((x, p)));
    }
}

/// Where the subsystem stands.
#[derive(Clone, Copy, Debug, PartialEq, Eq, Structural)]
pub enum SubsystemPhase {
    /// Created, nothing spawned yet.
    Idle,
    /// Supervisors are at work.
    Running,
    /// Supervisors were told to stop so that a new snapshot can take effect.
    Reloading,
    /// Supervisors were told to stop for good.
    ShuttingDown,
    /// Everything has returned.
    Stopped,
}

/// What the subsystem is told.
#[derive(Debug)]
pub enum SubsystemEvent {
    /// The subsystem was started.
    Started,
    /// The outer process asked for shutdown.
    ShutdownRequested,
    /// The reloader published a new snapshot.
    ConfigChanged { snapshot: ConfigSnapshot },
    /// The reload channel closed unexpectedly.
    ConfigChannelClosed,
    /// Every supervisor has returned.
    SupervisorsFinished,
}

/// What the subsystem asks for.
#[derive(Debug)]
pub enum SubsystemAction {
    /// Start one supervisor per pair.
    Spawn { pairs: Vec<(Subnet, Subnet)> },
    /// Tell the supervisors to stop and wait until all have returned.
    StopSupervisors,
    /// Keep waiting for the next event.
    Wait,
    /// Return from the subsystem.
    Return,
}

pub enum SubsystemEventView {
    Started,
    ShutdownRequested,
    ConfigChanged { snapshot: Seq<SubnetView> },
    ConfigChannelClosed,
    SupervisorsFinished,
}

pub enum SubsystemActionView {
    Spawn { pairs: Seq<(SubnetView, SubnetView)> },
    StopSupervisors,
    Wait,
    Return,
}

impl View for SubsystemEvent {
    type V = SubsystemEventView;

    open spec fn view(&self) -> SubsystemEventView {
        match self {
            SubsystemEvent::Started => SubsystemEventView::Started,
            SubsystemEvent::ShutdownRequested => SubsystemEventView::ShutdownRequested,
            SubsystemEvent::ConfigChanged { snapshot } => SubsystemEventView::ConfigChanged {
                snapshot: snapshot@,
            },
            SubsystemEvent::ConfigChannelClosed => SubsystemEventView::ConfigChannelClosed,
            SubsystemEvent::SupervisorsFinished => SubsystemEventView::SupervisorsFinished,
        }
    }
}

impl View for SubsystemAction {
    type V = SubsystemActionView;

    open spec fn view(&self) -> SubsystemActionView {
        match self {
            SubsystemAction::Spawn { pairs } => SubsystemActionView::Spawn {
                pairs: pairs_view(pairs@),
            },
            SubsystemAction::StopSupervisors => SubsystemActionView::StopSupervisors,
            SubsystemAction::Wait => SubsystemActionView::Wait,
            SubsystemAction::Return => SubsystemActionView::Return,
        }
    }
}

/// The mathematical content of the subsystem: the snapshot in force, how
/// many supervisors are out, and the phase.
pub struct SubsystemView {
    pub config: Seq<SubnetView>,
    pub supervisors: nat,
    pub phase: SubsystemPhase,
}

impl SubsystemView {
    /// Spawning the supervisors of the snapshot in force.
    pub open spec fn spawn(self) -> (SubsystemView, SubsystemActionView) {
        (
            SubsystemView {
                supervisors: managed_pairs(self.config).len(),
                phase: SubsystemPhase::Running,
                ..self
            },
            SubsystemActionView::Spawn { pairs: managed_pairs(self.config) },
        )
    }

    /// Supervisors are out only while the subsystem runs or winds down, and
    /// while it runs they are those of the snapshot in force, unless they
    /// have all returned by themselves.
    pub open spec fn wf(self) -> bool {
        &&& self.phase == SubsystemPhase::Running ==> self.supervisors == managed_pairs(
            self.config,
        ).len() || self.supervisors == 0
        &&& (self.phase == SubsystemPhase::Idle || self.phase == SubsystemPhase::Stopped)
            ==> self.supervisors == 0
    }

    /// The transition function of the subsystem.
    pub open spec fn step(self, event: SubsystemEventView) -> (SubsystemView, SubsystemActionView) {
        match (self.phase, event) {
            (SubsystemPhase::Idle, SubsystemEventView::Started) => self.spawn(),
            (SubsystemPhase::Idle, SubsystemEventView::ConfigChanged { snapshot }) => (
                SubsystemView { config: snapshot, ..self },
                SubsystemActionView::Wait,
            ),
            (SubsystemPhase::Idle, SubsystemEventView::ShutdownRequested)
            | (SubsystemPhase::Idle, SubsystemEventView::ConfigChannelClosed) => (
                SubsystemView { phase: SubsystemPhase::Stopped, ..self },
                SubsystemActionView::Return,
            ),
            (SubsystemPhase::Running, SubsystemEventView::ShutdownRequested)
            | (SubsystemPhase::Running, SubsystemEventView::ConfigChannelClosed) => (
                SubsystemView { phase: SubsystemPhase::ShuttingDown, ..self },
                SubsystemActionView::StopSupervisors,
            ),
            (SubsystemPhase::Running, SubsystemEventView::ConfigChanged { snapshot }) => (
                SubsystemView { config: snapshot, phase: SubsystemPhase::Reloading, ..self },
                SubsystemActionView::StopSupervisors,
            ),
            (SubsystemPhase::Running, SubsystemEventView::SupervisorsFinished) => (
                SubsystemView { supervisors: 0, ..self },
                SubsystemActionView::Wait,
            ),
            (SubsystemPhase::Reloading, SubsystemEventView::SupervisorsFinished) => (SubsystemView {
                supervisors: 0,
                ..self
            }).spawn(),
            (SubsystemPhase::Reloading, SubsystemEventView::ConfigChanged { snapshot }) => (
                SubsystemView { config: snapshot, ..self },
                SubsystemActionView::Wait,
            ),
            (SubsystemPhase::Reloading, SubsystemEventView::ShutdownRequested)
            | (SubsystemPhase::Reloading, SubsystemEventView::ConfigChannelClosed) => (
                SubsystemView { phase: SubsystemPhase::ShuttingDown, ..self },
                SubsystemActionView::Wait,
            ),
            (SubsystemPhase::ShuttingDown, SubsystemEventView::SupervisorsFinished) => (
                SubsystemView { supervisors: 0, phase: SubsystemPhase::Stopped, ..self },
                SubsystemActionView::Return,
            ),
            (SubsystemPhase::Stopped, _) => (self, SubsystemActionView::Return),
            _ => (self, SubsystemActionView::Wait),
        }
    }

    /// The subsystem after a snapshot has been applied: published, the old
    /// supervisors gone, the new ones spawned.
    pub open spec fn apply(self, snapshot: Seq<SubnetView>) -> SubsystemView {
        self.step(SubsystemEventView::ConfigChanged { snapshot }).0.step(
            SubsystemEventView::SupervisorsFinished,
        ).0
    }
}

/// The checkpoint subsystem.  When run, it keeps one supervisor per managed
/// pair of the latest configuration.
#[derive(Debug)]
pub struct CheckpointSubsystem {
    config: ConfigSnapshot,
    supervisors: usize,
    phase: SubsystemPhase,
}

impl View for CheckpointSubsystem {
    type V = SubsystemView;

    closed spec fn view(&self) -> SubsystemView {
        SubsystemView {
            config: self.config@,
            supervisors: self.supervisors as nat,
            phase: self.phase,
        }
    }
}

impl CheckpointSubsystem {
    #[verifier::type_invariant]
    spec fn inv(self) -> bool {
        self@.wf()
    }

    /// Creates a subsystem for the configuration `config`.
    pub fn new(config: ConfigSnapshot) -> (r: Self)
        ensures
            r@ == (SubsystemView { config: config@, supervisors: 0, phase: SubsystemPhase::Idle }),
            r@.wf(),
    {
        CheckpointSubsystem { config, supervisors: 0, phase: SubsystemPhase::Idle }
    }

    /// Where the subsystem stands.
    pub fn phase(&self) -> (r: SubsystemPhase)
        ensures
            r == self@.phase,
    {
        self.phase
    }

    /// The snapshot in force.
    pub fn config(&self) -> (r: &ConfigSnapshot)
        ensures
            r@ == self@.config,
    {
        &self.config
    }

    /// How many supervisors are out.
    pub fn supervisors(&self) -> (r: usize)
        ensures
            r == self@.supervisors,
            self@.wf(),
    {
        proof {
            use_type_invariant(self);
        }
        self.supervisors
    }

    fn spawn(self) -> (r: (Self, SubsystemAction))
        ensures
            (r.0@, r.1@) == self@.spawn(),
    {
        let pairs = subnets_to_manage(&self.config);
        assert(pairs_view(pairs@).len() == pairs@.len());
        let subsystem = CheckpointSubsystem {
            supervisors: pairs.len(),
            phase: SubsystemPhase::Running,
            ..self
        };
        (subsystem, SubsystemAction::Spawn { pairs })
    }

    /// Advances the subsystem by one event and says what to do next.
    ///
    /// On start it spawns a supervisor for every managed pair.  A new
    /// snapshot makes it stop the running supervisors, wait for them, and
    /// spawn those of the new snapshot.  A shutdown request, or the loss of
    /// the reload channel, makes it stop the supervisors, wait for them, and
    /// return.
    pub fn run(self, event: SubsystemEvent) -> (r: (Self, SubsystemAction))
        ensures
            (r.0@, r.1@) == self@.step(event@),
            r.0@.wf(),
    {
        proof {
            use_type_invariant(&self);
        }
        match (self.phase, event) {
            (SubsystemPhase::Idle, SubsystemEvent::Started) => self.spawn(),
            (SubsystemPhase::Idle, SubsystemEvent::ConfigChanged { snapshot }) => (
                CheckpointSubsystem { config: snapshot, ..self },
                SubsystemAction::Wait,
            ),
            (SubsystemPhase::Idle, SubsystemEvent::ShutdownRequested) => (
                CheckpointSubsystem { phase: SubsystemPhase::Stopped, ..self },
                SubsystemAction::Return,
            ),
            (SubsystemPhase::Idle, SubsystemEvent::ConfigChannelClosed) => (
                CheckpointSubsystem { phase: SubsystemPhase::Stopped, ..self },
                SubsystemAction::Return,
            ),
            (SubsystemPhase::Running, SubsystemEvent::ShutdownRequested) => (
                CheckpointSubsystem { phase: SubsystemPhase::ShuttingDown, ..self },
                SubsystemAction::StopSupervisors,
            ),
            (SubsystemPhase::Running, SubsystemEvent::ConfigChannelClosed) => (
                CheckpointSubsystem { phase: SubsystemPhase::ShuttingDown, ..self },
                SubsystemAction::StopSupervisors,
            ),
            (SubsystemPhase::Running, SubsystemEvent::ConfigChanged { snapshot }) => (
                CheckpointSubsystem { config: snapshot, phase: SubsystemPhase::Reloading, ..self },
                SubsystemAction::StopSupervisors,
            ),
            (SubsystemPhase::Running, SubsystemEvent::SupervisorsFinished) => (
                CheckpointSubsystem { supervisors: 0, ..self },
                SubsystemAction::Wait,
            ),
            (SubsystemPhase::Reloading, SubsystemEvent::SupervisorsFinished) => {
                let drained = CheckpointSubsystem { supervisors: 0, ..self };
                drained.spawn()
            },
            (SubsystemPhase::Reloading, SubsystemEvent::ConfigChanged { snapshot }) => (
                CheckpointSubsystem { config: snapshot, ..self },
                SubsystemAction::Wait,
            ),
            (SubsystemPhase::Reloading, SubsystemEvent::ShutdownRequested) => (
                CheckpointSubsystem { phase: SubsystemPhase::ShuttingDown, ..self },
                SubsystemAction::Wait,
            ),
            (SubsystemPhase::Reloading, SubsystemEvent::ConfigChannelClosed) => (
                CheckpointSubsystem { phase: SubsystemPhase::ShuttingDown, ..self },
                SubsystemAction::Wait,
            ),
            (SubsystemPhase::ShuttingDown, SubsystemEvent::SupervisorsFinished) => (
                CheckpointSubsystem { supervisors: 0, phase: SubsystemPhase::Stopped, ..self },
                SubsystemAction::Return,
            ),
            (SubsystemPhase::Stopped, _) => (self, SubsystemAction::Return),
            _ => (self, SubsystemAction::Wait),
        }
    }
}

/// Applying the same snapshot twice changes nothing: the managed pairs and
/// the number of supervisors are the same after the second time as after the
/// first.
pub proof fn lemma_apply_is_idempotent(s: SubsystemView, snapshot: Seq<SubnetView>)
    requires
        s.phase == SubsystemPhase::Running,
    ensures
        s.apply(snapshot).apply(snapshot) == s.apply(snapshot),
        s.apply(snapshot).phase == SubsystemPhase::Running,
        s.apply(snapshot).config == snapshot,
        s.apply(snapshot).supervisors == managed_pairs(snapshot).len(),
{
}

/// The subsystem returns only when no supervisor is left: a step that
/// returns leaves the subsystem stopped with no supervisor out, and a
/// running subsystem is told to stop its supervisors first.
pub proof fn lemma_return_leaves_nothing_behind(s: SubsystemView, event: SubsystemEventView)
    requires
        s.wf(),
    ensures
        s.step(event).0.wf(),
        s.step(event).1 is Return ==> s.step(event).0.phase == SubsystemPhase::Stopped
            && s.step(event).0.supervisors == 0,
        s.phase == SubsystemPhase::Running && (event is ShutdownRequested
            || event is ConfigChannelClosed) ==> s.step(event).1 is StopSupervisors,
{
}

} // verus!
