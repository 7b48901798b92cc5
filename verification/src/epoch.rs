//! Chain epochs, checkpoint periods, and the arithmetic of submission slots.

use vstd::prelude::*;
use vstd::arithmetic::div_mod::{
    lemma_div_plus_one, lemma_fundamental_div_mod, lemma_fundamental_div_mod_converse,
    lemma_mod_bound, lemma_mod_pos_bound,
};
use crate::error::AgentError;

verus! {

/// A block height.
pub type ChainEpoch = i64;

/// The slot that follows `height`: the value of `floor((height + period) /
/// period) * period`.
pub open spec fn boundary_after(period: int, height: int) -> int {
    ((height + period) / period) * period
}

/// Whether `e` is a whole number of periods.
pub open spec fn is_multiple(e: int, period: int) -> bool {
    e % period == 0
}

/// A slot a validator could submit for: a multiple of the period, later than
/// the last executed epoch, and not ahead of the chain.
pub open spec fn is_slot(e: int, period: int, last_executed: int, current: int) -> bool {
    e > last_executed && is_multiple(e, period) && current >= e
}

/// Whether `e` is among the epochs voted for.
pub open spec fn voted_for(voted: Seq<ChainEpoch>, e: int) -> bool {
    exists|i: int| 0 <= i < voted.len() && voted[i] == e
}

/// A slot for which the validator has not voted yet.
pub open spec fn is_owed(
    e: int,
    period: int,
    last_executed: int,
    current: int,
    voted: Seq<ChainEpoch>,
) -> bool {
    is_slot(e, period, last_executed, current) && !voted_for(voted, e)
}

/// Submissions do not go back in time.  Between two looks at the chain the
/// last executed epoch does not decrease and votes are not taken back; so
/// the epoch that is owed next at the second look is not before the one
/// that was owed next at the first.
pub proof fn lemma_epochs_do_not_go_back(
    period: int,
    last1: int,
    current1: int,
    voted1: Seq<ChainEpoch>,
    e1: int,
    last2: int,
    current2: int,
    voted2: Seq<ChainEpoch>,
    e2: int,
)
    requires
        last1 <= last2,
        forall|e: int| #[trigger] voted_for(voted1, e) ==> voted_for(voted2, e),
        is_owed(e1, period, last1, current1, voted1),
        forall|o: int| #[trigger] is_owed(o, period, last1, current1, voted1) ==> e1 <= o,
        is_owed(e2, period, last2, current2, voted2),
    ensures
        e1 <= e2,
{
    if e2 < e1 {
        assert(!voted_for(voted1, e2));
        assert(is_owed(e2, period, last1, current1, voted1));
    }
}

/// The boundary after `height` is the smallest multiple of the period that
/// is greater than `height`.
pub proof fn lemma_boundary_after(period: int, height: int)
    requires
        period > 0,
    ensures
        boundary_after(period, height) % period == 0,
        height < boundary_after(period, height) <= height + period,
        forall|e: int|
            #[trigger] is_multiple(e, period) && e > height ==> e >= boundary_after(period, height),
{
    let x = height + period;
    let q = x / period;
    let b = q * period;
    lemma_fundamental_div_mod(x, period);
    lemma_mod_bound(x, period);
    assert(period * q == q * period) by (nonlinear_arith);
    lemma_fundamental_div_mod_converse(b, period, q, 0);
    assert forall|e: int| #[trigger] is_multiple(e, period) && e > height implies e >= b by {
        lemma_multiples_apart(period, e, b);
    }
}

/// Two multiples of the period are equal or at least one period apart.
pub proof fn lemma_multiples_apart(period: int, a: int, b: int)
    requires
        period > 0,
        a % period == 0,
        b % period == 0,
    ensures
        a < b ==> a + period <= b,
{
    lemma_fundamental_div_mod(a, period);
    lemma_fundamental_div_mod(b, period);
    let qa = a / period;
    let qb = b / period;
    if a < b {
        assert(qa < qb) by (nonlinear_arith)
            requires
                a == period * qa,
                b == period * qb,
                a < b,
                period > 0,
        ;
        assert(period * qa + period <= period * qb) by (nonlinear_arith)
            requires
                qa + 1 <= qb,
                period > 0,
        ;
    }
}

/// A checkpoint period: a positive number of epochs.
#[derive(Clone, Copy, Debug, PartialEq, Eq)]
pub struct CheckpointPeriod {
    epochs: ChainEpoch,
}

impl View for CheckpointPeriod {
    type V = int;

    closed spec fn view(&self) -> int {
        self.epochs as int
    }
}

impl CheckpointPeriod {
    #[verifier::type_invariant]
    spec fn positive(self) -> bool {
        self.epochs > 0
    }

    /// A period of `epochs` epochs.  A period that is not positive is a
    /// `Configuration` failure.
    pub fn new(epochs: ChainEpoch) -> (r: Result<Self, AgentError>)
        ensures
            epochs > 0 ==> (r matches Ok(p) && p@ == epochs),
            epochs <= 0 ==> r == Err::<Self, AgentError>(AgentError::Configuration),
    {
        if epochs > 0 {
            Ok(CheckpointPeriod { epochs })
        } else {
            Err(AgentError::Configuration)
        }
    }

    /// The length of the period in epochs.
    pub fn epochs(&self) -> (r: ChainEpoch)
        ensures
            r == self@,
            r > 0,
    {
        proof {
            use_type_invariant(self);
        }
        self.epochs
    }

    /// The first slot after `height`, absent when it does not fit an epoch.
    pub fn next_boundary(&self, height: ChainEpoch) -> (r: Option<ChainEpoch>)
        ensures
            self@ > 0,
            match r {
                Some(e) => e == boundary_after(self@, height as int),
                None => boundary_after(self@, height as int) > i64::MAX,
            },
    {
        let p: i128 = self.epochs() as i128;
        let h: i128 = height as i128;
        let b: i128 = if h >= 0 {
            let q: i128 = h / p;
            proof {
                lemma_div_plus_one(h as int, p as int);
                lemma_fundamental_div_mod(h as int, p as int);
                lemma_mod_pos_bound(h as int, p as int);
                assert(q * p <= h) by (nonlinear_arith)
                    requires
                        h == p * q + (h as int % p as int),
                        0 <= h as int % p as int,
                ;
                assert((q + 1) * p == q * p + p) by (nonlinear_arith);
            }
            (q + 1) * p
        } else {
            let m: i128 = -(h + 1);
            let a: i128 = m / p;
            proof {
                lemma_fundamental_div_mod(m as int, p as int);
                lemma_mod_pos_bound(m as int, p as int);
                let t = m as int % p as int;
                assert(0 <= a * p <= m) by (nonlinear_arith)
                    requires
                        m == p * a + t,
                        0 <= t,
                        a >= 0,
                        p > 0,
                ;
                assert(h + p == (-a) * p + (p - 1 - t)) by (nonlinear_arith)
                    requires
                        m == p * a + t,
                        m == -(h + 1),
                ;
                lemma_fundamental_div_mod_converse(h + p, p as int, -a, p - 1 - t);
                assert(-(a * p) == (-a) * p) by (nonlinear_arith);
            }
            -(a * p)
        };
        if b > i64::MAX as i128 {
            None
        } else {
            proof {
                lemma_boundary_after(self@, height as int);
            }
            Some(b as i64)
        }
    }
}

/// Whether `e` occurs in `list`.
pub fn contains_epoch(list: &Vec<ChainEpoch>, e: ChainEpoch) -> (r: bool)
    ensures
        r == voted_for(list@, e as int),
{
    let mut i: usize = 0;
    while i < list.len()
        invariant
            i <= list.len(),
            forall|k: int| 0 <= k < i ==> list@[k] != e,
        decreases list.len() - i,
    {
        if list[i] == e {
            return true;
        }
        i += 1;
    }
    false
}

/// The epoch a validator should submit for next: the smallest slot after
/// `last_executed` that the chain has reached and that the validator has not
/// voted for, where `voted` lists the epochs it has voted for.  Absent when
/// there is no such slot yet.
pub fn next_submission_epoch(
    period: CheckpointPeriod,
    last_executed: ChainEpoch,
    current: ChainEpoch,
    voted: &Vec<ChainEpoch>,
) -> (r: Option<ChainEpoch>)
    ensures
        match r {
            Some(e) => is_owed(e as int, period@, last_executed as int, current as int, voted@)
                && forall|o: int| #[trigger]
                    is_owed(o, period@, last_executed as int, current as int, voted@) ==> e <= o,
            None => forall|o: int|
                !#[trigger] is_owed(o, period@, last_executed as int, current as int, voted@),
        },
{
    let p: ChainEpoch = period.epochs();
    let first = period.next_boundary(last_executed);
    proof {
        lemma_boundary_after(period@, last_executed as int);
    }
    let mut candidate: ChainEpoch = match first {
        Some(c) => c,
        None => {
            return None;
        },
    };
    proof {
        reveal(nothing_owed_before);
    }
    while candidate <= current
        invariant
            p == period@,
            p > 0,
            candidate > last_executed,
            is_multiple(candidate as int, p as int),
            nothing_owed_before(
                candidate as int,
                period@,
                last_executed as int,
                current as int,
                voted@,
            ),
        decreases current + p - candidate,
    {
        if !contains_epoch(voted, candidate) {
            proof {
                reveal(nothing_owed_before);
            }
            return Some(candidate);
        }
        proof {
            lemma_skip_voted(candidate as int, p as int, last_executed as int, current as int, voted@);
        }
        if candidate > i64::MAX - p {
            proof {
                reveal(nothing_owed_before);
            }
            return None;
        }
        candidate = candidate + p;
    }
    proof {
        reveal(nothing_owed_before);
    }
    None
}

/// No slot before `bound` is owed.
#[verifier::opaque]
pub open spec fn nothing_owed_before(
    bound: int,
    period: int,
    last_executed: int,
    current: int,
    voted: Seq<ChainEpoch>,
) -> bool {
    forall|o: int| o < bound ==> !#[trigger] is_owed(o, period, last_executed, current, voted)
}

/// When nothing before a slot is owed and the slot itself is voted for,
/// nothing before the following slot is owed either.
pub proof fn lemma_skip_voted(
    candidate: int,
    period: int,
    last_executed: int,
    current: int,
    voted: Seq<ChainEpoch>,
)
    requires
        period > 0,
        is_multiple(candidate, period),
        nothing_owed_before(candidate, period, last_executed, current, voted),
        !is_owed(candidate, period, last_executed, current, voted),
    ensures
        is_multiple(candidate + period, period),
        nothing_owed_before(candidate + period, period, last_executed, current, voted),
{
    reveal(nothing_owed_before);
    lemma_fundamental_div_mod(candidate, period);
    let q = candidate / period;
    assert(candidate + period == (q + 1) * period) by (nonlinear_arith)
        requires
            candidate == period * q,
    ;
    lemma_fundamental_div_mod_converse(candidate + period, period, q + 1, 0);
    assert forall|o: int| o < candidate + period implies !#[trigger] is_owed(
        o,
        period,
        last_executed,
        current,
        voted,
    ) by {
        if o > candidate && is_multiple(o, period) {
            lemma_multiples_apart(period, candidate, o);
        }
    }
}

} // verus!
