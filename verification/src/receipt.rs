//! Waiting for the receipt of a submission within a bounded budget of
//! polls, each pause twice as long as the one before.

use vstd::prelude::*;
use crate::address::copy_bytes;
use crate::epoch::ChainEpoch;
use crate::error::AgentError;

verus! {

/// How often a receipt is polled for again before the submission counts as
/// unknown.
pub const RECEIPT_RETRIES: u32 = 10;

/// The pause before retry number `k`, counted from zero, without regard to
/// machine limits: the base pause doubled `k` times.
pub open spec fn backoff(base: nat, k: nat) -> nat
    decreases k,
{
    if k == 0 {
        base
    } else {
        2 * backoff(base, (k - 1) as nat)
    }
}

/// The pause before retry number `k` in milliseconds, capped at the largest
/// machine number.
pub open spec fn retry_delay(base: u64, k: nat) -> u64 {
    if backoff(base as nat, k) <= u64::MAX {
        backoff(base as nat, k) as u64
    } else {
        u64::MAX
    }
}

/// The longest a wait can pause in all, without regard to machine limits:
/// the sum of the pauses before the first `n` retries.
pub open spec fn total_backoff(base: nat, n: nat) -> nat
    decreases n,
{
    if n == 0 {
        0
    } else {
        total_backoff(base, (n - 1) as nat) + backoff(base, (n - 1) as nat)
    }
}

/// The pauses add up to one pause less than the next pause would be, beyond
/// the base: `base * (2^n - 1)`.
pub proof fn lemma_total_backoff(base: nat, n: nat)
    ensures
        total_backoff(base, n) + base == backoff(base, n),
    decreases n,
{
    if n > 0 {
        lemma_total_backoff(base, (n - 1) as nat);
    }
}

/// The longest a wait with the full budget of retries pauses in all, in
/// milliseconds: 1023 times the base pause.
pub fn receipt_wait_bound(base_delay_ms: u64) -> (r: u128)
    ensures
        r == total_backoff(base_delay_ms as nat, RECEIPT_RETRIES as nat),
        r == 1023 * base_delay_ms,
{
    proof {
        lemma_total_backoff(base_delay_ms as nat, 10);
        assert(backoff(base_delay_ms as nat, 10) == 1024 * base_delay_ms) by {
            reveal_with_fuel(backoff, 11);
        }
    }
    base_delay_ms as u128 * 1023
}

/// A submission that did not end in a usable receipt: the class of the
/// failure and the identifier of the transaction that was broadcast, so that
/// whoever reports the failure can name the transaction.
#[derive(Debug, PartialEq, Eq)]
pub struct ReceiptFailure {
    pub error: AgentError,
    pub transaction: Vec<u8>,
}

pub struct ReceiptFailureView {
    pub error: AgentError,
    pub transaction: Seq<u8>,
}

impl View for ReceiptFailure {
    type V = ReceiptFailureView;

    open spec fn view(&self) -> ReceiptFailureView {
        ReceiptFailureView { error: self.error, transaction: self.transaction@ }
    }
}

impl ReceiptFailure {
    /// The failure of class `error` for the transaction `transaction`.
    pub fn new(error: AgentError, transaction: &Vec<u8>) -> (r: Self)
        ensures
            r@ == (ReceiptFailureView { error, transaction: transaction@ }),
    {
        ReceiptFailure { error, transaction: copy_bytes(transaction) }
    }
}

/// What one poll led to.
#[derive(Debug, PartialEq, Eq)]
pub enum PollOutcome {
    /// The submission was included at this epoch.
    Included { epoch: ChainEpoch },
    /// Poll again after this many milliseconds.
    Retry { delay_ms: u64 },
    /// The wait is over and ended in this failure.
    Failed { failure: ReceiptFailure },
}

pub enum PollOutcomeView {
    Included { epoch: ChainEpoch },
    Retry { delay_ms: u64 },
    Failed { failure: ReceiptFailureView },
}

impl View for PollOutcome {
    type V = PollOutcomeView;

    open spec fn view(&self) -> PollOutcomeView {
        match self {
            PollOutcome::Included { epoch } => PollOutcomeView::Included { epoch: *epoch },
            PollOutcome::Retry { delay_ms } => PollOutcomeView::Retry { delay_ms: *delay_ms },
            PollOutcome::Failed { failure } => PollOutcomeView::Failed { failure: failure@ },
        }
    }
}

/// The wait for the receipt of one transaction.
#[derive(Debug, PartialEq, Eq)]
pub struct ReceiptWait {
    base_delay_ms: u64,
    retries: u32,
    transaction: Vec<u8>,
}

pub struct ReceiptWaitView {
    pub base_delay_ms: u64,
    pub retries: nat,
    pub transaction: Seq<u8>,
}

impl ReceiptWaitView {
    /// The failure of class `error` of the transaction waited for.
    pub open spec fn failed(self, error: AgentError) -> PollOutcomeView {
        PollOutcomeView::Failed {
            failure: ReceiptFailureView { error, transaction: self.transaction },
        }
    }

    /// What a poll leads to.  `block_number` is the block of the receipt, if
    /// the poll found one.  A block number that is no epoch breaks an
    /// invariant.  Without a receipt the poll is repeated, up to
    /// `RECEIPT_RETRIES` times; after that the receipt is unknown.  Every
    /// failure names the transaction.
    pub open spec fn poll(self, block_number: Option<u64>) -> (ReceiptWaitView, PollOutcomeView) {
        match block_number {
            Some(n) => if n <= i64::MAX {
                (self, PollOutcomeView::Included { epoch: n as ChainEpoch })
            } else {
                (self, self.failed(AgentError::Fatal))
            },
            None => if self.retries < RECEIPT_RETRIES {
                (
                    ReceiptWaitView { retries: self.retries + 1, ..self },
                    PollOutcomeView::Retry {
                        delay_ms: retry_delay(self.base_delay_ms, self.retries),
                    },
                )
            } else {
                (self, self.failed(AgentError::ReceiptUnknown))
            },
        }
    }
}

impl View for ReceiptWait {
    type V = ReceiptWaitView;

    closed spec fn view(&self) -> ReceiptWaitView {
        ReceiptWaitView {
            base_delay_ms: self.base_delay_ms,
            retries: self.retries as nat,
            transaction: self.transaction@,
        }
    }
}

/// The pause does not shrink from one retry to the next.
pub proof fn lemma_backoff_grows(base: nat, k: nat)
    ensures
        backoff(base, k) <= backoff(base, k + 1),
    decreases k,
{
    if k > 0 {
        lemma_backoff_grows(base, (k - 1) as nat);
    }
}

impl ReceiptWait {
    /// A wait for the receipt of the transaction identified by
    /// `transaction` that has not polled yet, with `base_delay_ms` as first
    /// pause.
    pub fn new(base_delay_ms: u64, transaction: Vec<u8>) -> (r: Self)
        ensures
            r@ == (ReceiptWaitView { base_delay_ms, retries: 0, transaction: transaction@ }),
    {
        ReceiptWait { base_delay_ms, retries: 0, transaction }
    }

    /// How many retries were asked for so far.
    pub fn retries(&self) -> (r: u32)
        ensures
            r == self@.retries,
    {
        self.retries
    }

    /// The identifier of the transaction waited for.
    pub fn transaction(&self) -> (r: &Vec<u8>)
        ensures
            r@ == self@.transaction,
    {
        &self.transaction
    }

    /// The pause before retry number `k`.
    pub fn delay(&self, k: u32) -> (r: u64)
        ensures
            r == retry_delay(self@.base_delay_ms, k as nat),
    {
        let mut d: u64 = self.base_delay_ms;
        let mut i: u32 = 0;
        while i < k
            invariant
                i <= k,
                d == retry_delay(self.base_delay_ms, i as nat),
            decreases k - i,
        {
            proof {
                lemma_backoff_grows(self.base_delay_ms as nat, i as nat);
            }
            d = if d > u64::MAX / 2 {
                u64::MAX
            } else {
                d * 2
            };
            i += 1;
        }
        d
    }

    /// Takes the result of one poll and says how the wait goes on.  A wait
    /// that fails hands back the identifier of its transaction.
    pub fn poll(self, block_number: Option<u64>) -> (r: (Self, PollOutcome))
        ensures
            (r.0@, r.1@) == self@.poll(block_number),
    {
        match block_number {
            Some(n) => {
                if n <= 0x7fff_ffff_ffff_ffff {
                    (self, PollOutcome::Included { epoch: n as ChainEpoch })
                } else {
                    let failure = ReceiptFailure::new(AgentError::Fatal, &self.transaction);
                    (self, PollOutcome::Failed { failure })
                }
            },
            None => {
                if self.retries < RECEIPT_RETRIES {
                    let delay_ms = self.delay(self.retries);
                    (
                        ReceiptWait { retries: self.retries + 1, ..self },
                        PollOutcome::Retry { delay_ms },
                    )
                } else {
                    let failure = ReceiptFailure::new(AgentError::ReceiptUnknown, &self.transaction);
                    (self, PollOutcome::Failed { failure })
                }
            },
        }
    }
}

/// The wait after `n` polls that found no receipt.
pub open spec fn after_misses(w: ReceiptWaitView, n: nat) -> ReceiptWaitView
    decreases n,
{
    if n == 0 {
        w
    } else {
        after_misses(w, (n - 1) as nat).poll(None).0
    }
}

/// The budget is exact: a fresh wait asks for a retry after each of the
/// first `RECEIPT_RETRIES` polls without a receipt, and gives the receipt up
/// as unknown, naming its transaction, at every poll without a receipt after
/// that.
pub proof fn lemma_retry_budget(base_delay_ms: u64, transaction: Seq<u8>, n: nat)
    ensures
        ({
            let fresh = ReceiptWaitView { base_delay_ms, retries: 0, transaction };
            let w = after_misses(fresh, n);
            &&& w.retries == if n <= RECEIPT_RETRIES {
                n
            } else {
                RECEIPT_RETRIES as nat
            }
            &&& w.base_delay_ms == base_delay_ms
            &&& w.transaction == transaction
            &&& n < RECEIPT_RETRIES ==> w.poll(None).1 == (PollOutcomeView::Retry {
                delay_ms: retry_delay(base_delay_ms, n),
            })
            &&& n >= RECEIPT_RETRIES ==> w.poll(None).1 == (PollOutcomeView::Failed {
                failure: ReceiptFailureView { error: AgentError::ReceiptUnknown, transaction },
            })
        }),
    decreases n,
{
    if n > 0 {
        lemma_retry_budget(base_delay_ms, transaction, (n - 1) as nat);
    }
}

} // verus!
