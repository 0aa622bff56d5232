//! The block pipeline of the source-chain listener.
//!
//! The pipeline walks finalized blocks in order, spawns one handler per
//! event under a global concurrency bound, tracks the blocks whose
//! handlers have not all finished, and persists a checkpoint that never
//! moves past an unfinished block.  This module holds that bookkeeping as
//! a state machine: the runner performs the chain and store I/O and tells
//! the machine what happened; the machine answers with the next block to
//! read and the checkpoint value to write, and its contracts carry the
//! pipeline's safety laws.

use vstd::prelude::*;

use crate::errors::AzeroListenerError;

verus! {

/// Upper bound on `receive_request` handlers spawned for one block; more
/// events than fit in a source block mean the benchmark behind this
/// constant is outdated, and the pipeline refuses to go on.
pub const ALEPH_MAX_REQUESTS_PER_BLOCK: usize = 50;

/// Block production period of the source chain, in seconds; the
/// finalized-head poll sleeps ten of these between attempts.
pub const ALEPH_BLOCK_PROD_TIME_SEC: u64 = 1;

/// One pending block: its number and how many of its event handlers are
/// still running.
#[derive(Clone, Copy, Debug, PartialEq, Eq, Structural)]
pub struct PendingBlock {
    pub block: u32,
    pub open_handlers: usize,
}

/// How many handlers are open over all of `s`.
pub open spec fn sum_open(s: Seq<PendingBlock>) -> nat
    decreases s.len(),
{
    if s.len() == 0 {
        0
    } else {
        s[0].open_handlers as nat + sum_open(s.drop_first())
    }
}

proof fn lemma_sum_push(s: Seq<PendingBlock>, e: PendingBlock)
    ensures
        sum_open(s.push(e)) == sum_open(s) + e.open_handlers,
    decreases s.len(),
{
    if s.len() == 0 {
        assert(s.push(e)[0] == e);
        assert(s.push(e).drop_first() =~= Seq::<PendingBlock>::empty());
        assert(sum_open(Seq::<PendingBlock>::empty()) == 0);
        assert(sum_open(s.push(e)) == e.open_handlers as nat);
    } else {
        assert(s.push(e)[0] == s[0]);
        assert(s.push(e).drop_first() =~= s.drop_first().push(e));
        lemma_sum_push(s.drop_first(), e);
    }
}

proof fn lemma_sum_update(s: Seq<PendingBlock>, i: int, e: PendingBlock)
    requires
        0 <= i < s.len(),
    ensures
        sum_open(s.update(i, e)) + s[i].open_handlers == sum_open(s) + e.open_handlers,
    decreases s.len(),
{
    if i == 0 {
        assert(s.update(0, e).drop_first() =~= s.drop_first());
    } else {
        assert(s.update(i, e).drop_first() =~= s.drop_first().update(i - 1, e));
        lemma_sum_update(s.drop_first(), i - 1, e);
    }
}

proof fn lemma_sum_remove(s: Seq<PendingBlock>, i: int)
    requires
        0 <= i < s.len(),
    ensures
        sum_open(s.remove(i)) + s[i].open_handlers == sum_open(s),
    decreases s.len(),
{
    if i == 0 {
        assert(s.remove(0) =~= s.drop_first());
    } else {
        assert(s.remove(i).drop_first() =~= s.drop_first().remove(i - 1));
        lemma_sum_remove(s.drop_first(), i - 1);
    }
}

proof fn lemma_sum_at_least(s: Seq<PendingBlock>, i: int)
    requires
        0 <= i < s.len(),
    ensures
        s[i].open_handlers <= sum_open(s),
    decreases s.len(),
{
    if i > 0 {
        lemma_sum_at_least(s.drop_first(), i - 1);
    }
}

/// Index of the entry for block `b`, or `-1` when there is none.
pub open spec fn find_block(s: Seq<PendingBlock>, b: u32) -> int
    decreases s.len(),
{
    if s.len() == 0 {
        -1
    } else if s[0].block == b {
        0
    } else if find_block(s.drop_first(), b) < 0 {
        -1
    } else {
        find_block(s.drop_first(), b) + 1
    }
}

/// Whether block `b` is pending.
pub open spec fn contains_block(s: Seq<PendingBlock>, b: u32) -> bool {
    find_block(s, b) >= 0
}

/// How many handlers of block `b` are still open; 0 for a block that is
/// not pending.
pub open spec fn open_of(s: Seq<PendingBlock>, b: u32) -> nat {
    if find_block(s, b) >= 0 {
        s[find_block(s, b)].open_handlers as nat
    } else {
        0
    }
}

proof fn lemma_find_block(s: Seq<PendingBlock>, b: u32)
    ensures
        -1 <= find_block(s, b) < s.len(),
        find_block(s, b) >= 0 ==> s[find_block(s, b)].block == b,
        find_block(s, b) == -1 ==> forall|i: int| 0 <= i < s.len() ==> s[i].block != b,
    decreases s.len(),
{
    if s.len() > 0 && s[0].block != b {
        lemma_find_block(s.drop_first(), b);
        if find_block(s.drop_first(), b) == -1 {
            assert forall|i: int| 0 <= i < s.len() implies s[i].block != b by {
                if i > 0 {
                    assert(s.drop_first()[i - 1] == s[i]);
                }
            }
        }
    }
}

/// The listener pipeline's bookkeeping: the blocks in flight, the
/// concurrency budget, and the last checkpoint value handed out.
#[derive(Clone, Debug, PartialEq, Eq)]
pub struct AlephZeroListener {
    /// Bound on concurrently running event handlers.
    pub max_event_handler_tasks: usize,
    /// The next block the pipeline will read; always the largest pending
    /// block, kept pending so that `min(pending) - 1` is always a safe
    /// checkpoint.
    pub next_block: u32,
    /// The pending blocks, in ascending order.
    pub pending: Vec<PendingBlock>,
    /// Handlers currently running, over all blocks.
    pub in_flight: usize,
    /// The last checkpoint value handed out for writing, if any.
    pub checkpoint: Option<u32>,
}

impl AlephZeroListener {
    /// The pipeline's invariant.
    pub open spec fn wf(self) -> bool {
        &&& self.pending@.len() >= 1
        &&& forall|i: int, j: int|
            0 <= i < j < self.pending@.len() ==> self.pending@[i].block < self.pending@[j].block
        &&& self.pending@.last().block == self.next_block
        &&& forall|i: int| 0 <= i < self.pending@.len() ==> self.pending@[i].block >= 1
        &&& self.in_flight <= self.max_event_handler_tasks
        &&& self.in_flight == sum_open(self.pending@)
        &&& (self.checkpoint matches Some(c) ==> (c as int) < self.pending@[0].block)
    }

    /// A fresh pipeline, about to look at `first_unprocessed_block`; that
    /// block is pending from the start, so the set is never empty.
    pub fn new(first_unprocessed_block: u32, max_event_handler_tasks: usize) -> (r: Self)
        requires
            first_unprocessed_block >= 1,
        ensures
            r.wf(),
            r.max_event_handler_tasks == max_event_handler_tasks,
            r.next_block == first_unprocessed_block,
            r.pending@ == seq![
                PendingBlock { block: first_unprocessed_block, open_handlers: 0 },
            ],
            r.in_flight == 0,
            r.checkpoint is None,
    {
        let mut pending: Vec<PendingBlock> = Vec::new();
        pending.push(PendingBlock { block: first_unprocessed_block, open_handlers: 0 });
        proof {
            assert(pending@.drop_first() =~= Seq::<PendingBlock>::empty());
            assert(sum_open(Seq::<PendingBlock>::empty()) == 0);
            assert(sum_open(pending@) == 0);
            assert(pending@.last() == pending@[0]);
        }
        AlephZeroListener {
            max_event_handler_tasks,
            next_block: first_unprocessed_block,
            pending,
            in_flight: 0,
            checkpoint: None,
        }
    }

    /// Starts work on the next block and returns its number.  The block
    /// after it becomes pending first, so that some pending block always
    /// remains once this one completes.
    pub fn begin_block(&mut self) -> (b: u32)
        requires
            old(self).wf(),
            old(self).next_block < u32::MAX,
        ensures
            final(self).wf(),
            b == old(self).next_block,
            final(self).pending@ == old(self).pending@.push(
                PendingBlock { block: (b + 1) as u32, open_handlers: 0 },
            ),
            final(self).next_block == b + 1,
            final(self).in_flight == old(self).in_flight,
            final(self).checkpoint == old(self).checkpoint,
            final(self).max_event_handler_tasks == old(self).max_event_handler_tasks,
    {
        let b = self.next_block;
        let entry = PendingBlock { block: b + 1, open_handlers: 0 };
        self.pending.push(entry);
        self.next_block = b + 1;
        proof {
            lemma_sum_push(old(self).pending@, entry);
            assert(self.pending@[0] == old(self).pending@[0]);
            assert forall|i: int, j: int|
                0 <= i < j < self.pending@.len() implies self.pending@[i].block
                < self.pending@[j].block by {
                if j < self.pending@.len() - 1 {
                    assert(self.pending@[i] == old(self).pending@[i]);
                    assert(self.pending@[j] == old(self).pending@[j]);
                } else {
                    assert(self.pending@[j] == entry);
                    if i < self.pending@.len() - 1 {
                        assert(self.pending@[i] == old(self).pending@[i]);
                        assert(old(self).pending@[i].block <= old(self).pending@.last().block);
                    }
                }
            }
        }
        b
    }

    /// Index of block `b` in the pending list, if it is there.
    fn find_index(&self, block: u32) -> (r: Option<usize>)
        requires
            self.wf(),
        ensures
            r matches Some(i) ==> i < self.pending@.len() && find_block(self.pending@, block)
                == i,
            r is None ==> find_block(self.pending@, block) == -1,
    {
        proof {
            lemma_find_block(self.pending@, block);
        }
        let mut i: usize = 0;
        while i < self.pending.len()
            invariant
                self.wf(),
                i <= self.pending@.len(),
                forall|k: int| 0 <= k < i ==> self.pending@[k].block != block,
                -1 <= find_block(self.pending@, block) < self.pending@.len(),
                find_block(self.pending@, block) >= 0 ==> self.pending@[find_block(
                    self.pending@,
                    block,
                )].block == block,
                find_block(self.pending@, block) == -1 ==> forall|k: int|
                    0 <= k < self.pending@.len() ==> self.pending@[k].block != block,
            decreases self.pending@.len() - i,
        {
            if self.pending[i].block == block {
                proof {
                    let f = find_block(self.pending@, block);
                    if f != i {
                        if f >= 0 {
                            assert(self.pending@[f].block == block);
                            assert(self.pending@[i as int].block == block);
                            assert(false);
                        } else {
                            assert(self.pending@[i as int].block != block);
                            assert(false);
                        }
                    }
                }
                return Some(i);
            }
            i = i + 1;
        }
        proof {
            if find_block(self.pending@, block) >= 0 {
                assert(false);
            }
        }
        None
    }

    /// Tries to account for one more handler of pending block `block`.
    /// Succeeds exactly when the concurrency budget has room; a refusal
    /// is the backpressure that stalls the runner until a handler ends.
    pub fn try_spawn_handler(&mut self, block: u32) -> (ok: bool)
        requires
            old(self).wf(),
            contains_block(old(self).pending@, block),
            block < old(self).next_block,
        ensures
            final(self).wf(),
            ok <==> old(self).in_flight < old(self).max_event_handler_tasks,
            !ok ==> *final(self) == *old(self),
            ok ==> final(self).in_flight == old(self).in_flight + 1,
            ok ==> final(self).pending@ == old(self).pending@.update(
                find_block(old(self).pending@, block),
                PendingBlock {
                    block,
                    open_handlers: (open_of(old(self).pending@, block) + 1) as usize,
                },
            ),
            final(self).next_block == old(self).next_block,
            final(self).checkpoint == old(self).checkpoint,
            final(self).max_event_handler_tasks == old(self).max_event_handler_tasks,
    {
        if self.in_flight >= self.max_event_handler_tasks {
            return false;
        }
        proof {
            lemma_find_block(self.pending@, block);
        }
        let i = match self.find_index(block) {
            Some(i) => i,
            None => {
                proof {
                    assert(false);
                }
                0
            },
        };
        let e = self.pending[i];
        proof {
            lemma_sum_at_least(self.pending@, i as int);
        }
        let updated = PendingBlock { block: e.block, open_handlers: e.open_handlers + 1 };
        self.pending[i] = updated;
        self.in_flight = self.in_flight + 1;
        proof {
            lemma_sum_update(old(self).pending@, i as int, updated);
            assert(forall|k: int|
                0 <= k < self.pending@.len() ==> self.pending@[k].block == old(
                    self,
                ).pending@[k].block);
            assert(self.pending@.last().block == old(self).pending@.last().block) by {
                assert(self.pending@.last() == self.pending@[self.pending@.len() as int - 1]);
                assert(old(self).pending@.last() == old(self).pending@[old(
                    self,
                ).pending@.len() as int - 1]);
            }
        }
        true
    }

    /// Accounts for one handler of pending block `block` having finished.
    pub fn handler_done(&mut self, block: u32)
        requires
            old(self).wf(),
            contains_block(old(self).pending@, block),
            open_of(old(self).pending@, block) >= 1,
        ensures
            final(self).wf(),
            final(self).in_flight == old(self).in_flight - 1,
            final(self).pending@ == old(self).pending@.update(
                find_block(old(self).pending@, block),
                PendingBlock {
                    block,
                    open_handlers: (open_of(old(self).pending@, block) - 1) as usize,
                },
            ),
            final(self).next_block == old(self).next_block,
            final(self).checkpoint == old(self).checkpoint,
            final(self).max_event_handler_tasks == old(self).max_event_handler_tasks,
    {
        proof {
            lemma_find_block(self.pending@, block);
        }
        let i = match self.find_index(block) {
            Some(i) => i,
            None => {
                proof {
                    assert(false);
                }
                0
            },
        };
        let e = self.pending[i];
        proof {
            lemma_sum_at_least(self.pending@, i as int);
        }
        let updated = PendingBlock { block: e.block, open_handlers: e.open_handlers - 1 };
        self.pending[i] = updated;
        self.in_flight = self.in_flight - 1;
        proof {
            lemma_sum_update(old(self).pending@, i as int, updated);
            assert(forall|k: int|
                0 <= k < self.pending@.len() ==> self.pending@[k].block == old(
                    self,
                ).pending@[k].block);
            assert(self.pending@.last().block == old(self).pending@.last().block) by {
                assert(self.pending@.last() == self.pending@[self.pending@.len() as int - 1]);
                assert(old(self).pending@.last() == old(self).pending@[old(
                    self,
                ).pending@.len() as int - 1]);
            }
        }
    }

    /// Whether block `block` is pending.
    pub fn contains_pending(&self, block: u32) -> (r: bool)
        requires
            self.wf(),
        ensures
            r == contains_block(self.pending@, block),
    {
        match self.find_index(block) {
            Some(_) => true,
            None => false,
        }
    }

    /// How many handlers of pending block `block` are still open.
    pub fn open_handlers_of(&self, block: u32) -> (r: usize)
        requires
            self.wf(),
        ensures
            r == open_of(self.pending@, block),
    {
        match self.find_index(block) {
            Some(i) => self.pending[i].open_handlers,
            None => 0,
        }
    }

    /// Removes a block all of whose handlers have finished and returns
    /// the checkpoint value to persist: one less than the smallest block
    /// still pending.  The value never decreases from one call to the
    /// next (monotone checkpoint), and every block at or below it has
    /// left the pending set with no handler open (no skip).
    pub fn complete_block(&mut self, block: u32) -> (checkpoint: u32)
        requires
            old(self).wf(),
            contains_block(old(self).pending@, block),
            open_of(old(self).pending@, block) == 0,
            block < old(self).next_block,
        ensures
            final(self).wf(),
            final(self).pending@ == old(self).pending@.remove(
                find_block(old(self).pending@, block),
            ),
            final(self).pending@.len() >= 1,
            checkpoint == final(self).pending@[0].block - 1,
            final(self).checkpoint == Some(checkpoint),
            old(self).checkpoint matches Some(c) ==> checkpoint >= c,
            checkpoint < final(self).pending@[0].block,
            final(self).in_flight == old(self).in_flight,
            final(self).next_block == old(self).next_block,
            final(self).max_event_handler_tasks == old(self).max_event_handler_tasks,
    {
        proof {
            lemma_find_block(self.pending@, block);
        }
        let i = match self.find_index(block) {
            Some(i) => i,
            None => {
                proof {
                    assert(false);
                }
                0
            },
        };
        proof {
            // `block` is below the largest pending block, so it is not
            // the last entry and something stays behind.
            assert(self.pending@[i as int].block == block);
            assert(self.pending@.last().block == old(self).next_block);
            if i as int == self.pending@.len() - 1 {
                assert(false);
            }
            lemma_sum_remove(self.pending@, i as int);
        }
        self.pending.remove(i);
        let min_pending = self.pending[0].block;
        proof {
            if i > 0 {
                assert(self.pending@[0] == old(self).pending@[0]);
            } else {
                assert(self.pending@[0] == old(self).pending@[1]);
            }
            assert forall|a: int, b: int|
                0 <= a < b < self.pending@.len() implies self.pending@[a].block
                < self.pending@[b].block by {
                if a < i as int {
                    assert(self.pending@[a] == old(self).pending@[a]);
                } else {
                    assert(self.pending@[a] == old(self).pending@[a + 1]);
                }
                if b < i as int {
                    assert(self.pending@[b] == old(self).pending@[b]);
                } else {
                    assert(self.pending@[b] == old(self).pending@[b + 1]);
                }
            }
            assert(self.pending@.len() == old(self).pending@.len() - 1);
            assert(self.pending@[self.pending@.len() - 1] == old(self).pending@[old(
                self,
            ).pending@.len() - 1]);
            assert(self.pending@.last() == old(self).pending@.last()) by {
                assert(self.pending@.last() == self.pending@[self.pending@.len() as int - 1]);
                assert(old(self).pending@.last() == old(self).pending@[old(
                    self,
                ).pending@.len() as int - 1]);
            }
        }
        let checkpoint = min_pending - 1;
        self.checkpoint = Some(checkpoint);
        checkpoint
    }
}

/// Refuses a block with more events than the per-block handler budget;
/// the safety bound behind the pipeline's benchmark.
pub fn ensure_block_capacity(n_events: usize) -> (r: Result<(), AzeroListenerError>)
    ensures
        r is Ok <==> n_events < ALEPH_MAX_REQUESTS_PER_BLOCK,
        r is Err ==> r == Err::<(), AzeroListenerError>(AzeroListenerError::TooManyEventsInBlock),
{
    if n_events < ALEPH_MAX_REQUESTS_PER_BLOCK {
        Ok(())
    } else {
        Err(AzeroListenerError::TooManyEventsInBlock)
    }
}

/// One step of the source finalized-head poll: the poll is done when a
/// head number came back and is at least `not_older_than`; a query error
/// or an older head means another try after the sleep.  The loop around
/// this never fails; it may run forever on a stalled chain.
pub fn next_finalized_block_decision(best_finalized: Option<u32>, not_older_than: u32) -> (r:
    Option<u32>)
    ensures
        r == (match best_finalized {
            Option::Some(n) => if n >= not_older_than {
                Some(n)
            } else {
                None::<u32>
            },
            Option::None => None::<u32>,
        }),
{
    match best_finalized {
        Option::Some(n) => if n >= not_older_than {
            Some(n)
        } else {
            None
        },
        Option::None => None,
    }
}

/// What one destination-chain transaction query returned: the
/// transaction with its inclusion block (if it has one), no transaction,
/// or a failed query.
#[derive(Clone, Copy, Debug, PartialEq, Eq, Structural)]
pub enum EthTxLookup {
    Found(Option<u64>),
    NotFound,
    LookupFailed,
}

/// What the destination-finality wait does after one poll.
#[derive(Clone, Copy, Debug, PartialEq, Eq, Structural)]
pub enum EthFinalityDecision {
    Finalized,
    Retry,
    Fatal,
}

/// One step of the destination-finality wait: the transaction is final
/// once its inclusion block is at or below the finalized head; a
/// transaction that was submitted but is no longer present is fatal (a
/// deep reorg must not be papered over); a pending transaction or a
/// failed query means another poll after the sleep.
pub fn eth_tx_finality_decision(lookup: EthTxLookup, finalized_head: u64) -> (d:
    EthFinalityDecision)
    ensures
        d == (match lookup {
            EthTxLookup::Found(Some(block_number)) => if block_number <= finalized_head {
                EthFinalityDecision::Finalized
            } else {
                EthFinalityDecision::Retry
            },
            EthTxLookup::Found(None) => EthFinalityDecision::Retry,
            EthTxLookup::NotFound => EthFinalityDecision::Fatal,
            EthTxLookup::LookupFailed => EthFinalityDecision::Retry,
        }),
{
    match lookup {
        EthTxLookup::Found(Some(block_number)) => if block_number <= finalized_head {
            EthFinalityDecision::Finalized
        } else {
            EthFinalityDecision::Retry
        },
        EthTxLookup::Found(None) => EthFinalityDecision::Retry,
        EthTxLookup::NotFound => EthFinalityDecision::Fatal,
        EthTxLookup::LookupFailed => EthFinalityDecision::Retry,
    }
}

/// Pending-set law: a well-formed pipeline always has a pending block,
/// so a checkpoint value can always be derived.
pub proof fn lemma_pending_nonempty(s: AlephZeroListener)
    requires
        s.wf(),
    ensures
        s.pending@.len() >= 1,
{
}

/// Bounded-concurrency law: the handlers in flight are exactly the open
/// handlers of the pending blocks, and never more than the configured
/// bound.
pub proof fn lemma_bounded_concurrency(s: AlephZeroListener)
    requires
        s.wf(),
    ensures
        s.in_flight == sum_open(s.pending@),
        s.in_flight <= s.max_event_handler_tasks,
{
}

/// No-skip law: once the checkpoint has reached `b`, every block at or
/// below `b` has left the pending set and has no handler still open.
pub proof fn lemma_no_skip(s: AlephZeroListener, b: u32)
    requires
        s.wf(),
        s.checkpoint matches Some(c) && b <= c,
    ensures
        forall|i: int| 0 <= i < s.pending@.len() ==> s.pending@[i].block > b,
        open_of(s.pending@, b) == 0,
{
    assert forall|i: int| 0 <= i < s.pending@.len() implies s.pending@[i].block > b by {
        if i > 0 {
            assert(s.pending@[0].block < s.pending@[i].block);
        }
    }
    lemma_find_block(s.pending@, b);
    if find_block(s.pending@, b) >= 0 {
        assert(false);
    }
}

} // verus!
