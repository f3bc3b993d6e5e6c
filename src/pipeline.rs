use vstd::prelude::*;
use crate::errors::Error;
use crate::status::{is_terminal, is_transition, ProverStatus};
use crate::store::{
    all_blocks, blocks_with_status, contains_id, index_of, lemma_index_of, new_row, row_of,
    with_bridge_proof, with_pie_proof, with_query_id_step2, with_status, Block, BlockView, JobRow,
    JobStore,
};

verus! {

/// The highest block number among the jobs that still await advancement
/// (neither `Completed` nor `Failed`).
pub open spec fn max_pending_id(bs: Seq<BlockView>) -> Option<u32>
    decreases bs.len(),
{
    if bs.len() == 0 {
        None
    } else {
        let rest = max_pending_id(bs.drop_last());
        let last = bs.last();
        if is_terminal(last.status) {
            rest
        } else {
            match rest {
                Some(m) => if m >= last.id {
                    Some(m)
                } else {
                    Some(last.id)
                },
                None => Some(last.id),
            }
        }
    }
}

/// Where stage 1 resumes after a restart: the highest pending block, or the
/// last settled block when nothing is pending.
pub open spec fn resume_point(s: Seq<JobRow>, last_settled_block: u32) -> u32 {
    match max_pending_id(all_blocks(s)) {
        Some(m) => m,
        None => last_settled_block,
    }
}

/// The block that may be settled next: the immediate successor of the last
/// settled block, once it is `Completed` with both proofs stored.
pub open spec fn settlement_candidate(s: Seq<JobRow>, last_settled_block: u32) -> Option<u32> {
    if last_settled_block < u32::MAX && contains_id(s, (last_settled_block + 1) as u32) && row_of(
        s,
        (last_settled_block + 1) as u32,
    ).block.status == ProverStatus::Completed && row_of(
        s,
        (last_settled_block + 1) as u32,
    ).pie_proof is Some && row_of(s, (last_settled_block + 1) as u32).bridge_proof is Some {
        Some((last_settled_block + 1) as u32)
    } else {
        None
    }
}

/// The orchestrator's state: the job store, the two cursors, and the stage-1
/// in-flight limit.
pub struct Pipeline {
    pub store: JobStore,
    pub last_settled_block: u32,
    pub last_sent_for_prove_block: u32,
    pub in_flight_limit: usize,
}

/// `after` is `before` with one more stage-1 submission, of block `id`.
pub open spec fn submitted(before: Pipeline, after: Pipeline, id: u32, query_id: Seq<char>) -> bool {
    &&& before.last_sent_for_prove_block < u32::MAX
    &&& id == before.last_sent_for_prove_block + 1
    &&& after.last_sent_for_prove_block == id
    &&& after.last_settled_block == before.last_settled_block
    &&& after.in_flight_limit == before.in_flight_limit
    &&& !contains_id(before.store@, id)
    &&& exists|i: int|
        0 <= i <= before.store@.len() && after.store@ == before.store@.insert(
            i,
            new_row(id, query_id, ProverStatus::PieSubmitted),
        )
}

/// The highest pending block of `blocks`, by a scan.
fn max_pending(blocks: &Vec<Block>) -> (r: Option<u32>)
    ensures
        r == max_pending_id(blocks@.map_values(|b: Block| b@)),
{
    let ghost views = blocks@.map_values(|b: Block| b@);
    let mut best: Option<u32> = None;
    let mut i: usize = 0;
    while i < blocks.len()
        invariant
            views == blocks@.map_values(|b: Block| b@),
            i <= blocks@.len(),
            best == max_pending_id(views.subrange(0, i as int)),
        decreases blocks@.len() - i,
    {
        let ghost prefix = views.subrange(0, i as int + 1);
        assert(prefix.drop_last() =~= views.subrange(0, i as int));
        assert(prefix.last() == blocks@[i as int]@);
        let b = &blocks[i];
        if !b.status.is_terminal() {
            best = match best {
                Some(m) => if m >= b.id {
                    Some(m)
                } else {
                    Some(b.id)
                },
                None => Some(b.id),
            };
        }
        i = i + 1;
    }
    assert(views.subrange(0, blocks@.len() as int) =~= views);
    best
}

/// The block that stage 1 last sent for proving, recomputed from the store
/// and the settled block read from chain.
pub fn last_sent_for_prove(store: &JobStore, last_settled_block: u32) -> (r: u32)
    requires
        store.wf(),
    ensures
        r == resume_point(store@, last_settled_block),
{
    let blocks = store.list_blocks();
    match max_pending(&blocks) {
        Some(m) => m,
        None => last_settled_block,
    }
}

impl Pipeline {
    /// Rebuilds the orchestrator from a recovered store and the chain's last
    /// settled block.
    pub fn new(store: JobStore, last_settled_block: u32, in_flight_limit: usize) -> (r: Pipeline)
        requires
            store.wf(),
        ensures
            r.store == store,
            r.last_settled_block == last_settled_block,
            r.last_sent_for_prove_block == resume_point(store@, last_settled_block),
            r.in_flight_limit == in_flight_limit,
    {
        let last_sent_for_prove_block = last_sent_for_prove(&store, last_settled_block);
        Pipeline { store, last_settled_block, last_sent_for_prove_block, in_flight_limit }
    }

    /// The block that stage 1 proves next, if the block range is not used up.
    pub fn next_block(&self) -> (r: Option<u32>)
        ensures
            self.last_sent_for_prove_block < u32::MAX ==> r == Some(
                (self.last_sent_for_prove_block + 1) as u32,
            ),
            self.last_sent_for_prove_block == u32::MAX ==> r is None,
    {
        if self.last_sent_for_prove_block < u32::MAX {
            Some(self.last_sent_for_prove_block + 1)
        } else {
            None
        }
    }

    /// Backpressure: stage 1 may submit only while fewer than the limit of
    /// jobs are in `PieSubmitted`.
    pub fn has_capacity(&self) -> (r: bool)
        requires
            self.store.wf(),
        ensures
            r == (blocks_with_status(self.store@, ProverStatus::PieSubmitted).len()
                < self.in_flight_limit),
    {
        self.store.count_with_status(ProverStatus::PieSubmitted) < self.in_flight_limit
    }

    /// Records a stage-1 submission of the next block under the prover's
    /// query id. Nothing changes unless the job is inserted.
    pub fn record_submission(&mut self, query_id: &str) -> (r: Result<u32, Error>)
        requires
            old(self).store.wf(),
        ensures
            final(self).store.wf(),
            blocks_with_status(old(self).store@, ProverStatus::PieSubmitted).len()
                >= old(self).in_flight_limit ==> r == Err::<u32, Error>(Error::Backpressure)
                && *final(self) == *old(self),
            blocks_with_status(old(self).store@, ProverStatus::PieSubmitted).len()
                < old(self).in_flight_limit && old(self).last_sent_for_prove_block == u32::MAX
                ==> r == Err::<u32, Error>(Error::BlockRangeExhausted) && *final(self) == *old(
                self,
            ),
            blocks_with_status(old(self).store@, ProverStatus::PieSubmitted).len()
                < old(self).in_flight_limit && old(self).last_sent_for_prove_block < u32::MAX
                && contains_id(old(self).store@, (old(self).last_sent_for_prove_block + 1) as u32)
                ==> r == Err::<u32, Error>(
                Error::DuplicateBlock((old(self).last_sent_for_prove_block + 1) as u32),
            ) && *final(self) == *old(self),
            blocks_with_status(old(self).store@, ProverStatus::PieSubmitted).len()
                < old(self).in_flight_limit && old(self).last_sent_for_prove_block < u32::MAX
                && !contains_id(old(self).store@, (old(self).last_sent_for_prove_block + 1) as u32)
                ==> r == Ok::<u32, Error>((old(self).last_sent_for_prove_block + 1) as u32)
                && submitted(
                *old(self),
                *final(self),
                (old(self).last_sent_for_prove_block + 1) as u32,
                query_id@,
            ),
    {
        if !self.has_capacity() {
            return Err(Error::Backpressure);
        }
        if self.last_sent_for_prove_block == u32::MAX {
            return Err(Error::BlockRangeExhausted);
        }
        let id = self.last_sent_for_prove_block + 1;
        match self.store.insert_block(id, query_id, ProverStatus::PieSubmitted) {
            Err(e) => Err(e),
            Ok(()) => {
                self.last_sent_for_prove_block = id;
                Ok(id)
            },
        }
    }
    /// Stores the stage-1 proof of a block that awaits it.
    pub fn record_trace_proof(&mut self, block_id: u32, proof: &str) -> (r: Result<(), Error>)
        requires
            old(self).store.wf(),
        ensures
            final(self).store.wf(),
            final(self).last_settled_block == old(self).last_settled_block,
            final(self).last_sent_for_prove_block == old(self).last_sent_for_prove_block,
            final(self).in_flight_limit == old(self).in_flight_limit,
            !contains_id(old(self).store@, block_id) ==> r == Err::<(), Error>(
                Error::BlockNotFound(block_id),
            ) && *final(self) == *old(self),
            contains_id(old(self).store@, block_id) && row_of(old(self).store@, block_id).block.status
                != ProverStatus::PieSubmitted ==> r == Err::<(), Error>(
                Error::InvalidTransition {
                    block: block_id,
                    from: row_of(old(self).store@, block_id).block.status,
                    to: ProverStatus::PieProofGenerated,
                },
            ) && *final(self) == *old(self),
            contains_id(old(self).store@, block_id) && row_of(old(self).store@, block_id).block.status
                == ProverStatus::PieSubmitted ==> r == Ok::<(), Error>(()) && final(self).store@
                == old(self).store@.update(
                index_of(old(self).store@, block_id),
                with_pie_proof(row_of(old(self).store@, block_id), Some(proof@)),
            ),
    {
        let block = match self.store.check_status(block_id) {
            Ok(b) => b,
            Err(e) => return Err(e),
        };
        if block.status != ProverStatus::PieSubmitted {
            return Err(
                Error::InvalidTransition {
                    block: block_id,
                    from: block.status,
                    to: ProverStatus::PieProofGenerated,
                },
            );
        }
        self.store.insert_pie_proof(block_id, proof)
    }

    /// Records the layout-bridge query of a block whose stage-1 proof is
    /// stored, and moves it to `PieProofGenerated`.
    pub fn record_bridge_query(&mut self, block_id: u32, query_id: &str) -> (r: Result<(), Error>)
        requires
            old(self).store.wf(),
        ensures
            final(self).store.wf(),
            final(self).last_settled_block == old(self).last_settled_block,
            final(self).last_sent_for_prove_block == old(self).last_sent_for_prove_block,
            final(self).in_flight_limit == old(self).in_flight_limit,
            !contains_id(old(self).store@, block_id) ==> r == Err::<(), Error>(
                Error::BlockNotFound(block_id),
            ) && *final(self) == *old(self),
            contains_id(old(self).store@, block_id) && row_of(old(self).store@, block_id).block.status
                != ProverStatus::PieSubmitted ==> r == Err::<(), Error>(
                Error::InvalidTransition {
                    block: block_id,
                    from: row_of(old(self).store@, block_id).block.status,
                    to: ProverStatus::PieProofGenerated,
                },
            ) && *final(self) == *old(self),
            contains_id(old(self).store@, block_id) && row_of(old(self).store@, block_id).block.status
                == ProverStatus::PieSubmitted && row_of(old(self).store@, block_id).pie_proof is None
                ==> r == Err::<(), Error>(Error::ProofNotFound(block_id)) && *final(self) == *old(
                self,
            ),
            contains_id(old(self).store@, block_id) && row_of(old(self).store@, block_id).block.status
                == ProverStatus::PieSubmitted && row_of(old(self).store@, block_id).pie_proof is Some
                ==> r == Ok::<(), Error>(()) && final(self).store@ == old(self).store@.update(
                index_of(old(self).store@, block_id),
                with_status(
                    with_query_id_step2(row_of(old(self).store@, block_id), query_id@),
                    ProverStatus::PieProofGenerated,
                ),
            ),
    {
        let block = match self.store.check_status(block_id) {
            Ok(b) => b,
            Err(e) => return Err(e),
        };
        if block.status != ProverStatus::PieSubmitted {
            return Err(
                Error::InvalidTransition {
                    block: block_id,
                    from: block.status,
                    to: ProverStatus::PieProofGenerated,
                },
            );
        }
        if self.store.get_pie_proof(block_id).is_err() {
            return Err(Error::ProofNotFound(block_id));
        }
        let ghost s0 = self.store@;
        let ghost i = index_of(s0, block_id);
        let _ = self.store.update_query_id_step2(block_id, query_id);
        proof {
            self.store.lemma_wf();
            lemma_index_of(self.store@, block_id, i);
        }
        let _ = self.store.update_block_status(block_id, ProverStatus::PieProofGenerated);
        proof {
            assert(self.store@ =~= s0.update(
                i,
                with_status(
                    with_query_id_step2(row_of(s0, block_id), query_id@),
                    ProverStatus::PieProofGenerated,
                ),
            ));
        }
        Ok(())
    }

    /// The layout-bridge job of a `PieProofGenerated` block has finished.
    pub fn record_bridge_done(&mut self, block_id: u32) -> (r: Result<(), Error>)
        requires
            old(self).store.wf(),
        ensures
            final(self).store.wf(),
            final(self).last_settled_block == old(self).last_settled_block,
            final(self).last_sent_for_prove_block == old(self).last_sent_for_prove_block,
            final(self).in_flight_limit == old(self).in_flight_limit,
            !contains_id(old(self).store@, block_id) ==> r == Err::<(), Error>(
                Error::BlockNotFound(block_id),
            ) && *final(self) == *old(self),
            contains_id(old(self).store@, block_id) && row_of(old(self).store@, block_id).block.status
                != ProverStatus::PieProofGenerated ==> r == Err::<(), Error>(
                Error::InvalidTransition {
                    block: block_id,
                    from: row_of(old(self).store@, block_id).block.status,
                    to: ProverStatus::BridgeProofSubmited,
                },
            ) && *final(self) == *old(self),
            contains_id(old(self).store@, block_id) && row_of(old(self).store@, block_id).block.status
                == ProverStatus::PieProofGenerated ==> r == Ok::<(), Error>(()) && final(self).store@
                == old(self).store@.update(
                index_of(old(self).store@, block_id),
                with_status(row_of(old(self).store@, block_id), ProverStatus::BridgeProofSubmited),
            ),
    {
        self.store.update_block_status(block_id, ProverStatus::BridgeProofSubmited)
    }

    /// Stores the layout-bridge proof of a `BridgeProofSubmited` block and
    /// completes it.
    pub fn record_bridge_proof(&mut self, block_id: u32, proof: &str) -> (r: Result<(), Error>)
        requires
            old(self).store.wf(),
        ensures
            final(self).store.wf(),
            final(self).last_settled_block == old(self).last_settled_block,
            final(self).last_sent_for_prove_block == old(self).last_sent_for_prove_block,
            final(self).in_flight_limit == old(self).in_flight_limit,
            !contains_id(old(self).store@, block_id) ==> r == Err::<(), Error>(
                Error::BlockNotFound(block_id),
            ) && *final(self) == *old(self),
            contains_id(old(self).store@, block_id) && row_of(old(self).store@, block_id).block.status
                != ProverStatus::BridgeProofSubmited ==> r == Err::<(), Error>(
                Error::InvalidTransition {
                    block: block_id,
                    from: row_of(old(self).store@, block_id).block.status,
                    to: ProverStatus::Completed,
                },
            ) && *final(self) == *old(self),
            contains_id(old(self).store@, block_id) && row_of(old(self).store@, block_id).block.status
                == ProverStatus::BridgeProofSubmited ==> r == Ok::<(), Error>(())
                && final(self).store@ == old(self).store@.update(
                index_of(old(self).store@, block_id),
                with_status(
                    with_bridge_proof(row_of(old(self).store@, block_id), Some(proof@)),
                    ProverStatus::Completed,
                ),
            ),
    {
        let block = match self.store.check_status(block_id) {
            Ok(b) => b,
            Err(e) => return Err(e),
        };
        if block.status != ProverStatus::BridgeProofSubmited {
            return Err(
                Error::InvalidTransition {
                    block: block_id,
                    from: block.status,
                    to: ProverStatus::Completed,
                },
            );
        }
        let ghost s0 = self.store@;
        let ghost i = index_of(s0, block_id);
        let _ = self.store.insert_bridge_proof(block_id, proof);
        proof {
            self.store.lemma_wf();
            lemma_index_of(self.store@, block_id, i);
        }
        let _ = self.store.update_block_status(block_id, ProverStatus::Completed);
        proof {
            assert(self.store@ =~= s0.update(
                i,
                with_status(
                    with_bridge_proof(row_of(s0, block_id), Some(proof@)),
                    ProverStatus::Completed,
                ),
            ));
        }
        Ok(())
    }

    /// Gives a block up: any non-terminal job may move to `Failed`.
    pub fn mark_failed(&mut self, block_id: u32) -> (r: Result<(), Error>)
        requires
            old(self).store.wf(),
        ensures
            final(self).store.wf(),
            final(self).last_settled_block == old(self).last_settled_block,
            final(self).last_sent_for_prove_block == old(self).last_sent_for_prove_block,
            final(self).in_flight_limit == old(self).in_flight_limit,
            !contains_id(old(self).store@, block_id) ==> r == Err::<(), Error>(
                Error::BlockNotFound(block_id),
            ) && *final(self) == *old(self),
            contains_id(old(self).store@, block_id) && is_terminal(
                row_of(old(self).store@, block_id).block.status,
            ) ==> r == Err::<(), Error>(
                Error::InvalidTransition {
                    block: block_id,
                    from: row_of(old(self).store@, block_id).block.status,
                    to: ProverStatus::Failed,
                },
            ) && *final(self) == *old(self),
            contains_id(old(self).store@, block_id) && !is_terminal(
                row_of(old(self).store@, block_id).block.status,
            ) ==> r == Ok::<(), Error>(()) && final(self).store@ == old(self).store@.update(
                index_of(old(self).store@, block_id),
                with_status(row_of(old(self).store@, block_id), ProverStatus::Failed),
            ),
    {
        self.store.update_block_status(block_id, ProverStatus::Failed)
    }

    /// The next block to settle, with its stage-1 and layout-bridge proofs.
    pub fn next_settlement(&self) -> (r: Option<(u32, String, String)>)
        requires
            self.store.wf(),
        ensures
            settlement_candidate(self.store@, self.last_settled_block) is None ==> r is None,
            settlement_candidate(self.store@, self.last_settled_block) matches Some(id) ==> (r matches Some(
                t,
            ) && t.0 == id && Some(t.1@) == row_of(self.store@, id).pie_proof && Some(t.2@)
                == row_of(self.store@, id).bridge_proof),
    {
        if self.last_settled_block == u32::MAX {
            return None;
        }
        let id = self.last_settled_block + 1;
        let block = match self.store.check_status(id) {
            Ok(b) => b,
            Err(_) => return None,
        };
        if block.status != ProverStatus::Completed {
            return None;
        }
        let pie = match self.store.get_pie_proof(id) {
            Ok(p) => p,
            Err(_) => return None,
        };
        let bridge = match self.store.get_bridge_proof(id) {
            Ok(p) => p,
            Err(_) => return None,
        };
        Some((id, pie, bridge))
    }

    /// Advances the settled cursor once the state update of `block_id` went
    /// through; only the settlement candidate may be settled.
    pub fn record_settlement(&mut self, block_id: u32) -> (r: Result<(), Error>)
        requires
            old(self).store.wf(),
        ensures
            final(self).store == old(self).store,
            final(self).last_sent_for_prove_block == old(self).last_sent_for_prove_block,
            final(self).in_flight_limit == old(self).in_flight_limit,
            settlement_candidate(old(self).store@, old(self).last_settled_block) == Some(block_id)
                ==> r == Ok::<(), Error>(()) && final(self).last_settled_block == block_id,
            settlement_candidate(old(self).store@, old(self).last_settled_block) != Some(block_id)
                ==> r == Err::<(), Error>(Error::OutOfOrderSettlement(block_id))
                && final(self).last_settled_block == old(self).last_settled_block,
    {
        match self.next_settlement() {
            Some(t) => {
                if t.0 == block_id {
                    self.last_settled_block = block_id;
                    Ok(())
                } else {
                    Err(Error::OutOfOrderSettlement(block_id))
                }
            },
            None => Err(Error::OutOfOrderSettlement(block_id)),
        }
    }
}

/// The query whose completion moves `block` on: the trace query while the
/// block is in `PieSubmitted`, the layout-bridge query while it is in
/// `PieProofGenerated`; none in any other status.
pub fn stage2_query(block: &Block) -> (r: Option<String>)
    ensures
        block.status == ProverStatus::PieSubmitted ==> (r matches Some(q) && q@
            == block.query_id_step1@),
        block.status == ProverStatus::PieProofGenerated ==> (r matches Some(q) && q@
            == block.query_id_step2@),
        block.status != ProverStatus::PieSubmitted && block.status
            != ProverStatus::PieProofGenerated ==> r is None,
{
    match block.status {
        ProverStatus::PieSubmitted => Some(block.query_id_step1.clone()),
        ProverStatus::PieProofGenerated => Some(block.query_id_step2.clone()),
        _ => None,
    }
}

/// The highest pending block is a pending block, and no pending block lies
/// above it; there is none exactly when every job is terminal.
pub proof fn lemma_max_pending_id(bs: Seq<BlockView>)
    ensures
        max_pending_id(bs) is None <==> forall|i: int|
            0 <= i < bs.len() ==> is_terminal(#[trigger] bs[i].status),
        max_pending_id(bs) matches Some(m) ==> exists|i: int|
            0 <= i < bs.len() && !is_terminal(#[trigger] bs[i].status) && bs[i].id == m,
        max_pending_id(bs) matches Some(m) ==> forall|i: int|
            0 <= i < bs.len() && !is_terminal(#[trigger] bs[i].status) ==> bs[i].id <= m,
    decreases bs.len(),
{
    if bs.len() > 0 {
        let rest = bs.drop_last();
        lemma_max_pending_id(rest);
        assert(forall|i: int| 0 <= i < rest.len() ==> rest[i] == bs[i]);
        if let Some(m) = max_pending_id(rest) {
            let i = choose|i: int|
                0 <= i < rest.len() && !is_terminal(#[trigger] rest[i].status) && rest[i].id == m;
            assert(bs[i] == rest[i]);
        }
    }
}

/// Restarting resumes stage 1 right after the highest job still pending:
/// every pending block lies at or below the resume point, the resume point is
/// itself a pending block, and with nothing pending it is the last settled
/// block. So no tracked block is sent again and none is skipped.
pub proof fn lemma_resume_after_pending(s: Seq<JobRow>, last_settled_block: u32)
    ensures
        forall|i: int|
            0 <= i < s.len() && !is_terminal(#[trigger] s[i].block.status) ==> s[i].block.id
                <= resume_point(s, last_settled_block),
        (exists|i: int| 0 <= i < s.len() && !is_terminal(#[trigger] s[i].block.status))
            ==> exists|i: int|
            0 <= i < s.len() && !is_terminal(#[trigger] s[i].block.status) && s[i].block.id
                == resume_point(s, last_settled_block),
        (forall|i: int| 0 <= i < s.len() ==> is_terminal(#[trigger] s[i].block.status))
            ==> resume_point(s, last_settled_block) == last_settled_block,
{
    let bs = all_blocks(s);
    lemma_max_pending_id(bs);
    assert(forall|i: int| 0 <= i < s.len() ==> #[trigger] bs[i] == s[i].block);
    if let Some(m) = max_pending_id(bs) {
        let i = choose|i: int| 0 <= i < bs.len() && !is_terminal(#[trigger] bs[i].status) && bs[i].id == m;
        assert(s[i].block == bs[i]);
        assert forall|k: int|
            0 <= k < s.len() && !is_terminal(#[trigger] s[k].block.status) implies s[k].block.id
                <= m by {
            assert(bs[k] == s[k].block);
        }
    } else {
        assert forall|i: int| 0 <= i < s.len() implies is_terminal(#[trigger] s[i].block.status) by {
            assert(bs[i] == s[i].block);
        }
    }
}

/// A job in a status counts toward the number of jobs in that status.
pub proof fn lemma_status_counted(s: Seq<JobRow>, i: int, status: ProverStatus)
    requires
        0 <= i < s.len(),
        s[i].block.status == status,
    ensures
        blocks_with_status(s, status).len() >= 1,
    decreases s.len(),
{
    if i < s.len() - 1 {
        lemma_status_counted(s.drop_last(), i, status);
    }
}

/// Backpressure: with an in-flight limit of one, while any job is in
/// `PieSubmitted` stage 1 is at its limit, so `record_submission` refuses
/// with `Backpressure` and changes nothing.
pub proof fn lemma_backpressure_holds(p: Pipeline, block_id: u32)
    requires
        p.in_flight_limit == 1,
        contains_id(p.store@, block_id),
        row_of(p.store@, block_id).block.status == ProverStatus::PieSubmitted,
    ensures
        blocks_with_status(p.store@, ProverStatus::PieSubmitted).len() >= p.in_flight_limit,
{
    lemma_status_counted(p.store@, index_of(p.store@, block_id), ProverStatus::PieSubmitted);
}

/// Successive stage-1 submissions within one run insert consecutive, strictly
/// increasing block numbers, each one new to the store.
pub proof fn lemma_submissions_consecutive(
    before: Pipeline,
    between: Pipeline,
    after: Pipeline,
    a: u32,
    qa: Seq<char>,
    b: u32,
    qb: Seq<char>,
)
    requires
        submitted(before, between, a, qa),
        submitted(between, after, b, qb),
    ensures
        a < b,
        b == a + 1,
        !contains_id(before.store@, a),
        !contains_id(between.store@, b),
{
}

/// A job that reached `Completed` or `Failed` admits no further status:
/// `update_block_status` on it returns `InvalidTransition` and leaves the
/// store unchanged.
pub proof fn lemma_terminal_status_final(s: Seq<JobRow>, block_id: u32, to: ProverStatus)
    requires
        contains_id(s, block_id),
        is_terminal(row_of(s, block_id).block.status),
    ensures
        !is_transition(row_of(s, block_id).block.status, to),
{
}

/// Settlement is gapless and happens once per block: the candidate is always
/// the immediate successor of the last settled block, it is `Completed`, and
/// once it is settled it is never offered again.
pub proof fn lemma_settlement_order(s: Seq<JobRow>, last_settled_block: u32, id: u32)
    requires
        settlement_candidate(s, last_settled_block) == Some(id),
    ensures
        id == last_settled_block + 1,
        contains_id(s, id),
        row_of(s, id).block.status == ProverStatus::Completed,
        settlement_candidate(s, id) != Some(id),
{
}

} // verus!
