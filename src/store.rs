use vstd::prelude::*;
use crate::errors::Error;
use crate::status::{is_transition, ProverStatus};

verus! {

/// One block submitted for proving: the job row of the store.
#[derive(Debug, Clone)]
pub struct Block {
    pub id: u32,
    pub query_id_step1: String,
    /// Empty until the layout-bridge query is submitted.
    pub query_id_step2: String,
    pub status: ProverStatus,
}

/// What a `Block` holds, as mathematical values.
pub ghost struct BlockView {
    pub id: u32,
    pub query_id_step1: Seq<char>,
    pub query_id_step2: Seq<char>,
    pub status: ProverStatus,
}

impl View for Block {
    type V = BlockView;

    open spec fn view(&self) -> BlockView {
        BlockView {
            id: self.id,
            query_id_step1: self.query_id_step1@,
            query_id_step2: self.query_id_step2@,
            status: self.status,
        }
    }
}

impl Block {
    /// A copy whose contents verified code knows.
    pub fn duplicate(&self) -> (r: Block)
        ensures
            r@ == self@,
    {
        Block {
            id: self.id,
            query_id_step1: self.query_id_step1.clone(),
            query_id_step2: self.query_id_step2.clone(),
            status: self.status,
        }
    }
}

/// A stored job: its block row and the proofs stored for it.
pub ghost struct JobRow {
    pub block: BlockView,
    pub pie_proof: Option<Seq<char>>,
    pub bridge_proof: Option<Seq<char>>,
}

struct JobEntry {
    block: Block,
    pie_proof: Option<String>,
    bridge_proof: Option<String>,
}

pub open spec fn text_of(o: Option<String>) -> Option<Seq<char>> {
    match o {
        Some(s) => Some(s@),
        None => None,
    }
}

impl View for JobEntry {
    type V = JobRow;

    closed spec fn view(&self) -> JobRow {
        JobRow {
            block: self.block@,
            pie_proof: text_of(self.pie_proof),
            bridge_proof: text_of(self.bridge_proof),
        }
    }
}

/// Rows are kept in strictly increasing block order, so block numbers are unique.
pub open spec fn ids_increasing(s: Seq<JobRow>) -> bool {
    forall|i: int, j: int| 0 <= i < j < s.len() ==> s[i].block.id < s[j].block.id
}

pub open spec fn contains_id(s: Seq<JobRow>, id: u32) -> bool {
    exists|i: int| 0 <= i < s.len() && s[i].block.id == id
}

/// The position of the row of block `id`.
pub open spec fn index_of(s: Seq<JobRow>, id: u32) -> int {
    choose|i: int| 0 <= i < s.len() && s[i].block.id == id
}

/// The row of block `id`.
pub open spec fn row_of(s: Seq<JobRow>, id: u32) -> JobRow {
    s[index_of(s, id)]
}

/// The row that a fresh submission creates.
pub open spec fn new_row(id: u32, query_id: Seq<char>, status: ProverStatus) -> JobRow {
    JobRow {
        block: BlockView {
            id,
            query_id_step1: query_id,
            query_id_step2: Seq::empty(),
            status,
        },
        pie_proof: None,
        bridge_proof: None,
    }
}

pub open spec fn with_status(r: JobRow, status: ProverStatus) -> JobRow {
    JobRow { block: BlockView { status, ..r.block }, ..r }
}

pub open spec fn with_query_id_step2(r: JobRow, q: Seq<char>) -> JobRow {
    JobRow { block: BlockView { query_id_step2: q, ..r.block }, ..r }
}

pub open spec fn with_pie_proof(r: JobRow, p: Option<Seq<char>>) -> JobRow {
    JobRow { pie_proof: p, ..r }
}

pub open spec fn with_bridge_proof(r: JobRow, p: Option<Seq<char>>) -> JobRow {
    JobRow { bridge_proof: p, ..r }
}

/// The blocks of all rows, in store order.
pub open spec fn all_blocks(s: Seq<JobRow>) -> Seq<BlockView> {
    s.map_values(|r: JobRow| r.block)
}

/// The blocks whose status is `status`, in store order.
pub open spec fn blocks_with_status(s: Seq<JobRow>, status: ProverStatus) -> Seq<BlockView>
    decreases s.len(),
{
    if s.len() == 0 {
        Seq::empty()
    } else {
        let rest = blocks_with_status(s.drop_last(), status);
        if s.last().block.status == status {
            rest.push(s.last().block)
        } else {
            rest
        }
    }
}

/// The bridge proofs that are stored, in store order.
pub open spec fn bridge_proofs(s: Seq<JobRow>) -> Seq<Seq<char>>
    decreases s.len(),
{
    if s.len() == 0 {
        Seq::empty()
    } else {
        let rest = bridge_proofs(s.drop_last());
        match s.last().bridge_proof {
            Some(p) => rest.push(p),
            None => rest,
        }
    }
}

/// The block at position `i` is the one stored under its number.
pub proof fn lemma_index_of(s: Seq<JobRow>, id: u32, i: int)
    requires
        ids_increasing(s),
        0 <= i < s.len(),
        s[i].block.id == id,
    ensures
        contains_id(s, id),
        index_of(s, id) == i,
{
    let j = index_of(s, id);
    assert(0 <= j < s.len() && s[j].block.id == id);
}

/// The job table: one row per block number, with the proofs of that block.
pub struct JobStore {
    entries: Vec<JobEntry>,
}

impl View for JobStore {
    type V = Seq<JobRow>;

    closed spec fn view(&self) -> Seq<JobRow> {
        self.entries@.map_values(|e: JobEntry| e@)
    }
}

impl Default for JobStore {
    fn default() -> (r: JobStore)
        ensures
            r.wf(),
            r@ == Seq::<JobRow>::empty(),
    {
        JobStore::new()
    }
}

impl JobStore {
    pub closed spec fn wf(&self) -> bool {
        ids_increasing(self@)
    }

    /// A well-formed store keeps its rows in increasing block order.
    pub proof fn lemma_wf(&self)
        requires
            self.wf(),
        ensures
            ids_increasing(self@),
    {
    }

    pub fn new() -> (r: JobStore)
        ensures
            r.wf(),
            r@ == Seq::<JobRow>::empty(),
    {
        let r = JobStore { entries: Vec::new() };
        assert(r@ =~= Seq::<JobRow>::empty());
        r
    }

    /// Finds the row of `id`, or else where it would be inserted.
    fn locate(&self, id: u32) -> (r: Result<usize, usize>)
        requires
            self.wf(),
        ensures
            r matches Ok(i) ==> i < self@.len() && contains_id(self@, id) && index_of(self@, id)
                == i,
            r matches Err(i) ==> i <= self@.len() && !contains_id(self@, id) && (forall|k: int|
                0 <= k < i ==> self@[k].block.id < id) && (forall|k: int|
                i <= k < self@.len() ==> self@[k].block.id > id),
    {
        let n = self.entries.len();
        let mut i: usize = 0;
        while i < n
            invariant
                n == self@.len(),
                i <= n,
                ids_increasing(self@),
                forall|k: int| 0 <= k < i ==> self@[k].block.id < id,
            decreases n - i,
        {
            let cur = self.entries[i].block.id;
            assert(self@[i as int].block.id == cur);
            if cur == id {
                proof {
                    lemma_index_of(self@, id, i as int);
                }
                return Ok(i);
            }
            if cur > id {
                assert(forall|k: int| i <= k < n ==> self@[k].block.id > id) by {
                    assert(forall|k: int| i < k < n ==> self@[i as int].block.id < self@[k].block.id);
                }
                return Err(i);
            }
            i = i + 1;
        }
        Err(i)
    }

    /// Adds the job of a freshly submitted block.
    pub fn insert_block(&mut self, block_id: u32, query_id: &str, status: ProverStatus) -> (r:
        Result<(), Error>)
        requires
            old(self).wf(),
        ensures
            final(self).wf(),
            contains_id(old(self)@, block_id) ==> r == Err::<(), Error>(Error::DuplicateBlock(block_id))
                && *final(self) == *old(self),
            !contains_id(old(self)@, block_id) ==> r == Ok::<(), Error>(()) && exists|i: int|
                0 <= i <= old(self)@.len() && final(self)@ == old(self)@.insert(
                    i,
                    new_row(block_id, query_id@, status),
                ),
    {
        match self.locate(block_id) {
            Ok(_) => Err(Error::DuplicateBlock(block_id)),
            Err(i) => {
                let block = Block {
                    id: block_id,
                    query_id_step1: query_id.to_owned(),
                    query_id_step2: String::new(),
                    status,
                };
                let entry = JobEntry { block, pie_proof: None, bridge_proof: None };
                assert(entry@ == new_row(block_id, query_id@, status));
                let ghost before = self@;
                self.entries.insert(i, entry);
                assert(self@ =~= before.insert(i as int, new_row(block_id, query_id@, status)));
                Ok(())
            },
        }
    }

    /// The block row stored under `block`.
    pub fn check_status(&self, block: u32) -> (r: Result<Block, Error>)
        requires
            self.wf(),
        ensures
            contains_id(self@, block) ==> (r matches Ok(b) && b@ == row_of(self@, block).block),
            !contains_id(self@, block) ==> r == Err::<Block, Error>(Error::BlockNotFound(block)),
    {
        match self.locate(block) {
            Ok(i) => Ok(self.entries[i].block.duplicate()),
            Err(_) => Err(Error::BlockNotFound(block)),
        }
    }

    /// Moves a job along one edge of the state machine. A terminal job, or
    /// any step that is not an edge, is refused and leaves the store unchanged.
    pub fn update_block_status(&mut self, block_id: u32, status: ProverStatus) -> (r: Result<
        (),
        Error,
    >)
        requires
            old(self).wf(),
        ensures
            final(self).wf(),
            !contains_id(old(self)@, block_id) ==> r == Err::<(), Error>(
                Error::BlockNotFound(block_id),
            ) && *final(self) == *old(self),
            contains_id(old(self)@, block_id) && !is_transition(
                row_of(old(self)@, block_id).block.status,
                status,
            ) ==> r == Err::<(), Error>(
                Error::InvalidTransition {
                    block: block_id,
                    from: row_of(old(self)@, block_id).block.status,
                    to: status,
                },
            ) && *final(self) == *old(self),
            contains_id(old(self)@, block_id) && is_transition(
                row_of(old(self)@, block_id).block.status,
                status,
            ) ==> r == Ok::<(), Error>(()) && final(self)@ == old(self)@.update(
                index_of(old(self)@, block_id),
                with_status(row_of(old(self)@, block_id), status),
            ),
    {
        match self.locate(block_id) {
            Err(_) => Err(Error::BlockNotFound(block_id)),
            Ok(i) => {
                let from = self.entries[i].block.status;
                if !from.can_become(status) {
                    return Err(Error::InvalidTransition { block: block_id, from, to: status });
                }
                let ghost before = self@;
                let mut entry = self.take_entry(i);
                entry.block.status = status;
                self.entries.set(i, entry);
                assert(self@ =~= before.update(i as int, with_status(before[i as int], status)));
                Ok(())
            },
        }
    }

    /// Records the query id of the layout-bridge job.
    pub fn update_query_id_step2(&mut self, block_id: u32, query_id: &str) -> (r: Result<(), Error>)
        requires
            old(self).wf(),
        ensures
            final(self).wf(),
            !contains_id(old(self)@, block_id) ==> r == Err::<(), Error>(
                Error::BlockNotFound(block_id),
            ) && *final(self) == *old(self),
            contains_id(old(self)@, block_id) ==> r == Ok::<(), Error>(()) && final(self)@
                == old(self)@.update(
                index_of(old(self)@, block_id),
                with_query_id_step2(row_of(old(self)@, block_id), query_id@),
            ),
    {
        match self.locate(block_id) {
            Err(_) => Err(Error::BlockNotFound(block_id)),
            Ok(i) => {
                let ghost before = self@;
                let mut entry = self.take_entry(i);
                entry.block.query_id_step2 = query_id.to_owned();
                self.entries.set(i, entry);
                assert(self@ =~= before.update(
                    i as int,
                    with_query_id_step2(before[i as int], query_id@),
                ));
                Ok(())
            },
        }
    }

    /// Stores the stage-1 proof of a block.
    pub fn insert_pie_proof(&mut self, block_id: u32, proof: &str) -> (r: Result<(), Error>)
        requires
            old(self).wf(),
        ensures
            final(self).wf(),
            !contains_id(old(self)@, block_id) ==> r == Err::<(), Error>(
                Error::BlockNotFound(block_id),
            ) && *final(self) == *old(self),
            contains_id(old(self)@, block_id) ==> r == Ok::<(), Error>(()) && final(self)@
                == old(self)@.update(
                index_of(old(self)@, block_id),
                with_pie_proof(row_of(old(self)@, block_id), Some(proof@)),
            ),
    {
        match self.locate(block_id) {
            Err(_) => Err(Error::BlockNotFound(block_id)),
            Ok(i) => {
                let ghost before = self@;
                let mut entry = self.take_entry(i);
                entry.pie_proof = Some(proof.to_owned());
                self.entries.set(i, entry);
                assert(self@ =~= before.update(
                    i as int,
                    with_pie_proof(before[i as int], Some(proof@)),
                ));
                Ok(())
            },
        }
    }

    /// Stores the layout-bridge proof of a block.
    pub fn insert_bridge_proof(&mut self, block_id: u32, proof: &str) -> (r: Result<(), Error>)
        requires
            old(self).wf(),
        ensures
            final(self).wf(),
            !contains_id(old(self)@, block_id) ==> r == Err::<(), Error>(
                Error::BlockNotFound(block_id),
            ) && *final(self) == *old(self),
            contains_id(old(self)@, block_id) ==> r == Ok::<(), Error>(()) && final(self)@
                == old(self)@.update(
                index_of(old(self)@, block_id),
                with_bridge_proof(row_of(old(self)@, block_id), Some(proof@)),
            ),
    {
        match self.locate(block_id) {
            Err(_) => Err(Error::BlockNotFound(block_id)),
            Ok(i) => {
                let ghost before = self@;
                let mut entry = self.take_entry(i);
                entry.bridge_proof = Some(proof.to_owned());
                self.entries.set(i, entry);
                assert(self@ =~= before.update(
                    i as int,
                    with_bridge_proof(before[i as int], Some(proof@)),
                ));
                Ok(())
            },
        }
    }

    /// Removes both proofs of a block; the job row stays.
    pub fn delete_proof(&mut self, block_id: u32)
        requires
            old(self).wf(),
        ensures
            final(self).wf(),
            !contains_id(old(self)@, block_id) ==> *final(self) == *old(self),
            contains_id(old(self)@, block_id) ==> final(self)@ == old(self)@.update(
                index_of(old(self)@, block_id),
                with_bridge_proof(with_pie_proof(row_of(old(self)@, block_id), None), None),
            ),
    {
        if let Ok(i) = self.locate(block_id) {
            let ghost before = self@;
            let mut entry = self.take_entry(i);
            entry.pie_proof = None;
            entry.bridge_proof = None;
            self.entries.set(i, entry);
            assert(self@ =~= before.update(
                i as int,
                with_bridge_proof(with_pie_proof(before[i as int], None), None),
            ));
        }
    }

    /// The stage-1 proof of a block.
    pub fn get_pie_proof(&self, block_id: u32) -> (r: Result<String, Error>)
        requires
            self.wf(),
        ensures
            !contains_id(self@, block_id) ==> r == Err::<String, Error>(
                Error::BlockNotFound(block_id),
            ),
            contains_id(self@, block_id) ==> match row_of(self@, block_id).pie_proof {
                Some(p) => (r matches Ok(s) && s@ == p),
                None => r == Err::<String, Error>(Error::ProofNotFound(block_id)),
            },
    {
        match self.locate(block_id) {
            Err(_) => Err(Error::BlockNotFound(block_id)),
            Ok(i) => match &self.entries[i].pie_proof {
                Some(p) => Ok(p.clone()),
                None => Err(Error::ProofNotFound(block_id)),
            },
        }
    }

    /// The layout-bridge proof of a block.
    pub fn get_bridge_proof(&self, block_id: u32) -> (r: Result<String, Error>)
        requires
            self.wf(),
        ensures
            !contains_id(self@, block_id) ==> r == Err::<String, Error>(
                Error::BlockNotFound(block_id),
            ),
            contains_id(self@, block_id) ==> match row_of(self@, block_id).bridge_proof {
                Some(p) => (r matches Ok(s) && s@ == p),
                None => r == Err::<String, Error>(Error::ProofNotFound(block_id)),
            },
    {
        match self.locate(block_id) {
            Err(_) => Err(Error::BlockNotFound(block_id)),
            Ok(i) => match &self.entries[i].bridge_proof {
                Some(p) => Ok(p.clone()),
                None => Err(Error::ProofNotFound(block_id)),
            },
        }
    }

    /// Every block, in increasing block order.
    pub fn list_blocks(&self) -> (r: Vec<Block>)
        requires
            self.wf(),
        ensures
            r@.map_values(|b: Block| b@) == all_blocks(self@),
    {
        let n = self.entries.len();
        let mut out: Vec<Block> = Vec::new();
        let mut i: usize = 0;
        while i < n
            invariant
                n == self@.len(),
                i <= n,
                out@.map_values(|b: Block| b@) =~= all_blocks(self@.subrange(0, i as int)),
            decreases n - i,
        {
            let ghost prev = out@;
            out.push(self.entries[i].block.duplicate());
            assert(self@[i as int].block == self.entries@[i as int].block@);
            assert(all_blocks(self@.subrange(0, i as int + 1)) =~= all_blocks(
                self@.subrange(0, i as int),
            ).push(self@[i as int].block));
            assert(out@ =~= prev.push(out@.last()));
            i = i + 1;
            assert(out@.map_values(|b: Block| b@) =~= all_blocks(self@.subrange(0, i as int)));
        }
        assert(self@.subrange(0, n as int) =~= self@);
        out
    }

    /// The blocks in `status`, in increasing block order.
    pub fn list_blocks_with_status(&self, status: ProverStatus) -> (r: Vec<Block>)
        requires
            self.wf(),
        ensures
            r@.map_values(|b: Block| b@) == blocks_with_status(self@, status),
    {
        let n = self.entries.len();
        let mut out: Vec<Block> = Vec::new();
        let mut i: usize = 0;
        while i < n
            invariant
                n == self@.len(),
                i <= n,
                out@.map_values(|b: Block| b@) =~= blocks_with_status(
                    self@.subrange(0, i as int),
                    status,
                ),
            decreases n - i,
        {
            let ghost prefix = self@.subrange(0, i as int + 1);
            assert(prefix.drop_last() =~= self@.subrange(0, i as int));
            if self.entries[i].block.status == status {
                out.push(self.entries[i].block.duplicate());
            }
            i = i + 1;
            assert(out@.map_values(|b: Block| b@) =~= blocks_with_status(prefix, status));
        }
        assert(self@.subrange(0, n as int) =~= self@);
        out
    }

    /// The number of jobs in `status`.
    pub fn count_with_status(&self, status: ProverStatus) -> (r: usize)
        requires
            self.wf(),
        ensures
            r == blocks_with_status(self@, status).len(),
    {
        let blocks = self.list_blocks_with_status(status);
        assert(blocks@.map_values(|b: Block| b@).len() == blocks@.len());
        blocks.len()
    }

    /// The stored bridge proofs, in increasing block order.
    pub fn list_proof(&self) -> (r: Vec<String>)
        requires
            self.wf(),
        ensures
            r@.map_values(|s: String| s@) == bridge_proofs(self@),
    {
        let n = self.entries.len();
        let mut out: Vec<String> = Vec::new();
        let mut i: usize = 0;
        while i < n
            invariant
                n == self@.len(),
                i <= n,
                out@.map_values(|s: String| s@) =~= bridge_proofs(self@.subrange(0, i as int)),
            decreases n - i,
        {
            let ghost prefix = self@.subrange(0, i as int + 1);
            assert(prefix.drop_last() =~= self@.subrange(0, i as int));
            if let Some(p) = &self.entries[i].bridge_proof {
                out.push(p.clone());
            }
            i = i + 1;
            assert(out@.map_values(|s: String| s@) =~= bridge_proofs(prefix));
        }
        assert(self@.subrange(0, n as int) =~= self@);
        out
    }

    /// Moves the entry at `i` out, leaving an empty placeholder behind.
    fn take_entry(&mut self, i: usize) -> (r: JobEntry)
        requires
            i < old(self).entries@.len(),
        ensures
            r == old(self).entries@[i as int],
            final(self).entries@.len() == old(self).entries@.len(),
            forall|k: int|
                0 <= k < old(self).entries@.len() && k != i ==> final(self).entries@[k]
                    == old(self).entries@[k],
    {
        let placeholder = JobEntry {
            block: Block {
                id: 0,
                query_id_step1: String::new(),
                query_id_step2: String::new(),
                status: ProverStatus::Failed,
            },
            pie_proof: None,
            bridge_proof: None,
        };
        let mut e = placeholder;
        std::mem::swap(&mut e, &mut self.entries[i]);
        e
    }
}

} // verus!
