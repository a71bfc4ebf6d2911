//! The parallel stepper.  The cell indices are cut into contiguous chunks,
//! each chunk is handed to a worker of the pool, and the workers' results are
//! put together in the order of the chunks.

use crate::board::Board;
use crate::grid::Grid;
use rayon::iter::{IntoParallelIterator, ParallelIterator};
use vstd::prelude::*;

verus! {

/// Number of cells in a chunk when `len` cells are shared out among `workers`
/// workers: `len / workers` rounded up, and never 0.
pub open spec fn chunk_len(len: nat, workers: nat) -> nat {
    if len == 0 || workers == 0 {
        1
    } else if workers >= len {
        1
    } else if len % workers == 0 {
        len / workers
    } else {
        len / workers + 1
    }
}

/// Number of chunks of `size` cells that cover `len` cells.
pub open spec fn chunk_count(len: nat, size: nat) -> nat {
    if size == 0 {
        0
    } else if len % size == 0 {
        len / size
    } else {
        len / size + 1
    }
}

/// Where chunk `k` begins among `len` cells.
pub open spec fn chunk_start(len: nat, size: nat, k: nat) -> nat {
    if k * size <= len {
        k * size
    } else {
        len
    }
}

/// Chunk `k` of `cells`.
pub open spec fn chunk(cells: Seq<bool>, size: nat, k: nat) -> Seq<bool> {
    cells.subrange(
        chunk_start(cells.len(), size, k) as int,
        chunk_start(cells.len(), size, k + 1) as int,
    )
}

/// The first `count` chunks of `cells`, one after the other.
pub open spec fn join_chunks(cells: Seq<bool>, size: nat, count: nat) -> Seq<bool>
    decreases count,
{
    if count == 0 {
        Seq::empty()
    } else {
        join_chunks(cells, size, (count - 1) as nat) + chunk(cells, size, (count - 1) as nat)
    }
}

/// The parts, one after the other.
pub open spec fn join_parts(parts: Seq<Vec<bool>>, count: nat) -> Seq<bool>
    decreases count,
{
    if count == 0 {
        Seq::empty()
    } else {
        join_parts(parts, (count - 1) as nat) + parts[count - 1]@
    }
}

impl Grid {
    /// The next generation as the parallel stepper puts it together: from
    /// chunks of `chunk_len(.., workers)` cells, in ascending order.
    pub open spec fn stepped_in_chunks(self, workers: nat) -> Grid {
        let size = chunk_len(self.cells.len(), workers);
        Grid {
            cells: join_chunks(self.next_cells(), size, chunk_count(self.cells.len(), size)),
            generation: self.generation + 1,
            ..self
        }
    }
}

/// Chunks begin one after the other.
pub proof fn lemma_chunk_start_steps(len: nat, size: nat, k: nat)
    ensures
        chunk_start(len, size, k) <= chunk_start(len, size, k + 1) <= len,
{
    assert((k + 1) * size == k * size + size) by (nonlinear_arith);
}

/// The first `count` chunks are what comes before chunk `count`.
pub proof fn lemma_join_chunks(cells: Seq<bool>, size: nat, count: nat)
    ensures
        join_chunks(cells, size, count) == cells.take(chunk_start(cells.len(), size, count) as int),
    decreases count,
{
    if count == 0 {
        assert(0 * size == 0) by (nonlinear_arith);
        assert(cells.take(0) =~= Seq::<bool>::empty());
    } else {
        let before = (count - 1) as nat;
        lemma_join_chunks(cells, size, before);
        lemma_chunk_start_steps(cells.len(), size, before);
        assert(join_chunks(cells, size, count) =~= cells.take(
            chunk_start(cells.len(), size, count) as int,
        ));
    }
}

/// As many chunks as `chunk_count` says cover all cells, and the last of
/// them is not empty.
pub proof fn lemma_chunk_count_covers(len: nat, size: nat)
    requires
        size > 0,
    ensures
        chunk_start(len, size, chunk_count(len, size)) == len,
        chunk_count(len, size) > 0 ==> (chunk_count(len, size) - 1) * size < len,
        chunk_count(len, size) <= len,
{
    let count = chunk_count(len, size);
    assert(len == (len / size) * size + len % size && 0 <= len % size < size
        && (len / size + 1) * size == (len / size) * size + size
        && (len / size - 1) * size == (len / size) * size - size && len / size <= len && (len
        % size != 0 ==> len / size < len)) by (nonlinear_arith)
        requires
            size > 0,
    ;
}

/// All chunks of a sequence, one after the other, are the sequence.
pub proof fn lemma_join_all_chunks(cells: Seq<bool>, size: nat)
    requires
        size > 0,
    ensures
        join_chunks(cells, size, chunk_count(cells.len(), size)) == cells,
{
    lemma_join_chunks(cells, size, chunk_count(cells.len(), size));
    lemma_chunk_count_covers(cells.len(), size);
    assert(cells.take(cells.len() as int) =~= cells);
}

/// A chunk has at least one cell and no more than there are, if there are any.
pub proof fn lemma_chunk_len_bounds(len: nat, workers: nat)
    ensures
        1 <= chunk_len(len, workers),
        len > 0 ==> chunk_len(len, workers) <= len,
        0 < workers < len ==> 1 <= len / workers <= len,
        0 < workers < len && len % workers != 0 ==> len / workers < len,
{
    if 0 < workers < len {
        assert(1 <= len / workers <= len && (len % workers != 0 ==> len / workers < len))
            by (nonlinear_arith)
            requires
                0 < workers < len,
        ;
    }
}

/// `rayon::current_num_threads`: the number of threads of the pool that the
/// caller runs in.  Nothing is known of it.
#[verifier::external_body]
fn worker_count() -> usize {
    rayon::current_num_threads()
}

/// `into_par_iter().map(..).collect()` of `rayon` on the range `0..count`:
/// the pool's workers each compute chunks, and the vector holds the result
/// for chunk `k` at index `k`, whichever worker finished first.
#[verifier::external_body]
fn dispatch(brd: &Board, size: usize, count: usize) -> (parts: Vec<Vec<bool>>)
    requires
        size > 0,
        count > 0 ==> (count - 1) * size <= brd@.cells.len(),
    ensures
        parts@.len() == count,
        forall|k: int| 0 <= k < count ==> (#[trigger] parts@[k])@ == chunk(brd@.next_cells(), size as nat, k as nat),
{
    (0..count).into_par_iter().map(|k| brd.successor_chunk(k, size)).collect()
}

/// The parts, one after the other.
fn assemble(parts: &Vec<Vec<bool>>, len: usize) -> (cells: Vec<bool>)
    ensures
        cells@ == join_parts(parts@, parts@.len()),
{
    let mut cells: Vec<bool> = Vec::with_capacity(len);
    let mut k: usize = 0;
    while k < parts.len()
        invariant
            k <= parts@.len(),
            cells@ == join_parts(parts@, k as nat),
        decreases parts@.len() - k,
    {
        let part = &parts[k];
        let ghost before = cells@;
        let mut i: usize = 0;
        while i < part.len()
            invariant
                i <= part@.len(),
                cells@ == before + part@.take(i as int),
            decreases part@.len() - i,
        {
            cells.push(part[i]);
            assert(part@.take(i + 1) =~= part@.take(i as int).push(part@[i as int]));
            i += 1;
        }
        assert(part@.take(part@.len() as int) =~= part@);
        k += 1;
    }
    cells
}

/// Parts that are the chunks, put together, are the chunks put together.
proof fn lemma_parts_are_chunks(parts: Seq<Vec<bool>>, cells: Seq<bool>, size: nat, count: nat)
    requires
        count <= parts.len(),
        forall|k: int| 0 <= k < count ==> (#[trigger] parts[k])@ == chunk(cells, size, k as nat),
    ensures
        join_parts(parts, count) == join_chunks(cells, size, count),
    decreases count,
{
    if count > 0 {
        lemma_parts_are_chunks(parts, cells, size, (count - 1) as nat);
    }
}

impl Board {
    /// The states in the next generation of the cells of chunk `k`, where a
    /// chunk has `size` cells.
    pub fn successor_chunk(&self, k: usize, size: usize) -> (cells: Vec<bool>)
        requires
            size > 0,
            k * size <= self@.cells.len(),
        ensures
            cells@ == chunk(self@.next_cells(), size as nat, k as nat),
    {
        let len = self.len();
        let start = k * size;
        let end = if size <= len - start {
            start + size
        } else {
            len
        };
        proof {
            assert((k + 1) * size == k * size + size) by (nonlinear_arith);
        }
        let mut cells: Vec<bool> = Vec::with_capacity(end - start);
        let mut cell = start;
        while cell < end
            invariant
                start <= cell <= end <= len,
                len == self@.cells.len(),
                cells@.len() == cell - start,
                forall|i: int| 0 <= i < cell - start ==> cells@[i] == self@.successor_at(start + i),
            decreases end - cell,
        {
            cells.push(self.successor_cell(cell));
            cell += 1;
        }
        assert(cells@ =~= chunk(self@.next_cells(), size as nat, k as nat));
        cells
    }

    /// The cells of the next generation, computed by `workers` workers of the
    /// pool: the cells that the serial stepper computes, whatever `workers`
    /// is and whatever the board's generation.
    pub fn parallel_next_cells_with(&self, workers: usize) -> (cells: Vec<bool>)
        ensures
            cells@ == self@.next_cells(),
            cells@ == self@.stepped_in_chunks(workers as nat).cells,
            cells@.len() == self@.cells.len(),
    {
        let len = self.len();
        proof {
            lemma_chunk_len_bounds(len as nat, workers as nat);
        }
        let size: usize = if len == 0 || workers == 0 || workers >= len {
            1
        } else if len % workers == 0 {
            len / workers
        } else {
            len / workers + 1
        };
        proof {
            lemma_chunk_count_covers(len as nat, size as nat);
        }
        let count: usize = if len % size == 0 {
            len / size
        } else {
            len / size + 1
        };
        proof {
            lemma_join_all_chunks(self@.next_cells(), size as nat);
        }
        let parts = dispatch(self, size, count);
        let new_brd = assemble(&parts, len);
        proof {
            lemma_parts_are_chunks(parts@, self@.next_cells(), size as nat, count as nat);
        }
        new_brd
    }

    /// The cells of the next generation, computed by the workers of the pool.
    pub fn parallel_next_cells(&self) -> (cells: Vec<bool>)
        ensures
            cells@ == self@.next_cells(),
            cells@.len() == self@.cells.len(),
    {
        self.parallel_next_cells_with(worker_count())
    }

    /// The next generation, computed by `workers` workers of the pool: the
    /// same board whatever `workers` is.
    pub fn parallel_next_generation_with(&self, workers: usize) -> (next: Board)
        requires
            self@.generation < usize::MAX,
        ensures
            next@ == self@.stepped(),
            next@ == self@.stepped_in_chunks(workers as nat),
            next@.wf(),
    {
        let new_brd = self.parallel_next_cells_with(workers);
        self.next_generation_board(new_brd)
    }

    /// The next generation, computed by the workers of the pool.
    pub fn parallel_next_generation(&self) -> (next: Board)
        requires
            self@.generation < usize::MAX,
        ensures
            next@ == self@.stepped(),
            next@.wf(),
    {
        self.parallel_next_generation_with(worker_count())
    }

    /// The next generation.
    pub fn next_generation(&self) -> (next: Board)
        requires
            self@.generation < usize::MAX,
        ensures
            next@ == self@.stepped(),
            next@.wf(),
    {
        self.parallel_next_generation()
    }
}

} // verus!
