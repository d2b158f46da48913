//! Planning a bulk load: cutting a batch into chunks for the workers, the
//! key under which each vector is stored, and the upload of one chunk,
//! command by command.

use std::collections::VecDeque;
use vstd::prelude::*;

use crate::arg::{lemma_decimal_injective, Arg};
use crate::command::{number, slot, tvs_hset_vector, word};
use crate::queue::enqueue;
use crate::tally::{advanced, tallied, Progress};
use crate::wire::{cmd_cursor, cmd_slots};

verus! {

/// The number of vectors in a chunk, unless a caller chooses another.
pub const CHUNK_SIZE: usize = 32;

/// A run of neighbouring positions of a batch, handed to one worker.
#[derive(Clone, Copy, Debug, PartialEq, Eq, Structural)]
pub struct Chunk {
    /// The position in the batch of the chunk's first vector.
    pub start: usize,
    /// The number of vectors in the chunk.
    pub len: usize,
}

/// The number of chunks of `size` that a batch of `total` is cut into: as
/// many as it takes to hold every vector, the last one maybe shorter.
pub open spec fn chunk_count(total: nat, size: nat) -> nat
    recommends
        size > 0,
{
    if total == 0 {
        0
    } else {
        ((total - 1) / (size as int) + 1) as nat
    }
}

/// The chunk with the given number, counted from zero: it starts where the
/// chunks before it end and holds `size` vectors, or what is left of the
/// batch if that is less.
pub open spec fn chunk_at(index: nat, total: nat, size: nat) -> Chunk
    recommends
        size > 0,
        index * size < total,
{
    Chunk {
        start: (index * size) as usize,
        len: if total - index * size < size {
            (total - index * size) as usize
        } else {
            size as usize
        },
    }
}

/// The chunks of a batch, in order.
pub open spec fn planned(total: nat, size: nat) -> Seq<Chunk>
    recommends
        size > 0,
{
    Seq::new(chunk_count(total, size), |index: int| chunk_at(index as nat, total, size))
}

impl Chunk {
    /// Whether a position of the batch belongs to this chunk.
    pub open spec fn holds(self, position: nat) -> bool {
        self.start <= position < self.start + self.len
    }

    /// The key of the vector at `offset` within this chunk: its position in
    /// the whole batch, not its place in the chunk.
    pub fn key(&self, offset: usize) -> (key: usize)
        requires
            offset < self.len,
            self.start + self.len <= usize::MAX,
        ensures
            key == self.start + offset,
            self.holds(key as nat),
    {
        self.start + offset
    }
}

/// Cuts a batch of `total` vectors into chunks of `size`.
pub fn plan(total: usize, size: usize) -> (chunks: Vec<Chunk>)
    requires
        size > 0,
    ensures
        chunks@ == planned(total as nat, size as nat),
        forall|index: int|
            0 <= index < chunks.len() ==> (#[trigger] chunks[index]).start + chunks[index].len
                <= total,
{
    let mut chunks: Vec<Chunk> = Vec::new();
    let mut start: usize = 0;
    proof {
        lemma_chunk_count(0, total as nat, size as nat);
    }
    while start < total
        invariant
            size > 0,
            start <= total,
            start < total ==> start == chunks.len() * size,
            start == total ==> chunks.len() == chunk_count(total as nat, size as nat),
            chunks.len() <= chunk_count(total as nat, size as nat),
            forall|index: int|
                0 <= index < chunks.len() ==> (#[trigger] chunks[index]).start
                    + chunks[index].len <= total,
            forall|index: int|
                0 <= index < chunks.len() ==> #[trigger] chunks@[index] == chunk_at(
                    index as nat,
                    total as nat,
                    size as nat,
                ),
        decreases total - start,
    {
        let len: usize = if total - start < size {
            total - start
        } else {
            size
        };
        proof {
            lemma_chunk_count(chunks.len() as nat, total as nat, size as nat);
            lemma_chunk_count((chunks.len() + 1) as nat, total as nat, size as nat);
            assert((chunks.len() + 1) * size == chunks.len() * size + size) by (nonlinear_arith);
        }
        chunks.push(Chunk { start, len });
        start = start + len;
    }
    chunks
}

/// How many chunks there are, told by where a chunk would start: chunk
/// number `index` exists exactly if it starts inside the batch, and a chunk
/// that would start at the very end of the batch is the first that does not
/// exist.
proof fn lemma_chunk_count(index: nat, total: nat, size: nat)
    requires
        size > 0,
    ensures
        index * size < total <==> index < chunk_count(total, size),
        index * size == total ==> index == chunk_count(total, size),
{
    let count = chunk_count(total, size);
    if total > 0 {
        let q = (total - 1) / (size as int);
        assert(q * size <= total - 1 < q * size + size) by (nonlinear_arith)
            requires
                q == (total - 1) / (size as int),
                size > 0,
                total > 0,
        ;
        assert(count == q + 1);
        if index <= q {
            assert(index * size <= q * size) by (nonlinear_arith)
                requires
                    index <= q,
                    size > 0,
            ;
        } else {
            assert(index * size >= (q + 1) * size) by (nonlinear_arith)
                requires
                    index >= q + 1,
                    size > 0,
            ;
            assert((q + 1) * size == q * size + size) by (nonlinear_arith);
            if index >= q + 2 {
                assert(index * size >= q * size + 2 * size) by (nonlinear_arith)
                    requires
                        index >= q + 2,
                        size > 0,
                ;
            }
        }
    } else {
        assert(index * size >= 0) by (nonlinear_arith);
        if index > 0 {
            assert(index * size >= size) by (nonlinear_arith)
                requires
                    index >= 1,
                    size > 0,
            ;
        }
    }
}

/// The shape of a chunk of the plan: it starts at its number times the
/// chunk size, holds at least one vector and at most `size`, ends inside the
/// batch, and is full unless it is the last.
pub proof fn lemma_planned_chunk(total: nat, size: nat, index: nat)
    requires
        size > 0,
        total <= usize::MAX,
        index < chunk_count(total, size),
    ensures
        planned(total, size)[index as int].start == index * size,
        1 <= planned(total, size)[index as int].len <= size,
        planned(total, size)[index as int].start + planned(total, size)[index as int].len <= total,
        index + 1 < chunk_count(total, size) ==> planned(total, size)[index as int].len == size,
{
    lemma_chunk_count(index, total, size);
    lemma_chunk_count(index + 1, total, size);
    assert((index + 1) * size == index * size + size) by (nonlinear_arith);
}

/// Every vector is assigned to exactly one chunk, and its key is its
/// position in the batch: the position `position` belongs to the chunk
/// with the number `position / size`, at the offset `position % size`, and
/// to no other chunk.
pub proof fn lemma_plan_partitions(total: nat, size: nat, position: nat)
    requires
        size > 0,
        total <= usize::MAX,
        position < total,
    ensures
        position / size < chunk_count(total, size),
        planned(total, size)[(position / size) as int].holds(position),
        planned(total, size)[(position / size) as int].start + position % size == position,
        forall|other: int|
            0 <= other < chunk_count(total, size) && (#[trigger] planned(total, size)[other]).holds(
                position,
            ) ==> other == position / size,
{
    let index = position / size;
    assert(index * size + position % size == position && 0 <= position % size < size) by (
        nonlinear_arith)
        requires
            index == position / size,
            size > 0,
    ;
    lemma_chunk_count(index, total, size);
    lemma_planned_chunk(total, size, index);
    assert forall|other: int|
        0 <= other < chunk_count(total, size) && (#[trigger] planned(total, size)[other]).holds(
            position,
        ) implies other == index by {
        lemma_planned_chunk(total, size, other as nat);
        if other < index {
            assert((other + 1) * size <= index * size) by (nonlinear_arith)
                requires
                    other + 1 <= index,
                    size > 0,
            ;
            assert((other + 1) * size == other * size + size) by (nonlinear_arith);
        } else if other > index {
            assert(other * size >= (index + 1) * size) by (nonlinear_arith)
                requires
                    other >= index + 1,
                    size > 0,
            ;
            assert((index + 1) * size == index * size + size) by (nonlinear_arith);
        }
    }
}

/// Whether `cmds` are the commands that store the vectors of a chunk: one
/// per vector, in order, each the command that sets the vector field of the
/// record whose key is the vector's position in the batch to the vector's
/// wire text.
pub open spec fn stores<'a>(
    cmds: Seq<redis::Cmd>,
    index_name: Arg<'a>,
    chunk: Chunk,
    texts: Seq<Vec<u8>>,
) -> bool {
    &&& cmds.len() == chunk.len
    &&& forall|offset: int|
        0 <= offset < chunk.len ==> {
            &&& cmd_slots(#[trigger] cmds[offset]) == seq![
                word("TVS.HSET"),
                slot(index_name),
                number((chunk.start + offset) as usize),
                word("VECTOR"),
                Some(texts[offset]@),
            ]
            &&& cmd_cursor(cmds[offset]) is None
        }
}

/// The commands of one worker for one chunk: for each vector of the chunk,
/// in order, the command that stores its wire text under its key. `texts`
/// holds the wire texts of the chunk's vectors.
pub fn upserts<'a>(index_name: Arg<'a>, chunk: &Chunk, texts: &[Vec<u8>]) -> (cmds: Vec<redis::Cmd>)
    requires
        texts.len() == chunk.len,
        chunk.start + chunk.len <= usize::MAX,
    ensures
        stores(cmds@, index_name, *chunk, texts@),
{
    let mut cmds: Vec<redis::Cmd> = Vec::new();
    let mut offset: usize = 0;
    while offset < chunk.len
        invariant
            offset <= chunk.len,
            texts.len() == chunk.len,
            chunk.start + chunk.len <= usize::MAX,
            stores(cmds@, index_name, Chunk { start: chunk.start, len: offset }, texts@),
        decreases chunk.len - offset,
    {
        let key: usize = chunk.key(offset);
        let cmd = tvs_hset_vector(
            index_name,
            Arg::Number(key),
            Arg::Bytes(texts[offset].as_slice()),
        );
        cmds.push(cmd);
        offset += 1;
    }
    cmds
}

/// Vectors at different positions are stored under different keys.
pub proof fn lemma_keys_distinct(first: usize, second: usize)
    requires
        first != second,
    ensures
        number(first) != number(second),
{
    if number(first) == number(second) {
        lemma_decimal_injective(first as nat, second as nat);
    }
}

/// The upload of one chunk as the contracts see it.
pub struct UploadView {
    /// The commands that are still to be sent, in order.
    pub waiting: Seq<redis::Cmd>,
    /// What the commands that were sent have come to.
    pub progress: Progress,
}

/// The upload of one chunk by one worker: which command to send next, and
/// what the replies come to. A failure ends the upload: the commands that
/// were not yet sent are not sent.
pub struct Upload {
    waiting: VecDeque<redis::Cmd>,
    progress: Progress,
}

impl View for Upload {
    type V = UploadView;

    closed spec fn view(&self) -> UploadView {
        UploadView { waiting: self.waiting@, progress: self.progress }
    }
}

impl Upload {
    /// The upload of a chunk before its first command: every command of the
    /// chunk is waiting and nothing is counted. `texts` holds the wire texts
    /// of the chunk's vectors.
    pub fn new<'a>(index_name: Arg<'a>, chunk: &Chunk, texts: &[Vec<u8>]) -> (upload: Self)
        requires
            texts.len() == chunk.len,
            chunk.start + chunk.len <= usize::MAX,
        ensures
            stores(upload@.waiting, index_name, *chunk, texts@),
            upload@.progress == Progress::Counted(0),
    {
        let cmds = upserts(index_name, chunk, texts);
        let mut waiting: VecDeque<redis::Cmd> = VecDeque::new();
        enqueue(&mut waiting, cmds);
        assert(waiting@ == cmds@);
        Upload { waiting, progress: Progress::Counted(0) }
    }

    /// The command to send next, the first of those that wait; none once a
    /// command has failed or when none is left.
    pub fn next(&mut self) -> (cmd: Option<redis::Cmd>)
        ensures
            final(self)@.progress == old(self)@.progress,
            match cmd {
                Some(cmd) => {
                    &&& old(self)@.progress is Counted
                    &&& old(self)@.waiting.len() > 0
                    &&& cmd == old(self)@.waiting[0]
                    &&& final(self)@.waiting == old(self)@.waiting.drop_first()
                },
                None => {
                    &&& old(self)@.progress is Failed || old(self)@.waiting.len() == 0
                    &&& final(self)@.waiting == old(self)@.waiting
                },
            },
    {
        match self.progress {
            Progress::Failed => None,
            Progress::Counted(_) => {
                let ghost before = self.waiting@;
                let cmd = self.waiting.pop_front();
                assert(cmd is Some ==> self.waiting@ == before.drop_first());
                cmd
            },
        }
    }

    /// Takes in the outcome of the command that was sent last: the count
    /// that the store reported, or `None` for a failure.
    pub fn record(&mut self, outcome: Option<usize>)
        ensures
            final(self)@ == (UploadView {
                waiting: old(self)@.waiting,
                progress: advanced(old(self)@.progress, outcome),
            }),
    {
        self.progress = self.progress.advance(outcome);
    }

    /// What the upload has come to so far.
    pub fn progress(&self) -> (progress: Progress)
        ensures
            progress == self@.progress,
    {
        self.progress
    }
}

/// The workers' reports of a load without failures: for each chunk of the
/// plan, the number of vectors in it.
pub open spec fn chunk_reports(total: nat, size: nat) -> Seq<Option<usize>> {
    Seq::new(
        chunk_count(total, size),
        |index: int| Some(planned(total, size)[index].len),
    )
}

/// A bulk load without failures returns the size of the batch: where every
/// worker reports the number of vectors in its chunks, the reports add up
/// to `total`.
pub proof fn lemma_load_counts_all(total: nat, size: nat)
    requires
        size > 0,
        total <= usize::MAX,
    ensures
        tallied(chunk_reports(total, size)) == Some(total as int),
{
    let reports = chunk_reports(total, size);
    lemma_reports_prefix(total, size, reports.len());
    assert(reports.take(reports.len() as int) == reports);
    lemma_chunk_count(reports.len(), total, size);
    if reports.len() * size < total {
    } else if total > 0 {
        lemma_planned_chunk(total, size, (reports.len() - 1) as nat);
    }
}

/// The reports of the first chunks add up to the number of vectors in these
/// chunks: a chunk size each, but no more than the batch holds.
proof fn lemma_reports_prefix(total: nat, size: nat, count: nat)
    requires
        size > 0,
        total <= usize::MAX,
        count <= chunk_count(total, size),
    ensures
        tallied(chunk_reports(total, size).take(count as int)) == Some(
            if count * size < total {
                (count * size) as int
            } else {
                total as int
            },
        ),
    decreases count,
{
    let reports = chunk_reports(total, size);
    if count == 0 {
        assert(0 * size == 0) by (nonlinear_arith);
        assert(reports.take(0).len() == 0);
    } else {
        let index = (count - 1) as nat;
        lemma_reports_prefix(total, size, index);
        lemma_planned_chunk(total, size, index);
        lemma_chunk_count(index, total, size);
        assert(reports.take(count as int).drop_last() == reports.take(index as int));
        assert(reports.take(count as int).last() == Some(planned(total, size)[index as int].len));
        assert(count * size == index * size + size) by (nonlinear_arith)
            requires
                count == index + 1,
        ;
    }
}

} // verus!
