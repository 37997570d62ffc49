//! What whole read calls deliver.
//!
//! A read call takes the chunks of one answer in order. This module follows a
//! call over all of its chunks, describes the answer of a cluster that serves
//! a file faithfully, and proves what reads of such a file return.

use crate::error::{ErrorKind, HdfsError};
use crate::read::{room, Progress, ReadHdfsFile, ReadStep, ReadView};
use vstd::pervasive::unreached;
use vstd::prelude::*;

verus! {

/// The bytes of all chunks, in order.
pub open spec fn joined(chunks: Seq<Seq<u8>>) -> Seq<u8>
    decreases chunks.len(),
{
    if chunks.len() == 0 {
        Seq::empty()
    } else {
        chunks[0] + joined(chunks.drop_first())
    }
}

/// A call that can go on: some of the destination is written, none of it
/// beyond its end, and the position is within the signed 64-bit range.
pub open spec fn in_progress(p: Progress) -> bool {
    0 <= p.filled <= p.buf.len() && 0 <= p.pos <= i64::MAX
}

/// The call after the chunks of an answer, taken in order until nothing more
/// can be taken or the answer ends.
pub open spec fn run(p: Progress, chunks: Seq<Seq<u8>>) -> Progress
    decreases chunks.len(),
{
    if chunks.len() == 0 || p.room() <= 0 {
        p
    } else {
        run(p.absorb(chunks[0]), chunks.drop_first())
    }
}

/// A whole read call from position `pos` into the destination `buf`.
pub open spec fn read_call(buf: Seq<u8>, pos: int, chunks: Seq<Seq<u8>>) -> Progress {
    run(Progress { buf, filled: 0, pos }, chunks)
}

/// The chunks of an answer that has arrived whole, as sequences of bytes.
pub open spec fn chunks_of(answer: Seq<Vec<u8>>) -> Seq<Seq<u8>> {
    answer.map_values(|chunk: Vec<u8>| chunk@)
}

impl<C> ReadHdfsFile<C> {
    /// One whole read call, for an answer that has arrived whole and without
    /// failure: `answer` holds the chunks with which the cluster answered the
    /// request that `begin_read` makes for `buf`.
    ///
    /// A destination beyond the signed 64-bit range is rejected, with nothing
    /// changed. Otherwise the chunks are taken in order until the destination
    /// is full or the answer ends, and the number of bytes written is
    /// returned.
    pub fn read_answered(&mut self, buf: &mut [u8], answer: &Vec<Vec<u8>>) -> (r: Result<
        usize,
        HdfsError,
    >)
        ensures
            old(self)@.valid(),
            final(self)@.valid(),
            old(buf)@.len() > i64::MAX ==> {
                &&& (r matches Err(e) && e.is(ErrorKind::InvalidInput, "buffer too big"@))
                &&& final(buf)@ == old(buf)@
                &&& final(self)@ == old(self)@
            },
            old(buf)@.len() <= i64::MAX ==> {
                let after = read_call(old(buf)@, old(self)@.pos, chunks_of(answer@));
                &&& (r matches Ok(count) && count == after.filled)
                &&& final(buf)@ == after.buf
                &&& final(self)@ == (ReadView { pos: after.pos, ..old(self)@ })
            },
    {
        let ghost chunks = chunks_of(answer@);
        let ghost start = Progress { buf: buf@, filled: 0, pos: self@.pos };
        match self.begin_read(buf.len()) {
            ReadStep::Done(r) => {
                return r;
            },
            ReadStep::Pull { .. } => unreached(),
            ReadStep::Open(_) => {},
        }
        let mut filled: usize = 0;
        let mut i: usize = 0;
        assert(chunks.subrange(0, chunks.len() as int) =~= chunks);
        while i < answer.len()
            invariant
                i <= answer.len(),
                start == (Progress { buf: old(buf)@, filled: 0, pos: old(self)@.pos }),
                start.buf.len() <= i64::MAX,
                start.buf.len() <= usize::MAX,
                old(self)@.valid(),
                self@.valid(),
                chunks == chunks_of(answer@),
                chunks.len() == answer.len(),
                buf@.len() == start.buf.len(),
                in_progress(Progress { buf: buf@, filled: filled as int, pos: self@.pos }),
                (Progress { buf: buf@, filled: filled as int, pos: self@.pos }).room() > 0,
                run(start, chunks) == run(
                    Progress { buf: buf@, filled: filled as int, pos: self@.pos },
                    chunks.subrange(i as int, chunks.len() as int),
                ),
                self@ == (ReadView { pos: self@.pos, ..old(self)@ }),
            decreases answer.len() - i,
        {
            let ghost now = Progress { buf: buf@, filled: filled as int, pos: self@.pos };
            let ghost rest = chunks.subrange(i as int, chunks.len() as int);
            proof {
                lemma_absorb_in_progress(now, chunks[i as int]);
                assert(rest[0] == chunks[i as int]);
                assert(rest.drop_first() =~= chunks.subrange(i + 1, chunks.len() as int));
                assert(run(now, rest) == run(now.absorb(rest[0]), rest.drop_first()));
                assert(run(now.absorb(rest[0]), rest.drop_first()) == now.absorb(rest[0])
                    || now.absorb(rest[0]).room() > 0);
            }
            match self.take_chunk(buf, filled, answer[i].as_slice()) {
                ReadStep::Pull { filled: more } => {
                    assert(chunks[i as int] == answer@[i as int]@);
                    assert((Progress { buf: buf@, filled: more as int, pos: self@.pos })
                        == now.absorb(rest[0]));
                    filled = more;
                    i = i + 1;
                },
                ReadStep::Done(r) => {
                    return r;
                },
                ReadStep::Open(_) => unreached(),
            }
        }
        Ok(filled)
    }
}

/// The bytes with which a cluster that holds `data` answers a request for
/// `length` bytes from `offset` on: the part of the range that the file has.
pub open spec fn served(data: Seq<u8>, offset: int, length: int) -> Seq<u8> {
    if 0 <= offset < data.len() && 0 < length {
        if offset + length <= data.len() {
            data.subrange(offset, offset + length)
        } else {
            data.subrange(offset, data.len() as int)
        }
    } else {
        Seq::empty()
    }
}

/// True when `chunks` is a faithful answer to the request that a read from
/// `pos` into a destination of `capacity` bytes makes.
pub open spec fn answers(data: Seq<u8>, capacity: int, pos: int, chunks: Seq<Seq<u8>>) -> bool {
    joined(chunks) == served(data, pos, room(capacity, 0, pos))
}

/// Taking a chunk keeps a call in order, and lowers its room by what was taken.
pub proof fn lemma_absorb_in_progress(p: Progress, chunk: Seq<u8>)
    requires
        in_progress(p),
    ensures
        in_progress(p.absorb(chunk)),
        p.absorb(chunk).buf.len() == p.buf.len(),
        p.absorb(chunk).room() == p.room() - p.taken(chunk.len() as int),
        0 <= p.taken(chunk.len() as int) <= p.room(),
{
}

/// Taking two chunks one after the other is taking them joined.
pub proof fn lemma_absorb_joined(p: Progress, a: Seq<u8>, b: Seq<u8>)
    requires
        in_progress(p),
    ensures
        p.absorb(a).absorb(b) == p.absorb(a + b),
{
    lemma_absorb_in_progress(p, a);
    let first = p.absorb(a);
    let ka = p.taken(a.len() as int);
    let kb = first.taken(b.len() as int);
    let k = p.taken((a + b).len() as int);
    if a.len() == 0 {
        assert(a + b =~= b);
    } else if b.len() == 0 {
        assert(a + b =~= a);
    } else if ka <= 0 {
    } else if kb <= 0 {
        assert(k == ka);
        assert((a + b).subrange(0, k) =~= a.subrange(0, ka));
    } else {
        assert(ka == a.len());
        assert(k == ka + kb);
        assert(p.absorb(a + b).buf =~= first.absorb(b).buf);
    }
}

/// The chunking of an answer does not matter: a call that takes the chunks in
/// order ends as one that takes all their bytes at once.
pub proof fn lemma_run_is_absorb_joined(p: Progress, chunks: Seq<Seq<u8>>)
    requires
        in_progress(p),
    ensures
        run(p, chunks) == p.absorb(joined(chunks)),
        in_progress(run(p, chunks)),
    decreases chunks.len(),
{
    lemma_absorb_in_progress(p, joined(chunks));
    if chunks.len() == 0 {
    } else if p.room() <= 0 {
    } else {
        let first = p.absorb(chunks[0]);
        lemma_absorb_in_progress(p, chunks[0]);
        lemma_run_is_absorb_joined(first, chunks.drop_first());
        lemma_absorb_joined(p, chunks[0], joined(chunks.drop_first()));
    }
}

/// A read of a faithfully served file returns the bytes of the file from the
/// position on, as many as the destination holds and the file has, and
/// advances the position by their number. The rest of the destination is
/// left as it was.
pub proof fn lemma_read_returns_file_bytes(
    data: Seq<u8>,
    buf: Seq<u8>,
    pos: int,
    chunks: Seq<Seq<u8>>,
)
    requires
        0 <= pos <= data.len() <= i64::MAX,
        answers(data, buf.len() as int, pos, chunks),
    ensures
        ({
            let after = read_call(buf, pos, chunks);
            let count = if buf.len() <= data.len() - pos {
                buf.len() as int
            } else {
                data.len() - pos
            };
            &&& after.filled == count
            &&& after.pos == pos + count
            &&& after.buf.len() == buf.len()
            &&& after.buf.subrange(0, count) == data.subrange(pos, pos + count)
            &&& after.buf.subrange(count, buf.len() as int) == buf.subrange(count, buf.len() as int)
        }),
{
    let start = Progress { buf, filled: 0, pos };
    lemma_run_is_absorb_joined(start, chunks);
    let after = read_call(buf, pos, chunks);
    let count = if buf.len() <= data.len() - pos {
        buf.len() as int
    } else {
        data.len() - pos
    };
    let bytes = joined(chunks);
    assert(bytes.len() == count);
    assert(start.taken(bytes.len() as int) == count);
    assert(after.buf.subrange(0, count) =~= data.subrange(pos, pos + count));
    assert(after.buf.subrange(count, buf.len() as int) =~= buf.subrange(count, buf.len() as int));
}

/// A read into a destination larger than what is left of the file returns
/// exactly what is left and ends at the end of the file; the read after it
/// returns nothing.
pub proof fn lemma_read_reaches_end(
    data: Seq<u8>,
    buf: Seq<u8>,
    pos: int,
    chunks: Seq<Seq<u8>>,
    later: Seq<Seq<u8>>,
)
    requires
        0 <= pos <= data.len() <= i64::MAX,
        buf.len() > data.len() - pos,
        answers(data, buf.len() as int, pos, chunks),
        answers(data, buf.len() as int, data.len() as int, later),
    ensures
        ({
            let after = read_call(buf, pos, chunks);
            let again = read_call(after.buf, after.pos, later);
            &&& after.filled == data.len() - pos
            &&& after.buf.subrange(0, after.filled) == data.subrange(pos, data.len() as int)
            &&& after.pos == data.len()
            &&& again.filled == 0
            &&& again.pos == data.len()
            &&& again.buf == after.buf
        }),
{
    lemma_read_returns_file_bytes(data, buf, pos, chunks);
    let after = read_call(buf, pos, chunks);
    lemma_read_returns_file_bytes(data, after.buf, after.pos, later);
    let again = read_call(after.buf, after.pos, later);
    lemma_run_is_absorb_joined(Progress { buf: after.buf, filled: 0, pos: after.pos }, later);
}

/// One read call of a series: its destination, and the chunks of the answer
/// that it got.
pub struct Call {
    pub buf: Seq<u8>,
    pub chunks: Seq<Seq<u8>>,
}

/// The position after a series of read calls that starts at `pos`.
pub open spec fn position_after_calls(pos: int, calls: Seq<Call>) -> int
    decreases calls.len(),
{
    if calls.len() == 0 {
        pos
    } else {
        position_after_calls(
            read_call(calls[0].buf, pos, calls[0].chunks).pos,
            calls.drop_first(),
        )
    }
}

/// The bytes that the calls of a series returned, in order.
pub open spec fn gathered(pos: int, calls: Seq<Call>) -> Seq<u8>
    decreases calls.len(),
{
    if calls.len() == 0 {
        Seq::empty()
    } else {
        let after = read_call(calls[0].buf, pos, calls[0].chunks);
        after.buf.subrange(0, after.filled) + gathered(after.pos, calls.drop_first())
    }
}

/// True when each call of a series got a faithful answer to the request that
/// it made from where the call before it ended.
pub open spec fn all_answered(data: Seq<u8>, pos: int, calls: Seq<Call>) -> bool
    decreases calls.len(),
{
    calls.len() == 0 || {
        &&& answers(data, calls[0].buf.len() as int, pos, calls[0].chunks)
        &&& all_answered(
            data,
            read_call(calls[0].buf, pos, calls[0].chunks).pos,
            calls.drop_first(),
        )
    }
}

/// The sizes of the destinations of a series, added up.
pub open spec fn total_capacity(calls: Seq<Call>) -> int
    decreases calls.len(),
{
    if calls.len() == 0 {
        0
    } else {
        calls[0].buf.len() + total_capacity(calls.drop_first())
    }
}

/// A series of reads of a faithfully served file returns, put together, the
/// bytes of the file from where the series started to where it ended, and it
/// ends as far on as the destinations reach or at the end of the file,
/// whichever comes first. The sizes of the destinations and the chunking of
/// the answers make no difference.
pub proof fn lemma_reads_return_consecutive_bytes(data: Seq<u8>, pos: int, calls: Seq<Call>)
    requires
        0 <= pos <= data.len() <= i64::MAX,
        all_answered(data, pos, calls),
    ensures
        pos <= position_after_calls(pos, calls) <= data.len(),
        position_after_calls(pos, calls) == if pos + total_capacity(calls) <= data.len() {
            pos + total_capacity(calls)
        } else {
            data.len() as int
        },
        gathered(pos, calls) == data.subrange(pos, position_after_calls(pos, calls)),
    decreases calls.len(),
{
    if calls.len() == 0 {
        assert(gathered(pos, calls) =~= data.subrange(pos, pos));
    } else {
        let after = read_call(calls[0].buf, pos, calls[0].chunks);
        let rest = calls.drop_first();
        lemma_read_returns_file_bytes(data, calls[0].buf, pos, calls[0].chunks);
        lemma_total_capacity_not_negative(rest);
        lemma_reads_return_consecutive_bytes(data, after.pos, rest);
        let end = position_after_calls(pos, calls);
        assert(data.subrange(pos, after.pos) + data.subrange(after.pos, end) =~= data.subrange(
            pos,
            end,
        ));
    }
}

/// Reads from the start of a faithfully served file, into destinations of any
/// sizes that together hold the file, return the file.
pub proof fn lemma_reads_rebuild_file(data: Seq<u8>, calls: Seq<Call>)
    requires
        data.len() <= i64::MAX,
        all_answered(data, 0, calls),
        total_capacity(calls) >= data.len(),
    ensures
        gathered(0, calls) == data,
        position_after_calls(0, calls) == data.len(),
{
    lemma_reads_return_consecutive_bytes(data, 0, calls);
    assert(data.subrange(0, data.len() as int) =~= data);
}

proof fn lemma_total_capacity_not_negative(calls: Seq<Call>)
    ensures
        0 <= total_capacity(calls),
    decreases calls.len(),
{
    if calls.len() > 0 {
        lemma_total_capacity_not_negative(calls.drop_first());
    }
}

} // verus!
