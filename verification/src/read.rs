//! A remote file opened for reading.
//!
//! The handle records the length that the file had when it was opened and a
//! position in it. Seeking is arithmetic on those two numbers. A read asks the
//! cluster for one range of bytes, starting at the position, and then takes
//! the chunks of the answer one by one until the destination is full or the
//! answer ends.

use crate::error::{ErrorKind, HdfsError};
use crate::seek::{
    position_after, refusal_message, resolve, seek_outcome, seek_target, SeekFrom,
};
use vstd::prelude::*;

verus! {

/// A handle on a remote file for reading, built on a harness of type `C`.
///
/// The harness is carried along and handed back by `into_parts`; the handle
/// itself never calls it. The position is never negative, and neither is the
/// recorded length.
pub struct ReadHdfsFile<C> {
    cx: C,
    path: String,
    len: i64,
    pos: i64,
}

/// What a read handle stands for in contracts.
pub struct ReadView<C> {
    /// The harness that the handle was opened with.
    pub cx: C,
    /// The path of the remote file.
    pub path: Seq<char>,
    /// The length recorded when the file was opened.
    pub len: int,
    /// The current position.
    pub pos: int,
}

/// A request for one range of a remote file.
#[derive(Debug)]
pub struct RangeRequest {
    /// The path of the file.
    pub path: String,
    /// The position of the first byte asked for.
    pub offset: i64,
    /// The number of bytes asked for, at most.
    pub length: i64,
}

/// What a read call needs next.
#[derive(Debug)]
pub enum ReadStep {
    /// Ask the cluster for this range, then take the first chunk of the answer
    /// with nothing written yet.
    Open(RangeRequest),
    /// Take the next chunk of the answer; `filled` bytes of the destination
    /// are written.
    Pull { filled: usize },
    /// The call is over, with this result.
    Done(Result<usize, HdfsError>),
}

/// How far one read call has come: the destination, the number of its bytes
/// that are written, and the position in the file.
pub struct Progress {
    pub buf: Seq<u8>,
    pub filled: int,
    pub pos: int,
}

/// The number of bytes that a read call can still take: the space left in a
/// destination of `capacity` bytes, as far as the position can still advance
/// within the signed 64-bit range.
pub open spec fn room(capacity: int, filled: int, pos: int) -> int {
    let space = if filled < capacity {
        capacity - filled
    } else {
        0
    };
    let headroom = i64::MAX - pos;
    if space <= headroom {
        space
    } else {
        headroom
    }
}

impl Progress {
    /// The number of bytes that the call can still take.
    pub open spec fn room(self) -> int {
        room(self.buf.len() as int, self.filled, self.pos)
    }

    /// The number of bytes taken from a chunk of `chunk_len` bytes: all that fit.
    pub open spec fn taken(self, chunk_len: int) -> int {
        if chunk_len <= self.room() {
            chunk_len
        } else {
            self.room()
        }
    }

    /// The call after one chunk of the answer: the bytes that fit are written
    /// behind the ones already there, and the position advances by their number.
    pub open spec fn absorb(self, chunk: Seq<u8>) -> Progress {
        let k = self.taken(chunk.len() as int);
        if k <= 0 {
            self
        } else {
            Progress {
                buf: self.buf.subrange(0, self.filled) + chunk.subrange(0, k) + self.buf.subrange(
                    self.filled + k,
                    self.buf.len() as int,
                ),
                filled: self.filled + k,
                pos: self.pos + k,
            }
        }
    }

    /// What the call needs after a chunk: it is over once nothing more can be
    /// taken.
    pub open spec fn next(self) -> ReadStep {
        if self.room() == 0 {
            ReadStep::Done(Ok(self.filled as usize))
        } else {
            ReadStep::Pull { filled: self.filled as usize }
        }
    }
}

impl<C> ReadView<C> {
    /// What holds of every handle: the position and the recorded length are
    /// not negative and fit in signed 64 bits.
    pub open spec fn valid(self) -> bool {
        0 <= self.pos <= i64::MAX && 0 <= self.len <= i64::MAX
    }
}

impl<C> View for ReadHdfsFile<C> {
    type V = ReadView<C>;

    closed spec fn view(&self) -> ReadView<C> {
        ReadView { cx: self.cx, path: self.path@, len: self.len as int, pos: self.pos as int }
    }
}

impl<C> ReadHdfsFile<C> {
    #[verifier::type_invariant]
    spec fn inv(&self) -> bool {
        0 <= self.pos && 0 <= self.len
    }

    /// Opens the file at `path` for reading, given the length that the cluster
    /// reported for it.
    ///
    /// The handle starts at position 0. A failed query is handed on unchanged,
    /// and a negative length is rejected as a malformed answer.
    pub fn open(cx: C, path: String, stat: Result<i64, HdfsError>) -> (r: Result<Self, HdfsError>)
        ensures
            match stat {
                Ok(length) if length >= 0 => r matches Ok(file) && file@ == (ReadView {
                    cx,
                    path: path@,
                    len: length as int,
                    pos: 0,
                }),
                Ok(_) => (r matches Err(e) && e.is(ErrorKind::Remote, "negative file length"@)),
                Err(failure) => r matches Err(e) && e == failure,
            },
    {
        match stat {
            Ok(length) => {
                if length >= 0 {
                    Ok(ReadHdfsFile { cx, path, len: length, pos: 0 })
                } else {
                    Err(HdfsError::remote("negative file length"))
                }
            },
            Err(failure) => Err(failure),
        }
    }

    /// The length recorded when the file was opened. It is never refreshed.
    pub fn len(&self) -> (n: u64)
        ensures
            n == self@.len,
            self@.valid(),
    {
        proof {
            use_type_invariant(self);
        }
        self.len as u64
    }

    /// The current position.
    pub fn position(&self) -> (p: i64)
        ensures
            p == self@.pos,
            self@.valid(),
    {
        proof {
            use_type_invariant(self);
        }
        self.pos
    }

    /// The harness that the handle was opened with.
    pub fn harness(&self) -> (cx: &C)
        ensures
            *cx == self@.cx,
    {
        &self.cx
    }

    /// The path of the remote file.
    pub fn path(&self) -> (p: &str)
        ensures
            p@ == self@.path,
    {
        self.path.as_str()
    }

    /// Takes the handle apart into the harness, the path and the pair of
    /// position and length.
    pub fn into_parts(self) -> (parts: (C, String, (i64, i64)))
        ensures
            parts.0 == self@.cx,
            parts.1@ == self@.path,
            parts.2.0 == self@.pos,
            parts.2.1 == self@.len,
            self@.valid(),
    {
        proof {
            use_type_invariant(&self);
        }
        (self.cx, self.path, (self.pos, self.len))
    }

    /// Moves the position and returns the new one.
    ///
    /// A seek that lands inside the file moves there. One that lands past the
    /// recorded length succeeds and leaves the position as it was. One that
    /// lands before the start, or beyond the signed 64-bit range, fails and
    /// leaves the position as it was. No request is made.
    pub fn seek(&mut self, pos: SeekFrom) -> (r: Result<u64, HdfsError>)
        ensures
            old(self)@.valid(),
            final(self)@.valid(),
            final(self)@ == (ReadView {
                pos: position_after(pos, old(self)@.pos, old(self)@.len),
                ..old(self)@
            }),
            match seek_outcome(pos, old(self)@.pos, old(self)@.len) {
                Ok(p) => r == Ok::<u64, HdfsError>(p as u64),
                Err(kind) => (r matches Err(e) && e.is(kind, refusal_message(pos))),
            },
            seek_target(pos, old(self)@.pos, old(self)@.len) matches Some(p) ==> 0 <= p
                <= i64::MAX,
    {
        proof {
            use_type_invariant(&*self);
        }
        match resolve(pos, self.pos, self.len) {
            Ok(p) => {
                self.pos = p;
                Ok(p as u64)
            },
            Err(e) => Err(e),
        }
    }

    /// Starts a read into a destination of `capacity` bytes.
    ///
    /// A capacity beyond the signed 64-bit range is rejected. Where nothing
    /// can be taken (the destination is empty, or the position is at the end
    /// of the signed range), the call is over with 0 bytes and no request.
    /// Otherwise one range is asked for, from the position on, of as many
    /// bytes as can be taken: a request never asks for 0 bytes.
    pub fn begin_read(&self, capacity: usize) -> (next: ReadStep)
        ensures
            self@.valid(),
            capacity > i64::MAX ==> (next matches ReadStep::Done(Err(e)) && e.is(
                ErrorKind::InvalidInput,
                "buffer too big"@,
            )),
            capacity <= i64::MAX && room(capacity as int, 0, self@.pos) == 0 ==> next
                == ReadStep::Done(Ok(0)),
            capacity <= i64::MAX && room(capacity as int, 0, self@.pos) > 0 ==> (next matches ReadStep::Open(
                request,
            ) && request.path@ == self@.path && request.offset == self@.pos && request.length
                == room(capacity as int, 0, self@.pos)),
    {
        proof {
            use_type_invariant(self);
        }
        if capacity as u64 > 0x7fff_ffff_ffff_ffff {
            return ReadStep::Done(Err(HdfsError::invalid_input("buffer too big")));
        }
        let space: i64 = capacity as i64;
        let headroom: i64 = i64::MAX - self.pos;
        let length: i64 = if space <= headroom {
            space
        } else {
            headroom
        };
        if length == 0 {
            ReadStep::Done(Ok(0))
        } else {
            ReadStep::Open(RangeRequest { path: self.path.clone(), offset: self.pos, length })
        }
    }

    /// Takes one chunk of the answer into the destination.
    ///
    /// `filled` is the number of bytes of `buf` that the call has written so
    /// far. The chunk is copied behind them as far as it fits, and the
    /// position advances by the number of bytes copied.
    pub fn take_chunk(&mut self, buf: &mut [u8], filled: usize, chunk: &[u8]) -> (next: ReadStep)
        ensures
            old(self)@.valid(),
            final(self)@.valid(),
            ({
                let after = (Progress {
                    buf: old(buf)@,
                    filled: filled as int,
                    pos: old(self)@.pos,
                }).absorb(chunk@);
                &&& final(buf)@ == after.buf
                &&& final(self)@ == (ReadView { pos: after.pos, ..old(self)@ })
                &&& next == after.next()
            }),
    {
        proof {
            use_type_invariant(&*self);
        }
        let capacity: usize = buf.len();
        let space: usize = if filled < capacity {
            capacity - filled
        } else {
            0
        };
        let headroom: i64 = i64::MAX - self.pos;
        let mut k: usize = if chunk.len() <= space {
            chunk.len()
        } else {
            space
        };
        if k as u64 > headroom as u64 {
            k = headroom as usize;
        }
        let ghost before = Progress { buf: buf@, filled: filled as int, pos: self.pos as int };
        assert(k == before.taken(chunk@.len() as int));
        let mut i: usize = 0;
        while i < k
            invariant
                i <= k,
                k <= chunk@.len(),
                k > 0 ==> filled + k <= capacity,
                capacity == before.buf.len(),
                buf@.len() == capacity,
                k > 0 ==> buf@ == before.buf.subrange(0, filled as int) + chunk@.subrange(
                    0,
                    i as int,
                ) + before.buf.subrange(filled + i, capacity as int),
                k == 0 ==> buf@ == before.buf,
            decreases k - i,
        {
            buf[filled + i] = chunk[i];
            i = i + 1;
        }
        self.pos = self.pos + k as i64;
        let now: usize = filled + k;
        if now >= capacity || self.pos == i64::MAX {
            ReadStep::Done(Ok(now))
        } else {
            ReadStep::Pull { filled: now }
        }
    }

    /// Takes one pull of the answer into the destination.
    ///
    /// `filled` is the number of bytes of `buf` that the call has written so
    /// far. A chunk is taken as `take_chunk` takes it. The end of the answer
    /// ends the call with the bytes written so far. A failure ends it with
    /// that failure; what was copied before stays in `buf` and in the
    /// position.
    pub fn read_step(
        &mut self,
        buf: &mut [u8],
        filled: usize,
        pulled: Result<Option<Vec<u8>>, HdfsError>,
    ) -> (next: ReadStep)
        ensures
            old(self)@.valid(),
            final(self)@.valid(),
            match pulled {
                Ok(Some(chunk)) => {
                    let after = (Progress {
                        buf: old(buf)@,
                        filled: filled as int,
                        pos: old(self)@.pos,
                    }).absorb(chunk@);
                    &&& final(buf)@ == after.buf
                    &&& final(self)@ == (ReadView { pos: after.pos, ..old(self)@ })
                    &&& next == after.next()
                },
                Ok(None) => {
                    &&& final(buf)@ == old(buf)@
                    &&& final(self)@ == old(self)@
                    &&& next == ReadStep::Done(Ok(filled))
                },
                Err(failure) => {
                    &&& final(buf)@ == old(buf)@
                    &&& final(self)@ == old(self)@
                    &&& next == ReadStep::Done(Err(failure))
                },
            },
    {
        proof {
            use_type_invariant(&*self);
        }
        match pulled {
            Ok(Some(chunk)) => self.take_chunk(buf, filled, chunk.as_slice()),
            Ok(None) => ReadStep::Done(Ok(filled)),
            Err(failure) => ReadStep::Done(Err(failure)),
        }
    }
}

} // verus!
