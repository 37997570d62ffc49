//! Where a seek lands.
//!
//! A seek names a reference point and a signed offset. Landing inside the file
//! moves the position there. Landing past the end is accepted and changes
//! nothing: the position stays where it was before the seek, whatever the
//! reference point. Landing before the start, or beyond what a signed 64-bit
//! position can hold, is refused.

use crate::error::{ErrorKind, HdfsError};
use vstd::prelude::*;

verus! {

/// The reference point of a seek, with the offset from it.
#[derive(Clone, Copy, Debug, PartialEq, Eq, Structural)]
pub enum SeekFrom {
    /// From the start of the file.
    Start(u64),
    /// From the length that the handle recorded when it was opened.
    End(i64),
    /// From the current position.
    Current(i64),
}

impl SeekFrom {
    /// The position that the offset is counted from.
    pub open spec fn base(self, pos: int, len: int) -> int {
        match self {
            SeekFrom::Start(_) => 0,
            SeekFrom::End(_) => len,
            SeekFrom::Current(_) => pos,
        }
    }

    /// The offset as a number.
    pub open spec fn offset(self) -> int {
        match self {
            SeekFrom::Start(o) => o as int,
            SeekFrom::End(o) => o as int,
            SeekFrom::Current(o) => o as int,
        }
    }

    /// The position that the seek names, before any bound is applied.
    pub open spec fn candidate(self, pos: int, len: int) -> int {
        self.base(pos, len) + self.offset()
    }
}

/// The position after a seek from `pos` in a file of `len` bytes, or `None`
/// where the seek is refused.
pub open spec fn seek_target(from: SeekFrom, pos: int, len: int) -> Option<int> {
    let candidate = from.candidate(pos, len);
    if from.offset() == 0 {
        Some(from.base(pos, len))
    } else if candidate < 0 || candidate > i64::MAX {
        None
    } else if candidate <= len {
        Some(candidate)
    } else {
        Some(pos)
    }
}

/// What a seek returns: the new position, or the kind of failure of a refused
/// seek.
pub open spec fn seek_outcome(from: SeekFrom, pos: int, len: int) -> Result<int, ErrorKind> {
    match seek_target(from, pos, len) {
        Some(p) => Ok(p),
        None => Err(ErrorKind::InvalidInput),
    }
}

/// The position that a handle is left at by a seek, refused or not.
pub open spec fn position_after(from: SeekFrom, pos: int, len: int) -> int {
    match seek_target(from, pos, len) {
        Some(p) => p,
        None => pos,
    }
}

/// The message of a refused seek.
pub open spec fn refusal_message(from: SeekFrom) -> Seq<char> {
    match from {
        SeekFrom::Start(_) => "offset too big"@,
        _ => "attempt to seek before start"@,
    }
}

fn refuse_before_start() -> (e: HdfsError)
    ensures
        e.is(ErrorKind::InvalidInput, "attempt to seek before start"@),
{
    HdfsError::invalid_input("attempt to seek before start")
}

/// Moves `offset` away from `base`, with the bounds of a seek applied.
fn shifted(base: i64, offset: i64, pos: i64, len: i64) -> (r: Result<i64, HdfsError>)
    ensures
        base + offset < 0 || base + offset > i64::MAX ==> (r matches Err(e) && e.is(
            ErrorKind::InvalidInput,
            "attempt to seek before start"@,
        )),
        0 <= base + offset <= len ==> r == Ok::<i64, HdfsError>((base + offset) as i64),
        len < base + offset <= i64::MAX && 0 <= base + offset ==> r == Ok::<i64, HdfsError>(pos),
{
    match base.checked_add(offset) {
        None => Err(refuse_before_start()),
        Some(candidate) => {
            if candidate < 0 {
                Err(refuse_before_start())
            } else if candidate <= len {
                Ok(candidate)
            } else {
                Ok(pos)
            }
        },
    }
}

/// Computes where a seek from `pos` lands in a file of `len` bytes.
///
/// Nothing is read or sent: the answer depends on the three arguments alone.
pub fn resolve(from: SeekFrom, pos: i64, len: i64) -> (r: Result<i64, HdfsError>)
    ensures
        match seek_target(from, pos as int, len as int) {
            Some(p) => r == Ok::<i64, HdfsError>(p as i64),
            None => (r matches Err(e) && e.is(ErrorKind::InvalidInput, refusal_message(from))),
        },
{
    match from {
        SeekFrom::Current(o) => {
            if o == 0 {
                Ok(pos)
            } else {
                shifted(pos, o, pos, len)
            }
        },
        SeekFrom::Start(o) => {
            if o == 0 {
                Ok(0)
            } else if o > 0x7fff_ffff_ffff_ffff {
                Err(HdfsError::invalid_input("offset too big"))
            } else {
                shifted(0, o as i64, pos, len)
            }
        },
        SeekFrom::End(o) => {
            if o == 0 {
                Ok(len)
            } else {
                shifted(len, o, pos, len)
            }
        },
    }
}

/// A seek that lands inside the file moves the position exactly there.
pub proof fn lemma_seek_inside_moves(from: SeekFrom, pos: i64, len: i64)
    requires
        0 <= pos,
        0 <= len,
        0 <= from.candidate(pos as int, len as int) <= len,
    ensures
        seek_outcome(from, pos as int, len as int) == Ok::<int, ErrorKind>(
            from.candidate(pos as int, len as int),
        ),
        position_after(from, pos as int, len as int) == from.candidate(pos as int, len as int),
{
}

/// A seek that lands past the end leaves the position where it was. Unless the
/// landing point is beyond the signed 64-bit range, the seek also succeeds.
pub proof fn lemma_seek_past_end_stays(from: SeekFrom, pos: i64, len: i64)
    requires
        0 <= pos,
        0 <= len,
        from.candidate(pos as int, len as int) > len,
    ensures
        position_after(from, pos as int, len as int) == pos,
        from.candidate(pos as int, len as int) <= i64::MAX ==> seek_outcome(
            from,
            pos as int,
            len as int,
        ) == Ok::<int, ErrorKind>(pos as int),
{
}

/// A seek that lands before the start, or beyond the signed 64-bit range, is
/// refused and leaves the position where it was.
pub proof fn lemma_seek_out_of_range_refused(from: SeekFrom, pos: i64, len: i64)
    requires
        0 <= pos,
        0 <= len,
        from.candidate(pos as int, len as int) < 0 || from.candidate(pos as int, len as int)
            > i64::MAX,
    ensures
        seek_outcome(from, pos as int, len as int) == Err::<int, ErrorKind>(
            ErrorKind::InvalidInput,
        ),
        position_after(from, pos as int, len as int) == pos,
{
}

/// Seeking by nothing from the current position changes nothing.
pub proof fn lemma_seek_current_zero_stays(pos: i64, len: i64)
    ensures
        seek_outcome(SeekFrom::Current(0), pos as int, len as int) == Ok::<int, ErrorKind>(
            pos as int,
        ),
        position_after(SeekFrom::Current(0), pos as int, len as int) == pos,
{
}

/// A seek never leaves a handle before the start.
pub proof fn lemma_seek_keeps_position_valid(from: SeekFrom, pos: i64, len: i64)
    requires
        0 <= pos,
        0 <= len,
    ensures
        0 <= position_after(from, pos as int, len as int) <= i64::MAX,
{
}

} // verus!
