//! A remote file opened for writing.
//!
//! Nothing is buffered. Each write is one append request that carries the
//! whole of the caller's bytes, and it is over when the cluster has answered:
//! either all of the bytes were appended or the write failed. The handle keeps
//! no length and no position; the end of the remote file is where the next
//! append goes.

use crate::error::HdfsError;
use vstd::prelude::*;
use vstd::slice::slice_to_vec;

verus! {

/// A handle on a remote file for writing, built on a harness of type `C`.
pub struct WriteHdfsFile<C> {
    cx: C,
    path: String,
}

/// The request that creates a remote file, with the options `O` of the caller.
pub struct CreateRequest<O> {
    /// The path of the file to create.
    pub path: String,
    /// The first content of the file: always empty.
    pub body: Vec<u8>,
    /// The caller's options, handed on as they came.
    pub options: O,
}

/// The request that appends bytes to a remote file.
pub struct AppendRequest {
    /// The path of the file.
    pub path: String,
    /// The bytes to append.
    pub body: Vec<u8>,
}

/// What a write reports once its append request is answered: all of the bytes
/// where the append succeeded, and the failure where it did not.
pub open spec fn write_outcome(body: Seq<u8>, appended: Result<(), HdfsError>) -> Result<
    usize,
    HdfsError,
> {
    match appended {
        Ok(_) => Ok(body.len() as usize),
        Err(failure) => Err(failure),
    }
}

/// What a write handle stands for in contracts.
pub struct WriteView<C> {
    /// The harness that the handle was made with.
    pub cx: C,
    /// The path of the remote file.
    pub path: Seq<char>,
}

impl<C> View for WriteHdfsFile<C> {
    type V = WriteView<C>;

    closed spec fn view(&self) -> WriteView<C> {
        WriteView { cx: self.cx, path: self.path@ }
    }
}

impl<C> WriteHdfsFile<C> {
    /// The request that has to succeed before `create` hands out a handle: it
    /// creates the file at `path` with no content.
    pub fn create_request<O>(path: &str, options: O) -> (request: CreateRequest<O>)
        ensures
            request.path@ == path@,
            request.body@ == Seq::<u8>::empty(),
            request.options == options,
    {
        CreateRequest { path: path.to_owned(), body: Vec::new(), options }
    }

    /// Makes a handle on a file that was just created, given the answer to
    /// the create request. Where the request failed there is no handle, and
    /// the failure is handed on unchanged.
    pub fn create(cx: C, path: String, created: Result<(), HdfsError>) -> (r: Result<
        Self,
        HdfsError,
    >)
        ensures
            match created {
                Ok(_) => r matches Ok(file) && file@ == (WriteView { cx, path: path@ }),
                Err(failure) => r matches Err(e) && e == failure,
            },
    {
        match created {
            Ok(_) => Ok(WriteHdfsFile { cx, path }),
            Err(failure) => Err(failure),
        }
    }

    /// Makes a handle on a file that is taken to exist. No request is made, so
    /// this cannot fail.
    pub fn append(cx: C, path: String) -> (r: Result<Self, HdfsError>)
        ensures
            r matches Ok(file) && file@ == (WriteView { cx, path: path@ }),
    {
        Ok(WriteHdfsFile { cx, path })
    }

    /// The harness that the handle was made with.
    pub fn harness(&self) -> (cx: &C)
        ensures
            *cx == self@.cx,
    {
        &self.cx
    }

    /// The path of the remote file.
    pub fn path(&self) -> (p: &str)
        ensures
            p@ == self@.path,
    {
        self.path.as_str()
    }

    /// Takes the handle apart into the harness and the path.
    pub fn into_parts(self) -> (parts: (C, String))
        ensures
            parts.0 == self@.cx,
            parts.1@ == self@.path,
    {
        (self.cx, self.path)
    }

    /// Starts a write: the one append request that carries a copy of all of
    /// `buf` to the file of this handle.
    pub fn begin_write(&self, buf: &[u8]) -> (request: AppendRequest)
        ensures
            request.path@ == self@.path,
            request.body@ == buf@,
    {
        AppendRequest { path: self.path.clone(), body: slice_to_vec(buf) }
    }

    /// Ends the write of `buf`, given the answer to its append request. A
    /// write whose append succeeded reports every byte of `buf` as written:
    /// there are no partial writes. The handle is as it was, ready for the
    /// next write.
    pub fn finish_write(&mut self, buf: &[u8], appended: Result<(), HdfsError>) -> (r: Result<
        usize,
        HdfsError,
    >)
        ensures
            *final(self) == *old(self),
            r == write_outcome(buf@, appended),
    {
        match appended {
            Ok(_) => Ok(buf.len()),
            Err(failure) => Err(failure),
        }
    }

    /// Nothing is ever held back, so there is nothing to flush.
    pub fn flush(&mut self) -> (r: Result<(), HdfsError>)
        ensures
            *final(self) == *old(self),
            r == Ok::<(), HdfsError>(()),
    {
        Ok(())
    }
}

/// A write of `k` bytes whose append succeeds reports `k` bytes, whatever the
/// bytes are.
pub proof fn lemma_write_reports_every_byte(buf: Seq<u8>)
    requires
        buf.len() <= usize::MAX,
    ensures
        write_outcome(buf, Ok(())) == Ok::<usize, HdfsError>(buf.len() as usize),
        write_outcome(buf, Ok(())).unwrap() == buf.len(),
{
}

} // verus!
