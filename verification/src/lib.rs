//! Blocking, seekable byte streams over a WebHDFS cluster, written without I/O.
//!
//! The types here hold the state of a remote file handle and decide what each
//! `read`, `write` and `seek` does: which request goes out next, how an answer
//! changes the handle, and what the caller gets back. Sending the requests and
//! waiting for the answers is left to the code that owns the network client
//! and its scheduler.

pub mod deadline;
pub mod error;
pub mod read;
pub mod seek;
pub mod transfer;
pub mod write;

pub use crate::deadline::settle;
pub use crate::error::{ErrorKind, HdfsError, IoKind};
pub use crate::read::{RangeRequest, ReadHdfsFile, ReadStep};
pub use crate::seek::SeekFrom;
pub use crate::write::{AppendRequest, CreateRequest, WriteHdfsFile};
