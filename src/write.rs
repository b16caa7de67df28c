//! The write protocol: a value goes to a temporary file, is flushed and synced,
//! and the temporary file is then renamed over the key's file. A session
//! decides each step; the caller performs it and reports how it went.

use vstd::prelude::*;
use crate::error::Error;
use crate::key::{check_key, key_file_name, temp_file_name, utf8_valid_up_to, valid_utf8};
use crate::store::{joined, FolderBackedLuxo};

verus! {

/// The step a write performs next.
#[derive(Debug, Clone, Copy, PartialEq, Eq, Structural)]
pub enum WriteStep {
    /// Create, or truncate, the temporary file.
    CreateTemp,
    /// Copy the whole value into the temporary file, counting the bytes.
    CopyValue,
    /// Flush the buffers of the temporary file.
    Flush,
    /// Force the temporary file's contents to stable storage, then close it.
    Sync,
    /// Rename the temporary file to the key's file.
    Rename,
    /// The write is done.
    Finished,
    /// A step failed; the write is over.
    Aborted,
}

/// The step after `step` when `step` succeeds.
pub open spec fn step_after(step: WriteStep) -> WriteStep {
    match step {
        WriteStep::CreateTemp => WriteStep::CopyValue,
        WriteStep::CopyValue => WriteStep::Flush,
        WriteStep::Flush => WriteStep::Sync,
        WriteStep::Sync => WriteStep::Rename,
        WriteStep::Rename => WriteStep::Finished,
        other => other,
    }
}

/// Whether a write in `step` has no more steps.
pub open spec fn is_over(step: WriteStep) -> bool {
    step == WriteStep::Finished || step == WriteStep::Aborted
}

/// The state of a write session.
pub struct WriteState {
    /// Path of the temporary file.
    pub temp: Seq<u8>,
    /// Path of the key's file.
    pub target: Seq<u8>,
    /// The step to perform next.
    pub step: WriteStep,
    /// Bytes copied into the temporary file.
    pub copied: u64,
}

/// The state of a write of the key `key` in the store rooted at `root`, before any step.
pub open spec fn initial_state(root: Seq<u8>, key: Seq<u8>) -> WriteState {
    WriteState {
        temp: joined(root, temp_file_name(key)),
        target: joined(root, key_file_name(key)),
        step: WriteStep::CreateTemp,
        copied: 0,
    }
}

/// The state after the step of `s` succeeded (`ok`, having copied `n` bytes
/// where it copied) or failed.
pub open spec fn advance(s: WriteState, ok: bool, n: u64) -> WriteState {
    if !ok {
        WriteState { step: WriteStep::Aborted, ..s }
    } else if s.step == WriteStep::CopyValue {
        WriteState { step: step_after(s.step), copied: n, ..s }
    } else {
        WriteState { step: step_after(s.step), ..s }
    }
}

/// A write of one key in progress.
pub struct WriteSession {
    temp: Vec<u8>,
    target: Vec<u8>,
    step: WriteStep,
    copied: u64,
}

impl View for WriteSession {
    type V = WriteState;

    closed spec fn view(&self) -> WriteState {
        WriteState { temp: self.temp@, target: self.target@, step: self.step, copied: self.copied }
    }
}

impl WriteSession {
    /// The step to perform next.
    pub fn step(&self) -> (r: WriteStep)
        ensures
            r == self@.step,
    {
        self.step
    }

    /// The path of the temporary file.
    pub fn temp_path(&self) -> (r: &[u8])
        ensures
            r@ == self@.temp,
    {
        self.temp.as_slice()
    }

    /// The path of the key's file.
    pub fn target_path(&self) -> (r: &[u8])
        ensures
            r@ == self@.target,
    {
        self.target.as_slice()
    }

    /// Records how the current step went: `Ok(n)` when it succeeded (`n` is
    /// the count of bytes copied, where the step copies), or the error that
    /// stopped it. Returns the result of the write once it is over: the bytes
    /// copied when the rename succeeded, the error of the step that failed.
    pub fn complete(&mut self, outcome: Result<u64, std::io::Error>) -> (r: Option<
        Result<u64, Error>,
    >)
        requires
            !is_over(old(self)@.step),
        ensures
            final(self)@ == advance(old(self)@, outcome is Ok, match outcome {
                Ok(n) => n,
                Err(_) => 0,
            }),
            r is Some <==> is_over(final(self)@.step),
            final(self)@.step == WriteStep::Finished ==> r == Some(
                Ok::<u64, Error>(final(self)@.copied),
            ),
            outcome matches Err(e) ==> r == Some(Err::<u64, Error>(Error::Io(e))),
    {
        match outcome {
            Err(e) => {
                self.step = WriteStep::Aborted;
                Some(Err(Error::Io(e)))
            },
            Ok(n) => {
                let next = match self.step {
                    WriteStep::CreateTemp => WriteStep::CopyValue,
                    WriteStep::CopyValue => {
                        self.copied = n;
                        WriteStep::Flush
                    },
                    WriteStep::Flush => WriteStep::Sync,
                    WriteStep::Sync => WriteStep::Rename,
                    WriteStep::Rename => WriteStep::Finished,
                    other => other,
                };
                self.step = next;
                if next == WriteStep::Finished {
                    Some(Ok(self.copied))
                } else {
                    None
                }
            },
        }
    }
}

impl FolderBackedLuxo {
    /// Starts a write of `key`: the session holds the temporary file's path
    /// `<root>/<key>.key.tmp` and the key's file's path `<root>/<key>.key`.
    ///
    /// Fails, before any step, when `key` is not valid UTF-8.
    pub fn begin_write(&self, key: &[u8]) -> (r: Result<WriteSession, Error>)
        requires
            self@.len() + key@.len() + 9 <= usize::MAX,
        ensures
            r is Ok <==> valid_utf8(key@),
            r matches Ok(s) ==> s@ == initial_state(self@, key@),
            r matches Err(e) ==> e == Error::Utf8Error(
                crate::key::KeyEncodingError { valid_up_to: utf8_valid_up_to(key@) as usize },
            ),
    {
        match check_key(key) {
            Ok(()) => {
                let temp = self.path_of(key, true);
                let target = self.path_of(key, false);
                Ok(WriteSession { temp, target, step: WriteStep::CreateTemp, copied: 0 })
            },
            Err(e) => Err(Error::Utf8Error(e)),
        }
    }
}

} // verus!
