//! The bound on the size of the log file.

use vstd::prelude::*;

verus! {

/// The size that the log file is kept within.
pub const LOG_FILE_MAX_BYTES: u64 = 1_048_576;

/// How much the log file holds.
#[derive(Clone, Copy, Debug, PartialEq, Eq, Structural)]
pub struct BoundedLog {
    pub bytes_written: u64,
}

impl BoundedLog {
    /// The log of a file of the given size, which is emptied first where it is too large.
    pub open spec fn opened(len: u64) -> BoundedLog {
        BoundedLog {
            bytes_written: if len > LOG_FILE_MAX_BYTES {
                0
            } else {
                len
            },
        }
    }

    /// So many more bytes do not fit.
    pub open spec fn overflows(self, next_len: usize) -> bool {
        self.bytes_written + next_len > LOG_FILE_MAX_BYTES
    }

    /// The log of the emptied file.
    pub open spec fn emptied(self) -> BoundedLog {
        BoundedLog { bytes_written: 0 }
    }

    /// The log after so many bytes were written.
    pub open spec fn grown(self, written: usize) -> BoundedLog {
        BoundedLog {
            bytes_written: if self.bytes_written + written <= u64::MAX {
                (self.bytes_written + written) as u64
            } else {
                u64::MAX
            },
        }
    }

    /// The log after a line of `len` bytes, of which `written` were written. The file is emptied
    /// before where the line does not fit.
    pub open spec fn after_line(self, len: usize, written: usize) -> BoundedLog {
        if self.overflows(len) {
            self.emptied().grown(written)
        } else {
            self.grown(written)
        }
    }

    /// Opens a log file of the given size. The file has to be emptied where the flag says so.
    pub fn open(len: u64) -> (res: (BoundedLog, bool))
        ensures
            res.0 == BoundedLog::opened(len),
            res.1 == (len > LOG_FILE_MAX_BYTES),
    {
        if len > LOG_FILE_MAX_BYTES {
            (BoundedLog { bytes_written: 0 }, true)
        } else {
            (BoundedLog { bytes_written: len }, false)
        }
    }

    /// Whether the file has to be emptied before so many bytes are written.
    pub fn must_reset(&self, next_len: usize) -> (res: bool)
        ensures
            res == self.overflows(next_len),
    {
        match self.bytes_written.checked_add(next_len as u64) {
            Some(total) => total > LOG_FILE_MAX_BYTES,
            None => true,
        }
    }

    /// Records that the file was emptied.
    pub fn reset(&mut self)
        ensures
            *final(self) == old(self).emptied(),
    {
        self.bytes_written = 0;
    }

    /// Records that so many bytes were written.
    pub fn wrote(&mut self, written: usize)
        ensures
            *final(self) == old(self).grown(written),
    {
        self.bytes_written = match self.bytes_written.checked_add(written as u64) {
            Some(total) => total,
            None => u64::MAX,
        };
    }
}

/// The file stays within its bound: it is within it once it was opened, and each line that is not
/// larger than the bound itself leaves it there, whether it was written whole or in part.
pub proof fn law_log_is_bounded(size: u64, log: BoundedLog, len: usize, written: usize)
    requires
        log.bytes_written <= LOG_FILE_MAX_BYTES,
        written <= len <= LOG_FILE_MAX_BYTES,
    ensures
        BoundedLog::opened(size).bytes_written <= LOG_FILE_MAX_BYTES,
        log.after_line(len, written).bytes_written <= LOG_FILE_MAX_BYTES,
{
}

} // verus!
