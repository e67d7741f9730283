//! Sessions on the pseudo-terminals of the operating system.

use crate::pty::{PtyExitStatus, PtySize, PtySnapshot};
use vstd::prelude::*;
use vstd::slice::slice_to_vec;

verus! {

/// A backend on the pseudo-terminals of the operating system.
#[derive(Debug, Clone, Copy)]
pub struct PortablePtyBackend;

impl PortablePtyBackend {
    /// The backend.
    pub fn new() -> (backend: Self)
        ensures
            backend == PortablePtyBackend,
    {
        PortablePtyBackend
    }
}

impl Default for PortablePtyBackend {
    fn default() -> (backend: Self)
        ensures
            backend == PortablePtyBackend,
    {
        PortablePtyBackend::new()
    }
}

/// How a process ended, given its exit code and the signal that ended it, if one did.
pub fn exit_status(exit_code: u32, signal: Option<&str>) -> (status: PtyExitStatus)
    ensures
        match signal {
            Some(name) => status.exit_code == 1 && (status.signal matches Some(s) && s@ == name@),
            None => status.exit_code == exit_code && status.signal is None,
        },
{
    match signal {
        Some(name) => PtyExitStatus::signaled(name),
        None => PtyExitStatus::exited(exit_code),
    }
}

/// What a session remembers of its terminal: its size and everything that was read from it.
pub struct PortableHistory {
    size: PtySize,
    history: Vec<u8>,
}

impl PortableHistory {
    /// The size of the terminal.
    pub closed spec fn current_size(&self) -> PtySize {
        self.size
    }

    /// Everything that was read.
    pub closed spec fn output(&self) -> Seq<u8> {
        self.history@
    }

    /// A terminal of which nothing was read yet.
    pub fn new(size: PtySize) -> (history: Self)
        ensures
            history.current_size() == size,
            history.output() == Seq::<u8>::empty(),
    {
        PortableHistory { size, history: Vec::new() }
    }

    /// Bytes were read: the first `read` of a buffer.
    pub fn record(&mut self, buffer: &[u8], read: usize)
        requires
            read <= buffer@.len(),
        ensures
            final(self).current_size() == old(self).current_size(),
            final(self).output() == old(self).output() + buffer@.take(read as int),
    {
        let mut part = slice_to_vec(vstd::slice::slice_subrange(buffer, 0, read));
        assert(part@ =~= buffer@.take(read as int));
        self.history.append(&mut part);
    }

    /// The terminal has another size.
    pub fn set_size(&mut self, size: PtySize)
        ensures
            final(self).current_size() == size,
            final(self).output() == old(self).output(),
    {
        self.size = size;
    }

    /// The state of the terminal.
    pub fn snapshot(&self, process_id: Option<u32>) -> (snapshot: PtySnapshot)
        ensures
            snapshot.size == self.current_size(),
            snapshot.process_id == process_id,
            snapshot.retained_output@ == self.output(),
    {
        PtySnapshot {
            size: self.size,
            process_id,
            retained_output: slice_to_vec(self.history.as_slice()),
        }
    }
}

} // verus!
