//! An in-memory stream, for exercising the broker without a network.
use crate::io_error::{IoError, IoErrorKind};
use crate::traits::{Close, Interrupt, TryClone, WriteBytes};
use vstd::prelude::*;

verus! {

/// Message of the errors of a closed stream.
pub const MSG_CLOSED: &'static str = "stream closed";

/// A stream held in memory: what is written is appended to `buf`, what is
/// read is taken from its front; `read_timeout` records how long reads
/// would wait.
#[derive(Debug)]
pub struct IOMock {
    pub closed: bool,
    pub buf: Vec<u8>,
    pub read_timeout: Option<u64>,
}

impl IOMock {
    /// An open, empty stream.
    pub fn new() -> (m: IOMock)
        ensures
            !m.closed,
            m.buf@ == Seq::<u8>::empty(),
            m.read_timeout is None,
    {
        Self { closed: false, buf: Vec::new(), read_timeout: None }
    }

    /// Takes up to `max` bytes from the front of the stream.
    pub fn read(&mut self, max: usize) -> (v: Vec<u8>)
        ensures
            v@ == old(self).buf@.take(if max < old(self).buf@.len() { max as int } else { old(self).buf@.len() as int }),
            final(self).buf@ == old(self).buf@.skip(v@.len() as int),
            final(self).closed == old(self).closed,
            final(self).read_timeout == old(self).read_timeout,
    {
        let n = if max < self.buf.len() {
            max
        } else {
            self.buf.len()
        };
        let mut rest = self.buf.split_off(n);
        std::mem::swap(&mut self.buf, &mut rest);
        rest
    }
}

impl WriteBytes for IOMock {
    open spec fn wrote_after(&self, before: &Self, bytes: Seq<u8>) -> bool {
        self.buf@ == before.buf@ + bytes
    }

    open spec fn write_succeeds(&self) -> bool {
        !self.closed
    }

    open spec fn write_fails(&self) -> bool {
        self.closed
    }

    open spec fn flushed_from(&self, before: &Self) -> bool {
        self.buf@ == before.buf@
    }

    open spec fn flush_succeeds(&self) -> bool {
        true
    }

    open spec fn flush_fails(&self) -> bool {
        false
    }

    /// Appends `bytes`; fails with kind [`IoErrorKind::UnexpectedEof`]
    /// once the stream is closed.
    fn write_all(&mut self, bytes: &[u8]) -> (r: Result<(), IoError>)
        ensures
            !old(self).closed ==> r is Ok && final(self).buf@ == old(self).buf@ + bytes@,
            old(self).closed ==> (r matches Err(e) && e.spec_kind() == IoErrorKind::UnexpectedEof)
                && final(self).buf@ == old(self).buf@,
            final(self).closed == old(self).closed,
            final(self).read_timeout == old(self).read_timeout,
    {
        if !self.closed {
            crate::text::push_bytes(&mut self.buf, bytes);
            Ok(())
        } else {
            Err(IoError::new(IoErrorKind::UnexpectedEof, MSG_CLOSED))
        }
    }

    /// Does nothing: nothing is buffered.
    fn flush(&mut self) -> (r: Result<(), IoError>)
        ensures
            r is Ok,
            *final(self) == *old(self),
    {
        Ok(())
    }
}

impl Close for IOMock {
    open spec fn closed(&self) -> bool {
        self.closed
    }

    open spec fn close_succeeds(&self) -> bool {
        true
    }

    /// Closes the stream.
    fn close(&mut self) -> (r: Result<(), IoError>)
        ensures
            r is Ok,
            final(self).closed,
            final(self).buf@ == old(self).buf@,
            final(self).read_timeout == old(self).read_timeout,
    {
        self.closed = true;
        Ok(())
    }
}

impl TryClone for IOMock {
    /// A second stream with the same state.
    fn try_clone(&self) -> (r: Result<IOMock, IoError>)
        ensures
            r matches Ok(m) && m.closed == self.closed && m.buf@ == self.buf@ && m.read_timeout
                == self.read_timeout,
    {
        Ok(Self { closed: self.closed, buf: self.buf.clone(), read_timeout: self.read_timeout })
    }
}

impl Interrupt for IOMock {
    open spec fn reads_wait(&self, limit: Option<u64>) -> bool {
        self.read_timeout == limit
    }

    open spec fn wait_succeeds(&self) -> bool {
        true
    }

    open spec fn same_stream_as(&self, before: &Self) -> bool {
        self.buf@ == before.buf@ && self.closed == before.closed
    }

    /// Records that reads wait at most `when_millis` milliseconds.
    fn alert(&mut self, when_millis: u64) -> (r: Result<(), IoError>)
        ensures
            r is Ok,
            final(self).closed == old(self).closed,
            final(self).buf@ == old(self).buf@,
            final(self).read_timeout == Some(when_millis),
    {
        self.read_timeout = Some(when_millis);
        Ok(())
    }

    /// Records that reads wait without limit.
    fn sleep(&mut self) -> (r: Result<(), IoError>)
        ensures
            r is Ok,
            final(self).closed == old(self).closed,
            final(self).buf@ == old(self).buf@,
            final(self).read_timeout is None,
    {
        self.read_timeout = None;
        Ok(())
    }
}

} // verus!
