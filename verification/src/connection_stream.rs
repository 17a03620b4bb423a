//! A stream with the identifier of its connection.
use crate::io_error::IoError;
use crate::traits::{Close, Interrupt, WriteBytes};
use vstd::prelude::*;

verus! {

/// A stream and the identifier of its connection.
pub struct ConnectionStream<S, I> {
    id: I,
    stream: S,
}

impl<S, I> ConnectionStream<S, I> {
    /// The identifier of the connection.
    pub closed spec fn spec_id(&self) -> I {
        self.id
    }

    /// The stream.
    pub closed spec fn spec_stream(&self) -> S {
        self.stream
    }

    /// A stream with the given connection identifier.
    pub fn new(id: I, stream: S) -> (c: Self)
        ensures
            c.spec_id() == id,
            c.spec_stream() == stream,
    {
        Self { id, stream }
    }

    /// The stream.
    pub fn stream(&self) -> (s: &S)
        ensures
            *s == self.spec_stream(),
    {
        &self.stream
    }

    /// The stream, to change it.
    pub fn stream_mut(&mut self) -> (s: &mut S)
        ensures
            *s == old(self).spec_stream(),
            final(self).spec_id() == old(self).spec_id(),
            final(self).spec_stream() == *final(s),
    {
        &mut self.stream
    }

    /// The identifier of the connection.
    pub fn id(&self) -> (i: I)
        where
            I: Copy,
        ensures
            i == self.spec_id(),
    {
        self.id
    }
}

impl<S: WriteBytes, I> WriteBytes for ConnectionStream<S, I> {
    open spec fn wrote_after(&self, before: &Self, bytes: Seq<u8>) -> bool {
        self.spec_stream().wrote_after(&before.spec_stream(), bytes)
    }

    open spec fn write_succeeds(&self) -> bool {
        self.spec_stream().write_succeeds()
    }

    open spec fn write_fails(&self) -> bool {
        self.spec_stream().write_fails()
    }

    open spec fn flushed_from(&self, before: &Self) -> bool {
        self.spec_stream().flushed_from(&before.spec_stream())
    }

    open spec fn flush_succeeds(&self) -> bool {
        self.spec_stream().flush_succeeds()
    }

    open spec fn flush_fails(&self) -> bool {
        self.spec_stream().flush_fails()
    }

    /// Writes all of `bytes` to the wrapped stream.
    fn write_all(&mut self, bytes: &[u8]) -> (r: Result<(), IoError>)
        ensures
            final(self).spec_id() == old(self).spec_id(),
    {
        self.stream.write_all(bytes)
    }

    /// Flushes the wrapped stream.
    fn flush(&mut self) -> (r: Result<(), IoError>)
        ensures
            final(self).spec_id() == old(self).spec_id(),
    {
        self.stream.flush()
    }
}

impl<S: Close, I> Close for ConnectionStream<S, I> {
    open spec fn closed(&self) -> bool {
        self.spec_stream().closed()
    }

    open spec fn close_succeeds(&self) -> bool {
        self.spec_stream().close_succeeds()
    }

    /// Closes the wrapped stream.
    fn close(&mut self) -> (r: Result<(), IoError>)
        ensures
            final(self).spec_id() == old(self).spec_id(),
    {
        self.stream.close()
    }
}

impl<S: Interrupt, I> Interrupt for ConnectionStream<S, I> {
    open spec fn reads_wait(&self, limit: Option<u64>) -> bool {
        self.spec_stream().reads_wait(limit)
    }

    open spec fn wait_succeeds(&self) -> bool {
        self.spec_stream().wait_succeeds()
    }

    open spec fn same_stream_as(&self, before: &Self) -> bool {
        self.spec_stream().same_stream_as(&before.spec_stream())
    }

    /// Makes reads of the wrapped stream wait at most `when_millis`
    /// milliseconds.
    fn alert(&mut self, when_millis: u64) -> (r: Result<(), IoError>)
        ensures
            final(self).spec_id() == old(self).spec_id(),
    {
        self.stream.alert(when_millis)
    }

    /// Makes reads of the wrapped stream wait without limit.
    fn sleep(&mut self) -> (r: Result<(), IoError>)
        ensures
            final(self).spec_id() == old(self).spec_id(),
    {
        self.stream.sleep()
    }
}

} // verus!
