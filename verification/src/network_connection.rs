//! A stream to a client, with the identifier of the connection.
use crate::io_error::IoError;
use crate::server::server_error::{ServerError, ServerErrorKind, ServerResult};
use crate::traits::{Close, Interrupt, TryClone, WriteBytes};
use vstd::prelude::*;

verus! {

/// Start of the message of the error raised when a stream cannot be cloned.
pub const MSG_CLONE_FAILED: &'static str = "Error clonando stream de network_connection: ";

/// Identifier of a connection to a client.
pub type ConnectionId = u64;

/// The stream of a connection and the identifier of the connection.
#[derive(Debug)]
pub struct NetworkConnection<S, I> {
    id: I,
    stream: S,
}

impl<S, I> NetworkConnection<S, I> {
    /// The identifier of the connection.
    pub closed spec fn spec_id(&self) -> I {
        self.id
    }

    /// The stream.
    pub closed spec fn spec_stream(&self) -> S {
        self.stream
    }

    /// A connection with the given identifier and stream.
    pub fn new(id: I, stream: S) -> (c: Self)
        ensures
            c.spec_id() == id,
            c.spec_stream() == stream,
    {
        Self { id, stream }
    }

    /// The stream.
    pub fn stream(&self) -> (s: &S)
        ensures
            *s == self.spec_stream(),
    {
        &self.stream
    }

    /// The stream, to change it.
    pub fn stream_mut(&mut self) -> (s: &mut S)
        ensures
            *s == old(self).spec_stream(),
            final(self).spec_id() == old(self).spec_id(),
            final(self).spec_stream() == *final(s),
    {
        &mut self.stream
    }

    /// The identifier of the connection.
    pub fn id(&self) -> (i: &I)
        ensures
            *i == self.spec_id(),
    {
        &self.id
    }

    /// Closes the stream.
    pub fn close(&mut self) -> (r: Result<(), IoError>)
        where
            S: Close,
        ensures
            final(self).spec_id() == old(self).spec_id(),
            r is Ok ==> final(self).spec_stream().closed(),
            old(self).spec_stream().close_succeeds() ==> r is Ok,
    {
        self.stream.close()
    }

    /// Writes all of `bytes` to the stream.
    pub fn write_all(&mut self, bytes: &[u8]) -> (r: Result<(), IoError>)
        where
            S: WriteBytes,
        ensures
            final(self).spec_id() == old(self).spec_id(),
            r is Ok ==> final(self).spec_stream().wrote_after(&old(self).spec_stream(), bytes@),
            old(self).spec_stream().write_succeeds() ==> r is Ok,
            old(self).spec_stream().write_fails() ==> r is Err,
    {
        self.stream.write_all(bytes)
    }

    /// Makes reads of the stream wait at most `when_millis` milliseconds.
    pub fn alert(&mut self, when_millis: u64) -> (r: Result<(), IoError>)
        where
            S: Interrupt,
        ensures
            final(self).spec_id() == old(self).spec_id(),
            r is Ok ==> final(self).spec_stream().reads_wait(Some(when_millis)) && final(self).spec_stream().same_stream_as(
                &old(self).spec_stream(),
            ),
            old(self).spec_stream().wait_succeeds() ==> r is Ok,
    {
        self.stream.alert(when_millis)
    }

    /// Makes reads of the stream wait without limit.
    pub fn sleep(&mut self) -> (r: Result<(), IoError>)
        where
            S: Interrupt,
        ensures
            final(self).spec_id() == old(self).spec_id(),
            r is Ok ==> final(self).spec_stream().reads_wait(None) && final(self).spec_stream().same_stream_as(
                &old(self).spec_stream(),
            ),
            old(self).spec_stream().wait_succeeds() ==> r is Ok,
    {
        self.stream.sleep()
    }

    /// A second connection with the same identifier and a clone of the
    /// stream. Fails with kind [`ServerErrorKind::Irrecoverable`] when the
    /// stream cannot be cloned.
    pub fn try_clone(&self) -> (r: ServerResult<Self>)
        where
            I: Copy,
            S: TryClone,
        ensures
            r matches Ok(c) ==> c.spec_id() == self.spec_id(),
            r matches Err(e) ==> e.spec_kind() == ServerErrorKind::Irrecoverable,
    {
        match self.stream.try_clone() {
            Ok(stream) => Ok(NetworkConnection { id: self.id, stream }),
            Err(e) => Err(ServerError::new_kind_with(MSG_CLONE_FAILED, e.msg(), ServerErrorKind::Irrecoverable)),
        }
    }
}

} // verus!
