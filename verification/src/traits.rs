//! Capabilities that the broker asks of its streams and of its
//! authentication method, each with the model its contracts speak of.
use crate::io_error::{IoError, IoErrorKind};
use vstd::prelude::*;

verus! {

/// Outcome of checking a user name and a password.
#[derive(Debug, Clone, Copy, PartialEq, Eq, Structural)]
pub enum LoginResult {
    Accepted,
    InvalidPassword,
    UsernameNotFound,
}

/// What an authentication method answered: a result, or the kind and
/// message of an input/output error.
pub open spec fn login_outcome(o: &Result<LoginResult, IoError>) -> Result<LoginResult, (IoErrorKind, Seq<char>)> {
    match o {
        Ok(l) => Ok(*l),
        Err(e) => Err((e.spec_kind(), e.message())),
    }
}

/// An authentication method.
pub trait Login {
    /// Whether the method, in this state, may answer `outcome` when asked
    /// about `user_name` and `password`. The body is a closed default for
    /// implementations that state nothing: it allows any answer.
    closed spec fn answers(&self, user_name: Seq<char>, password: Seq<char>, outcome: Result<LoginResult, (IoErrorKind, Seq<char>)>) -> bool {
        true
    }

    /// Checks `user_name` and `password`.
    fn login(&mut self, user_name: &str, password: &str) -> (r: Result<LoginResult, IoError>)
        ensures
            old(self).answers(user_name@, password@, login_outcome(&r)),
    ;
}

/// A stream that can be closed, after which neither end can use it.
pub trait Close {
    /// Whether the stream is closed. The body is a closed default for
    /// implementations that state nothing: it holds of every stream.
    closed spec fn closed(&self) -> bool {
        true
    }

    /// Whether closing the stream, in this state, succeeds. The body is a
    /// closed default for implementations that state nothing: it promises
    /// nothing.
    closed spec fn close_succeeds(&self) -> bool {
        false
    }

    /// Closes the stream.
    fn close(&mut self) -> (r: Result<(), IoError>)
        ensures
            r is Ok ==> final(self).closed(),
            old(self).close_succeeds() ==> r is Ok,
    ;
}

/// A stream that can be written to and flushed.
pub trait WriteBytes {
    /// Whether this stream holds what the stream `before` held, with
    /// `bytes` written after it. The body is a closed default for
    /// implementations that state nothing: it holds of every pair.
    closed spec fn wrote_after(&self, before: &Self, bytes: Seq<u8>) -> bool {
        true
    }

    /// Whether writing to the stream, in this state, succeeds. The body is
    /// a closed default for implementations that state nothing: it
    /// promises nothing.
    closed spec fn write_succeeds(&self) -> bool {
        false
    }

    /// Whether this stream is the stream `before` flushed: it holds the
    /// same bytes. The body is a closed default for implementations that
    /// state nothing: it holds of every pair.
    closed spec fn flushed_from(&self, before: &Self) -> bool {
        true
    }

    /// Whether writing to the stream, in this state, fails. The body is a
    /// closed default for implementations that state nothing: it promises
    /// nothing.
    closed spec fn write_fails(&self) -> bool {
        false
    }

    /// Whether flushing the stream, in this state, succeeds. The body is a
    /// closed default for implementations that state nothing: it promises
    /// nothing.
    closed spec fn flush_succeeds(&self) -> bool {
        false
    }

    /// Whether flushing the stream, in this state, fails. The body is a
    /// closed default for implementations that state nothing: it promises
    /// nothing.
    closed spec fn flush_fails(&self) -> bool {
        false
    }

    /// Writes all of `bytes`.
    fn write_all(&mut self, bytes: &[u8]) -> (r: Result<(), IoError>)
        ensures
            r is Ok ==> final(self).wrote_after(old(self), bytes@),
            old(self).write_succeeds() ==> r is Ok,
            old(self).write_fails() ==> r is Err,
    ;

    /// Sends on whatever the stream buffered.
    fn flush(&mut self) -> (r: Result<(), IoError>)
        ensures
            r is Ok ==> final(self).flushed_from(old(self)),
            old(self).flush_succeeds() ==> r is Ok,
            old(self).flush_fails() ==> r is Err,
    ;
}

/// A stream whose reads can be made to time out.
pub trait Interrupt {
    /// Whether a read of the stream waits at most `limit` milliseconds,
    /// or without limit when `limit` is none. The body is a closed default
    /// for implementations that state nothing: it holds of every limit.
    closed spec fn reads_wait(&self, limit: Option<u64>) -> bool {
        true
    }

    /// Whether this stream holds what the stream `before` held, how long
    /// reads wait aside. The body is a closed default for implementations
    /// that state nothing: it holds of every pair.
    closed spec fn same_stream_as(&self, before: &Self) -> bool {
        true
    }

    /// Whether setting how long reads wait, in this state, succeeds. The
    /// body is a closed default for implementations that state nothing: it
    /// promises nothing.
    closed spec fn wait_succeeds(&self) -> bool {
        false
    }

    /// Makes reads wait at most `when_millis` milliseconds.
    fn alert(&mut self, when_millis: u64) -> (r: Result<(), IoError>)
        ensures
            r is Ok ==> final(self).reads_wait(Some(when_millis)) && final(self).same_stream_as(old(self)),
            old(self).wait_succeeds() ==> r is Ok,
    ;

    /// Makes reads wait without limit.
    fn sleep(&mut self) -> (r: Result<(), IoError>)
        ensures
            r is Ok ==> final(self).reads_wait(None) && final(self).same_stream_as(old(self)),
            old(self).wait_succeeds() ==> r is Ok,
    ;
}

/// A stream of which a second handle can be made.
pub trait TryClone: Sized {
    fn try_clone(&self) -> Result<Self, IoError>;
}

} // verus!
