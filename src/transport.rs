//! Persistent HTTP/1.1 connections: reuse counting, expiry, and the byte streams under them.
use std::io;
use std::sync::Arc;
use std::time::{Duration, Instant};
use vstd::prelude::*;

verus! {

#[verifier::external_type_specification]
#[verifier::external_body]
pub struct ExIoError(io::Error);

#[verifier::external_type_specification]
#[verifier::external_body]
pub struct ExInstant(Instant);

/// What the server tells apart in an I/O error.
#[derive(Clone, Copy, Debug, PartialEq, Eq, Structural)]
pub enum IoErrorKind {
    WouldBlock,
    BrokenPipe,
    Other,
}

/// The kind of an I/O error.
pub uninterp spec fn io_error_kind(e: io::Error) -> IoErrorKind;

/// Relies on `io::Error::kind`: the kind is a property of the error value.
#[verifier::external_body]
fn error_kind(err: &io::Error) -> (r: IoErrorKind)
    ensures
        r == io_error_kind(*err),
{
    match err.kind() {
        io::ErrorKind::WouldBlock => IoErrorKind::WouldBlock,
        io::ErrorKind::BrokenPipe => IoErrorKind::BrokenPipe,
        _ => IoErrorKind::Other,
    }
}

pub fn would_block(err: &io::Error) -> (r: bool)
    ensures
        r == (io_error_kind(*err) == IoErrorKind::WouldBlock),
{
    error_kind(err) == IoErrorKind::WouldBlock
}

pub fn broken_pipe(err: &io::Error) -> (r: bool)
    ensures
        r == (io_error_kind(*err) == IoErrorKind::BrokenPipe),
{
    error_kind(err) == IoErrorKind::BrokenPipe
}

/// The write half of a connection.
pub trait Write {
    fn write(&mut self, buf: &[u8]) -> io::Result<usize>;

    fn flush(&mut self) -> io::Result<()>;
}

/// The read half of a connection, and the address of its peer.
pub trait Read {
    fn read(&mut self, buf: &mut [u8]) -> io::Result<usize>;

    fn peer_addr(&self) -> String;
}

/// A duplex byte stream that a connection wraps.
pub trait Connection: Read + Write {

}

impl<T: Read + Write> Connection for T {

}

/// The reuse policy shared by all connections.
pub struct HTTP11ConnectionOptions {
    pub max_reuse_count: u8,
    pub keepalive_timeout: Duration,
}

pub fn shared_connection_options(max_reuse_count: u8, keepalive_timeout: Duration) -> (r: Arc<
    HTTP11ConnectionOptions,
>)
    ensures
        r.max_reuse_count == max_reuse_count,
        r.keepalive_timeout == keepalive_timeout,
{
    Arc::new(HTTP11ConnectionOptions { max_reuse_count, keepalive_timeout })
}

/// Relies on `Instant::now`.
#[verifier::external_body]
fn now() -> Instant {
    Instant::now()
}

/// Relies on `Instant::elapsed`: the time since `created`, by the monotonic clock.
#[verifier::external_body]
fn elapsed_since(created: &Instant) -> Duration {
    created.elapsed()
}

/// Relies on the order of `Duration`: whether `d` is at least `limit`.
#[verifier::external_body]
fn at_least(d: &Duration, limit: &Duration) -> bool {
    *d >= *limit
}

/// One more use of a connection; the count stops at its largest value.
pub open spec fn reused(count: u8) -> u8 {
    if count < 255 {
        (count + 1) as u8
    } else {
        255
    }
}

/// The count after `n` more uses.
pub open spec fn reused_times(count: u8, n: nat) -> u8
    decreases n,
{
    if n == 0 {
        count
    } else {
        reused(reused_times(count, (n - 1) as nat))
    }
}

/// Whether `count` uses reach a limit of `max_reuse_count`; a limit of 0 is no limit.
pub open spec fn limit_reached(count: u8, max_reuse_count: u8) -> bool {
    max_reuse_count > 0 && count >= max_reuse_count
}

/// A persistent connection with its reuse count and its age.
pub struct HTTP11Connection<C> {
    pub connection: C,
    pub count: u8,
    /// The connection's life was ended before its time.
    pub ended: bool,
    pub created: Instant,
    pub options: Arc<HTTP11ConnectionOptions>,
}

impl<C> HTTP11Connection<C> {
    /// The connection is used up: its life was ended, or its reuses reach the limit.
    pub open spec fn count_expired(&self) -> bool {
        self.ended || limit_reached(self.count, self.options.max_reuse_count)
    }

    pub fn from_connection(connection: C, options: Arc<HTTP11ConnectionOptions>) -> (r: Self)
        ensures
            r.connection == connection,
            r.count == 0,
            !r.ended,
            r.options == options,
            !r.count_expired(),
    {
        HTTP11Connection { connection, count: 0, ended: false, created: now(), options }
    }

    /// Ends the connection's life: it is not reused.
    pub fn expire(&mut self)
        ensures
            final(self).count == old(self).options.max_reuse_count,
            final(self).ended,
            final(self).count_expired(),
            final(self).connection == old(self).connection,
            final(self).options == old(self).options,
            final(self).created == old(self).created,
    {
        self.count = self.options.max_reuse_count;
        self.ended = true;
    }

    /// Whether the connection has expired, given whether its keep-alive timeout has passed.
    pub fn expired_at(&self, timed_out: bool) -> (r: bool)
        ensures
            r == (self.count_expired() || timed_out),
    {
        self.ended || (self.options.max_reuse_count > 0 && self.count
            >= self.options.max_reuse_count) || timed_out
    }

    /// Whether the connection has been used up or has outlived its keep-alive timeout.
    pub fn expired(&self) -> (r: bool)
        ensures
            self.count_expired() ==> r,
    {
        let elapsed = elapsed_since(&self.created);
        let timed_out = at_least(&elapsed, &self.options.keepalive_timeout);
        self.expired_at(timed_out)
    }

    /// Counts one more use; returns whether the connection may serve another request.
    pub fn reuse(&mut self) -> (r: bool)
        ensures
            final(self).count == reused(old(self).count),
            final(self).ended == old(self).ended,
            r ==> !final(self).count_expired(),
            final(self).connection == old(self).connection,
            final(self).options == old(self).options,
            final(self).created == old(self).created,
    {
        self.count = if self.count < 255 {
            self.count + 1
        } else {
            255
        };
        !self.expired()
    }
}

impl<C: Write> HTTP11Connection<C> {
    /// Sends the interim `100 Continue` response in one best-effort write: a write that
    /// would block, or sends only part, is not tried again, and reading the body goes on.
    pub fn write_100_continue(&mut self) -> (r: io::Result<usize>)
        ensures
            final(self).count == old(self).count,
            final(self).ended == old(self).ended,
            final(self).options == old(self).options,
            final(self).created == old(self).created,
    {
        self.connection.write(continue_response().as_slice())
    }
}

/// The interim response that asks the client for the request body.
pub fn continue_response() -> (r: Vec<u8>)
    ensures
        r@ == crate::text::ascii("HTTP/1.1 100 Continue\r\n\r\n"@),
{
    proof {
        reveal_strlit("HTTP/1.1 100 Continue\r\n\r\n");
    }
    crate::text::literal("HTTP/1.1 100 Continue\r\n\r\n")
}

/// A connection reused exactly `max_reuse_count` times from new has used up its reuses;
/// reused one time fewer, it has not.
pub proof fn lemma_reuse_boundary(max_reuse_count: u8)
    requires
        max_reuse_count >= 1,
    ensures
        limit_reached(reused_times(0, max_reuse_count as nat), max_reuse_count),
        !limit_reached(reused_times(0, (max_reuse_count - 1) as nat), max_reuse_count),
{
    lemma_reused_times_counts(max_reuse_count as nat);
    lemma_reused_times_counts((max_reuse_count - 1) as nat);
}

/// With a limit of 0 no number of reuses uses a connection up.
pub proof fn lemma_no_limit(n: nat)
    ensures
        !limit_reached(reused_times(0, n), 0),
{
}

proof fn lemma_reused_times_counts(n: nat)
    requires
        n <= 255,
    ensures
        reused_times(0, n) == n,
    decreases n,
{
    if n > 0 {
        lemma_reused_times_counts((n - 1) as nat);
    }
}

} // verus!
