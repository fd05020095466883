//! The state of one response while it is rendered chunk by chunk and written out.
use vstd::prelude::*;
use vstd::string::*;
use vstd::utf8::*;
use crate::startresponse::{framed_body, pairs_view, response_head, StartResponse, written_after};
use crate::text::{ascii, literal, push_all};
use crate::request::{ParsingStage, WSGIRequest};
use crate::transport::HTTP11Connection;

verus! {

/// What the application's body source gave when it was asked for the next chunk.
pub enum BodyEvent {
    /// A chunk of bytes.
    Chunk(Vec<u8>),
    /// The source is exhausted.
    End,
    /// The source gave something that is not bytes; the response ends as it stands.
    Refused,
    /// The source failed; the response becomes a 500.
    Failed,
}

pub open spec fn http500() -> Seq<u8> {
    ascii("HTTP/1.1 500 Internal Server Error\r\n\r\n"@)
}

pub open spec fn http400() -> Seq<u8> {
    ascii("HTTP/1.1 400 Bad Request\r\n\r\n"@)
}

pub open spec fn final_chunk() -> Seq<u8> {
    ascii("0\r\n\r\n"@)
}

/// The output once the body has ended: where no length was declared and chunked
/// transfer is on, the terminal chunk is added, and only the first time.
pub open spec fn finished_output(
    current: Seq<u8>,
    ended: bool,
    terminated: bool,
    declared: Option<usize>,
    chunked_transfer: bool,
) -> (Seq<u8>, bool) {
    if ended && declared is None && !terminated {
        (if chunked_transfer {
            current + final_chunk()
        } else {
            current
        }, true)
    } else {
        (current, terminated)
    }
}

/// Finishing the output is idempotent: a second finishing adds nothing, so the
/// terminal chunk is never written twice.
pub proof fn lemma_finishing_idempotent(
    current: Seq<u8>,
    ended: bool,
    terminated: bool,
    declared: Option<usize>,
    chunked_transfer: bool,
)
    ensures
        ({
            let (c1, t1) = finished_output(current, ended, terminated, declared, chunked_transfer);
            finished_output(c1, ended, t1, declared, chunked_transfer) == (c1, t1)
        }),
        terminated ==> finished_output(current, ended, terminated, declared, chunked_transfer)
            == (current, terminated),
{
}

/// Where a response goes after a worker has written what it could of it.
pub enum Disposal<C> {
    /// Output is left: the response waits for the connection to become writable.
    Pending(WSGIResponse<C>),
    /// The response is over and the connection may serve another request.
    Reuse(HTTP11Connection<C>),
    /// The response is over and the connection is closed.
    Close,
}

/// Whether the start response can frame a chunk: its headers are sent or given.
pub open spec fn can_frame(start: StartResponse) -> bool {
    start.headers_sent || start.headers_set is Some
}

/// One chunk of application output rendered: the status line and headers before the
/// first (with `Connection: close` where `close`), then the body bytes that fit; the
/// response ends once the declared length is reached.
pub open spec fn chunk_rendered<C>(
    before: WSGIResponse<C>,
    after: WSGIResponse<C>,
    start_before: StartResponse,
    start_after: StartResponse,
    data: Seq<u8>,
    close: bool,
) -> bool {
    let head = if start_before.headers_sent {
        seq![]
    } else {
        let (status, hs) = start_before.headers_set.unwrap();
        response_head(status@, pairs_view(hs@), close, before.chunked_transfer)
    };
    &&& after.current_chunk@ == before.current_chunk@ + head + framed_body(
        start_after.content_length,
        start_before.content_bytes_written as nat,
        data,
        before.chunked_transfer,
    )
    &&& start_after.content_bytes_written == written_after(
        start_after.content_length,
        start_before.content_bytes_written as nat,
        data,
    )
    &&& after.last_chunk_or_file_sent == (before.last_chunk_or_file_sent
        || start_after.spec_content_complete())
    &&& after.content_length == if before.sendfileinfo && before.content_length is None {
        start_after.content_length
    } else {
        before.content_length
    }
}

pub struct WSGIResponse<C> {
    /// The body source is exhausted, or the file has been sent.
    pub last_chunk_or_file_sent: bool,
    /// The body is a file sent by the kernel.
    pub sendfileinfo: bool,
    pub chunked_transfer: bool,
    /// Bytes rendered and not yet all written.
    pub current_chunk: Vec<u8>,
    /// The length declared for a file body.
    pub content_length: Option<usize>,
    /// How much of `current_chunk` has been written.
    pub written: usize,
    /// No more framing follows: the terminal chunk is out, or the response is a fixed one.
    pub terminated: bool,
    pub connection: HTTP11Connection<C>,
}

impl<C> WSGIResponse<C> {
    pub open spec fn wf(&self) -> bool {
        self.written <= self.current_chunk@.len()
    }

    pub fn new(connection: HTTP11Connection<C>, chunked_transfer: bool) -> (r: WSGIResponse<C>)
        ensures
            !r.last_chunk_or_file_sent,
            !r.sendfileinfo,
            r.chunked_transfer == chunked_transfer,
            r.current_chunk@ == Seq::<u8>::empty(),
            r.content_length is None,
            r.written == 0,
            !r.terminated,
            r.connection == connection,
            r.wf(),
    {
        WSGIResponse {
            last_chunk_or_file_sent: false,
            sendfileinfo: false,
            chunked_transfer,
            current_chunk: Vec::new(),
            content_length: None,
            written: 0,
            terminated: false,
            connection,
        }
    }

    /// Replaces the response by a bare 500 and closes the connection after it.
    pub fn set_error_500(&mut self)
        ensures
            final(self).current_chunk@ == http500(),
            final(self).written == 0,
            final(self).last_chunk_or_file_sent,
            final(self).terminated,
            final(self).connection.count_expired(),
            final(self).chunked_transfer == old(self).chunked_transfer,
            final(self).sendfileinfo == old(self).sendfileinfo,
            final(self).content_length == old(self).content_length,
            final(self).wf(),
    {
        proof {
            reveal_strlit("HTTP/1.1 500 Internal Server Error\r\n\r\n");
        }
        self.current_chunk = literal("HTTP/1.1 500 Internal Server Error\r\n\r\n");
        self.written = 0;
        self.last_chunk_or_file_sent = true;
        self.terminated = true;
        self.connection.expire();
    }

    /// Replaces the response by a bare 400 and closes the connection after it.
    pub fn set_bad_request_400(&mut self)
        ensures
            final(self).current_chunk@ == http400(),
            final(self).written == 0,
            final(self).last_chunk_or_file_sent,
            final(self).terminated,
            final(self).connection.count_expired(),
            final(self).chunked_transfer == old(self).chunked_transfer,
            final(self).sendfileinfo == old(self).sendfileinfo,
            final(self).content_length == old(self).content_length,
            final(self).wf(),
    {
        proof {
            reveal_strlit("HTTP/1.1 400 Bad Request\r\n\r\n");
        }
        self.current_chunk = literal("HTTP/1.1 400 Bad Request\r\n\r\n");
        self.written = 0;
        self.last_chunk_or_file_sent = true;
        self.terminated = true;
        self.connection.expire();
    }

    /// Answers a refused request with a 400; returns whether it did, in which case the
    /// application is not called.
    pub fn answer_bad_request(&mut self, req: &WSGIRequest) -> (r: bool)
        ensures
            r == (req.stage == ParsingStage::HeadersError),
            r ==> final(self).current_chunk@ == http400() && final(self).last_chunk_or_file_sent
                && final(self).connection.count_expired(),
            !r ==> *final(self) == *old(self),
    {
        if req.is_bad_request() {
            self.set_bad_request_400();
            true
        } else {
            false
        }
    }

    /// Whether the body source is to be asked for its next chunk.
    pub fn needs_chunk(&self) -> (r: bool)
        ensures
            r == (!self.last_chunk_or_file_sent && self.written == 0),
    {
        !self.last_chunk_or_file_sent && self.written == 0
    }

    /// Renders what the body source gave, with the connection to be closed after the
    /// response or kept alive; returns `false` where the source failed.
    pub fn render_with(
        &mut self,
        start: &mut StartResponse,
        event: BodyEvent,
        close_connection: bool,
    ) -> (r: bool)
        requires
            old(start).wf(),
        ensures
            final(self).connection == old(self).connection,
            final(self).chunked_transfer == old(self).chunked_transfer,
            final(self).sendfileinfo == old(self).sendfileinfo,
            final(self).written == old(self).written,
            final(self).terminated == old(self).terminated,
            final(start).wf(),
            match event {
                BodyEvent::Chunk(data) => if old(start).headers_sent
                    || old(start).headers_set is Some {
                    r && chunk_rendered(
                        *old(self),
                        *final(self),
                        *old(start),
                        *final(start),
                        data@,
                        close_connection,
                    )
                } else {
                    !r && final(self).current_chunk == old(self).current_chunk
                        && final(self).last_chunk_or_file_sent == old(self).last_chunk_or_file_sent
                        && *final(start) == *old(start)
                },
                BodyEvent::End | BodyEvent::Refused => {
                    &&& r
                    &&& final(self).last_chunk_or_file_sent
                    &&& final(self).current_chunk == old(self).current_chunk
                    &&& *final(start) == *old(start)
                },
                BodyEvent::Failed => {
                    &&& !r
                    &&& final(self).current_chunk == old(self).current_chunk
                    &&& final(self).last_chunk_or_file_sent == old(self).last_chunk_or_file_sent
                    &&& *final(start) == *old(start)
                },
            },
    {
        match event {
            BodyEvent::Chunk(data) => {
                if !start.headers_sent && start.headers_set.is_none() {
                    return false;
                }
                start.write(
                    data.as_slice(),
                    &mut self.current_chunk,
                    close_connection,
                    self.chunked_transfer,
                );
                if self.sendfileinfo && self.content_length.is_none() {
                    self.content_length = start.content_length();
                }
                if start.content_complete() {
                    self.last_chunk_or_file_sent = true;
                }
                true
            },
            BodyEvent::End | BodyEvent::Refused => {
                self.last_chunk_or_file_sent = true;
                true
            },
            BodyEvent::Failed => false,
        }
    }

    /// Renders the next chunk: the application's status and headers before the first,
    /// `Connection: close` where the connection has expired; a failed source turns the
    /// response into a 500.
    pub fn render_next_chunk(&mut self, start: &mut StartResponse, event: BodyEvent)
        requires
            old(start).wf(),
            old(self).wf(),
        ensures
            final(start).wf(),
            final(self).wf(),
            final(self).chunked_transfer == old(self).chunked_transfer,
            final(self).sendfileinfo == old(self).sendfileinfo,
            match event {
                BodyEvent::Chunk(data) => if can_frame(*old(start)) {
                    &&& final(self).connection == old(self).connection
                    &&& final(self).written == old(self).written
                    &&& final(self).terminated == old(self).terminated
                    &&& exists|close: bool|
                        (old(self).connection.count_expired() ==> close) && #[trigger] chunk_rendered(
                            *old(self),
                            *final(self),
                            *old(start),
                            *final(start),
                            data@,
                            close,
                        )
                } else {
                    &&& final(self).current_chunk@ == http500()
                    &&& final(self).written == 0
                    &&& final(self).last_chunk_or_file_sent
                    &&& final(self).terminated
                    &&& final(self).connection.count_expired()
                    &&& *final(start) == *old(start)
                },
                BodyEvent::End | BodyEvent::Refused => {
                    &&& final(self).last_chunk_or_file_sent
                    &&& final(self).current_chunk == old(self).current_chunk
                    &&& final(self).written == old(self).written
                    &&& final(self).terminated == old(self).terminated
                    &&& final(self).connection == old(self).connection
                    &&& *final(start) == *old(start)
                },
                BodyEvent::Failed => {
                    &&& final(self).current_chunk@ == http500()
                    &&& final(self).written == 0
                    &&& final(self).last_chunk_or_file_sent
                    &&& final(self).terminated
                    &&& final(self).connection.count_expired()
                    &&& *final(start) == *old(start)
                },
            },
    {
        let ghost before = *self;
        let ghost start_before = *start;
        let ghost chunk = match &event {
            BodyEvent::Chunk(data) => data@,
            _ => Seq::<u8>::empty(),
        };
        let ghost is_chunk = event is Chunk;
        let close_connection = self.connection.expired();
        let ok = self.render_with(start, event, close_connection);
        proof {
            if ok && is_chunk {
                assert(chunk_rendered(before, *self, start_before, *start, chunk, close_connection));
                assert(before.connection.count_expired() ==> close_connection);
                assert(exists|close: bool|
                    (before.connection.count_expired() ==> close) && #[trigger] chunk_rendered(
                        before,
                        *self,
                        start_before,
                        *start,
                        chunk,
                        close,
                    ));
            }
        }
        if !ok {
            self.set_error_500();
        }
    }

    /// Ends the output once the body source is done: the terminal chunk where it is
    /// due, and the connection closed where no length was declared.
    pub fn finish_chunk(&mut self, start: &StartResponse)
        requires
            old(self).wf(),
        ensures
            (final(self).current_chunk@, final(self).terminated) == finished_output(
                old(self).current_chunk@,
                old(self).last_chunk_or_file_sent,
                old(self).terminated,
                start.content_length,
                old(self).chunked_transfer,
            ),
            old(self).last_chunk_or_file_sent && start.content_length is None
                ==> final(self).connection.count_expired(),
            final(self).written == old(self).written,
            final(self).last_chunk_or_file_sent == old(self).last_chunk_or_file_sent,
            final(self).chunked_transfer == old(self).chunked_transfer,
            final(self).sendfileinfo == old(self).sendfileinfo,
            final(self).content_length == old(self).content_length,
            final(self).wf(),
    {
        if self.last_chunk_or_file_sent && start.content_length.is_none() {
            self.connection.expire();
            if !self.terminated {
                if self.chunked_transfer {
                    proof {
                        reveal_strlit("0\r\n\r\n");
                    }
                    let marker = literal("0\r\n\r\n");
                    push_all(&mut self.current_chunk, marker.as_slice());
                }
                self.terminated = true;
            }
        }
    }

    /// Records that `n` more bytes of the current chunk were written; returns whether
    /// the chunk is written whole. A written chunk is dropped unless it is the last.
    pub fn advance(&mut self, n: usize) -> (r: bool)
        requires
            old(self).wf(),
            old(self).written + n <= old(self).current_chunk@.len(),
        ensures
            r == (old(self).written + n == old(self).current_chunk@.len()),
            r && !old(self).last_chunk_or_file_sent ==> final(self).current_chunk@.len() == 0
                && final(self).written == 0,
            !(r && !old(self).last_chunk_or_file_sent) ==> final(self).current_chunk
                == old(self).current_chunk && final(self).written == old(self).written + n,
            final(self).last_chunk_or_file_sent == old(self).last_chunk_or_file_sent,
            final(self).terminated == old(self).terminated,
            final(self).connection == old(self).connection,
            final(self).chunked_transfer == old(self).chunked_transfer,
            final(self).sendfileinfo == old(self).sendfileinfo,
            final(self).content_length == old(self).content_length,
            final(self).wf(),
    {
        let len = self.current_chunk.len();
        self.written = self.written + n;
        if self.written == len {
            if !self.last_chunk_or_file_sent {
                self.current_chunk.clear();
                self.written = 0;
            }
            true
        } else {
            false
        }
    }

    /// Ends the response after a write failed for good: nothing more is written, and
    /// the connection is not reused.
    pub fn abandon(&mut self)
        ensures
            final(self).last_chunk_or_file_sent,
            final(self).written == final(self).current_chunk@.len(),
            final(self).current_chunk == old(self).current_chunk,
            final(self).connection.count_expired(),
            final(self).wf(),
    {
        self.last_chunk_or_file_sent = true;
        self.written = self.current_chunk.len();
        self.connection.expire();
    }

    /// Whether the response is over: the body source is done and all output written.
    pub fn complete(&self) -> (r: bool)
        ensures
            r == (self.last_chunk_or_file_sent && self.written == self.current_chunk@.len()),
    {
        self.last_chunk_or_file_sent && self.written == self.current_chunk.len()
    }
}

/// A response not over stays pending; one that is over hands its connection back for
/// another request where one more use is allowed, and closes it otherwise.
pub fn dispose<C>(response: WSGIResponse<C>) -> (r: Disposal<C>)
    ensures
        r is Pending <==> !(response.last_chunk_or_file_sent && response.written
            == response.current_chunk@.len()),
        r matches Disposal::Pending(p) ==> p == response,
        r matches Disposal::Reuse(c) ==> c.count == crate::transport::reused(
            response.connection.count,
        ) && !c.count_expired() && c.connection == response.connection.connection,
        !(r is Pending) && (response.connection.ended || crate::transport::limit_reached(
            crate::transport::reused(response.connection.count),
            response.connection.options.max_reuse_count,
        )) ==> r is Close,
{
    if !response.complete() {
        return Disposal::Pending(response);
    }
    let mut connection = response.connection;
    if connection.reuse() {
        Disposal::Reuse(connection)
    } else {
        Disposal::Close
    }
}

} // verus!
