//! Bookkeeping for a file body sent by the kernel: how much to send next, and what a
//! send did to the offset and to completion.
use vstd::prelude::*;

verus! {

/// The most the Linux kernel sends in one `sendfile` call.
pub const SENDFILE_MAXSIZE: isize = 0x7fff_f000;

/// What one kernel send gave.
#[derive(Clone, Copy, Debug, PartialEq, Eq, Structural)]
pub enum SendOutcome {
    /// This many bytes were sent.
    Sent(usize),
    /// The socket cannot take more now.
    WouldBlock,
    /// The send failed for good.
    Failed,
}

pub struct SendFileInfo {
    /// The total to send, or -1 where it is not known.
    pub content_length: isize,
    /// The most to send at once, or -1 for no limit of its own.
    pub blocksize: isize,
    pub offset: i64,
    pub fd: i32,
    pub done: bool,
}

/// The byte count of the next send.
pub open spec fn send_count(content_length: isize, blocksize: isize, offset: i64) -> int {
    let base = if blocksize < 0 {
        SENDFILE_MAXSIZE as int
    } else {
        blocksize as int
    };
    if content_length >= 0 {
        let remaining = if content_length > offset {
            content_length - offset
        } else {
            0
        };
        if remaining < base {
            remaining
        } else {
            base
        }
    } else {
        base
    }
}

impl SendFileInfo {
    pub fn new(fd: i32, blocksize: isize) -> (r: Self)
        ensures
            r.content_length == -1,
            r.blocksize == blocksize,
            r.offset == 0,
            r.fd == fd,
            !r.done,
    {
        SendFileInfo { content_length: -1, blocksize, offset: 0, fd, done: false }
    }

    /// Starts a send: the byte count to hand to the kernel, or `None`, with the
    /// file marked done, where nothing is left to send.
    pub fn begin_send(&mut self) -> (r: Option<usize>)
        requires
            old(self).offset >= 0,
        ensures
            send_count(old(self).content_length, old(self).blocksize, old(self).offset) == 0
                ==> r is None && final(self).done,
            send_count(old(self).content_length, old(self).blocksize, old(self).offset) != 0
                ==> r == Some(
                send_count(old(self).content_length, old(self).blocksize, old(self).offset)
                    as usize,
            ) && final(self).done == old(self).done,
            final(self).content_length == old(self).content_length,
            final(self).blocksize == old(self).blocksize,
            final(self).offset == old(self).offset,
            final(self).fd == old(self).fd,
    {
        let base: isize = if self.blocksize < 0 {
            SENDFILE_MAXSIZE
        } else {
            self.blocksize
        };
        let count: isize = if self.content_length >= 0 {
            let remaining: isize = if self.content_length as i64 > self.offset {
                (self.content_length as i64 - self.offset) as isize
            } else {
                0
            };
            if remaining < base {
                remaining
            } else {
                base
            }
        } else {
            base
        };
        if count == 0 {
            self.done = true;
            None
        } else {
            Some(count as usize)
        }
    }

    /// Records what a send of up to `count` bytes gave; returns whether the file is done.
    /// Sending nothing means the end of the file; a send that would block is tried again.
    pub fn record_send(&mut self, count: usize, outcome: SendOutcome) -> (r: bool)
        requires
            old(self).offset >= 0,
            outcome matches SendOutcome::Sent(n) ==> n <= count,
            count <= isize::MAX,
        ensures
            r == final(self).done,
            final(self).offset >= 0,
            match outcome {
                SendOutcome::Sent(n) => if n == 0 {
                    final(self).done && final(self).offset == old(self).offset
                } else {
                    &&& final(self).offset == if old(self).offset + n <= i64::MAX {
                        old(self).offset + n
                    } else {
                        i64::MAX as int
                    }
                    &&& final(self).done == (old(self).content_length > 0
                        && old(self).content_length == final(self).offset)
                },
                SendOutcome::WouldBlock => !final(self).done && final(self).offset == old(
                    self,
                ).offset,
                SendOutcome::Failed => final(self).done && final(self).offset == old(self).offset,
            },
            final(self).content_length == old(self).content_length,
            final(self).blocksize == old(self).blocksize,
            final(self).fd == old(self).fd,
    {
        self.done = match outcome {
            SendOutcome::Sent(n) => {
                if n == 0 {
                    true
                } else {
                    self.offset = if n as i64 <= i64::MAX - self.offset {
                        self.offset + n as i64
                    } else {
                        i64::MAX
                    };
                    self.content_length > 0 && self.content_length as i64 == self.offset
                }
            },
            SendOutcome::WouldBlock => false,
            SendOutcome::Failed => true,
        };
        self.done
    }

    /// Caps the total to send at a length learned later, and the block size with it
    /// (a block size of no limit of its own included).
    pub fn update_content_length(&mut self, content_length: isize)
        ensures
            final(self).content_length == content_length,
            final(self).blocksize == if old(self).blocksize < 0 || old(self).blocksize
                > content_length {
                content_length
            } else {
                old(self).blocksize
            },
            final(self).offset == old(self).offset,
            final(self).fd == old(self).fd,
            final(self).done == old(self).done,
    {
        self.content_length = content_length;
        if self.blocksize < 0 || self.blocksize > content_length {
            self.blocksize = content_length;
        }
    }

    /// The next item of a file body: an empty chunk while the file is being sent.
    pub fn next(&mut self) -> (r: Option<Vec<u8>>)
        ensures
            r is None <==> old(self).done,
            r matches Some(v) ==> v@.len() == 0,
            *final(self) == *old(self),
    {
        if self.done {
            None
        } else {
            Some(Vec::new())
        }
    }
}

} // verus!
