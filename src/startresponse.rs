//! The status and headers an application starts its response with, and the framing of
//! the body bytes that follow them.
use vstd::prelude::*;
use vstd::string::*;
use vstd::utf8::*;
use crate::text::{
    ascii, bytes_equal, decimal_value, hex_bytes, hex_text, literal, parse_decimal, push_all, push_prefix, upper,
    upper_bytes,
};

verus! {

pub open spec fn header_line(h: (Seq<char>, Seq<char>)) -> Seq<u8> {
    encode_utf8(h.0) + ascii(": "@) + encode_utf8(h.1) + ascii("\r\n"@)
}

pub open spec fn header_lines(hs: Seq<(Seq<char>, Seq<char>)>) -> Seq<u8>
    decreases hs.len(),
{
    if hs.len() == 0 {
        seq![]
    } else {
        header_lines(hs.drop_last()) + header_line(hs.last())
    }
}

/// The value of the last `Content-Length` header that holds a number.
pub open spec fn response_length(hs: Seq<(Seq<char>, Seq<char>)>) -> Option<usize>
    decreases hs.len(),
{
    if hs.len() == 0 {
        None
    } else {
        let h = hs.last();
        if upper(encode_utf8(h.0)) == ascii("CONTENT-LENGTH"@) && decimal_value(encode_utf8(h.1))
            is Some {
            decimal_value(encode_utf8(h.1))
        } else {
            response_length(hs.drop_last())
        }
    }
}

/// The status line and headers on the wire: the application's headers as given, then
/// `Via`, `Connection`, and `Transfer-Encoding: chunked` where chunked transfer is asked
/// for and no length is declared.
pub open spec fn response_head(
    status: Seq<char>,
    hs: Seq<(Seq<char>, Seq<char>)>,
    close_connection: bool,
    chunked_transfer: bool,
) -> Seq<u8> {
    ascii("HTTP/1.1 "@) + encode_utf8(status) + ascii("\r\n"@) + header_lines(hs) + ascii(
        "Via: pyruvate\r\n"@,
    ) + (if close_connection {
        ascii("Connection: close\r\n"@)
    } else {
        ascii("Connection: keep-alive\r\n"@)
    }) + (if response_length(hs) is None && chunked_transfer {
        ascii("Transfer-Encoding: chunked\r\n"@)
    } else {
        seq![]
    }) + ascii("\r\n"@)
}

/// How many of `available` bytes still fit in a declared length of which `written` are sent.
pub open spec fn bytes_to_send(length: nat, written: nat, available: nat) -> nat {
    if length > written {
        if length - written < available {
            (length - written) as nat
        } else {
            available
        }
    } else {
        0
    }
}

/// The body bytes that one chunk of application output puts on the wire.
pub open spec fn framed_body(
    length: Option<usize>,
    written: nat,
    data: Seq<u8>,
    chunked_transfer: bool,
) -> Seq<u8> {
    match length {
        Some(n) => data.take(bytes_to_send(n as nat, written, data.len()) as int),
        None => if data.len() == 0 {
            seq![]
        } else if chunked_transfer {
            hex_text(data.len()) + ascii("\r\n"@) + data + ascii("\r\n"@)
        } else {
            data
        },
    }
}

/// The count of body bytes sent after one chunk of application output.
pub open spec fn written_after(length: Option<usize>, written: nat, data: Seq<u8>) -> nat {
    match length {
        Some(n) => written + bytes_to_send(n as nat, written, data.len()),
        None => if written + data.len() > usize::MAX {
            usize::MAX as nat
        } else {
            written + data.len()
        },
    }
}

pub open spec fn pairs_view(hs: Seq<(String, String)>) -> Seq<(Seq<char>, Seq<char>)> {
    hs.map_values(|h: (String, String)| (h.0@, h.1@))
}

/// The response state that the application's `start_response` call sets.
pub struct StartResponse {
    /// Status and headers, once the application has given them.
    pub headers_set: Option<(String, Vec<(String, String)>)>,
    pub headers_sent: bool,
    pub content_length: Option<usize>,
    pub content_bytes_written: usize,
}

impl StartResponse {
    pub fn new(headers_set: Option<(String, Vec<(String, String)>)>) -> (r: StartResponse)
        ensures
            r.headers_set == headers_set,
            !r.headers_sent,
            r.content_length is None,
            r.content_bytes_written == 0,
            r.wf(),
    {
        StartResponse {
            headers_set,
            headers_sent: false,
            content_length: None,
            content_bytes_written: 0,
        }
    }

    /// Records the status and headers the application starts its response with.
    pub fn start(&mut self, status: String, headers: Vec<(String, String)>)
        ensures
            final(self).headers_set == Some((status, headers)),
            final(self).headers_sent == old(self).headers_sent,
            final(self).content_length == old(self).content_length,
            final(self).content_bytes_written == old(self).content_bytes_written,
            old(self).wf() ==> final(self).wf(),
    {
        self.headers_set = Some((status, headers));
    }

    /// Nothing of the body is written before the headers, nor more than a declared length.
    pub open spec fn wf(&self) -> bool {
        &&& !self.headers_sent ==> self.content_bytes_written == 0
        &&& self.content_length matches Some(n) ==> self.content_bytes_written <= n
    }

    pub open spec fn spec_content_complete(&self) -> bool {
        match self.content_length {
            Some(n) => self.content_bytes_written >= n,
            None => false,
        }
    }

    /// Whether as many body bytes as declared have been written.
    pub fn content_complete(&self) -> (r: bool)
        ensures
            r == self.spec_content_complete(),
    {
        match self.content_length {
            Some(n) => self.content_bytes_written >= n,
            None => false,
        }
    }

    pub fn content_length(&self) -> (r: Option<usize>)
        ensures
            r == self.content_length,
    {
        self.content_length
    }

    /// Writes the status line and headers, and finds the declared length.
    fn write_head(
        &mut self,
        output: &mut Vec<u8>,
        close_connection: bool,
        chunked_transfer: bool,
    )
        requires
            old(self).headers_set is Some,
        ensures
            ({
                let (status, hs) = old(self).headers_set.unwrap();
                &&& final(output)@ == old(output)@ + response_head(
                    status@,
                    pairs_view(hs@),
                    close_connection,
                    chunked_transfer,
                )
                &&& final(self).content_length == match response_length(pairs_view(hs@)) {
                    Some(n) => Some(n),
                    None => old(self).content_length,
                }
            }),
            final(self).headers_set == old(self).headers_set,
            final(self).headers_sent == old(self).headers_sent,
            final(self).content_bytes_written == old(self).content_bytes_written,
    {
        proof {
            reveal_strlit("HTTP/1.1 ");
            reveal_strlit("\r\n");
            reveal_strlit(": ");
            reveal_strlit("CONTENT-LENGTH");
            reveal_strlit("Via: pyruvate\r\n");
            reveal_strlit("Connection: close\r\n");
            reveal_strlit("Connection: keep-alive\r\n");
            reveal_strlit("Transfer-Encoding: chunked\r\n");
        }
        let ghost start = output@;
        let (status, hs) = match &self.headers_set {
            Some(set) => (&set.0, &set.1),
            None => {
                return;
            },
        };
        let ghost hv = pairs_view(hs@);
        push_all(output, literal("HTTP/1.1 ").as_slice());
        proof {
            is_ascii_spec_bytes("\r\n");
        }
        push_all(output, status.as_str().as_bytes());
        push_all(output, literal("\r\n").as_slice());
        let ghost after_status = output@;
        let content_length_name = literal("CONTENT-LENGTH");
        let mut length: Option<usize> = None;
        let mut i: usize = 0;
        while i < hs.len()
            invariant
                i <= hs@.len(),
                hv == pairs_view(hs@),
                content_length_name@ == ascii("CONTENT-LENGTH"@),
                output@ == after_status + header_lines(hv.take(i as int)),
                length == response_length(hv.take(i as int)),
            decreases hs@.len() - i,
        {
            let name = &hs[i].0;
            let value = &hs[i].1;
            proof {
                reveal_strlit(": ");
                reveal_strlit("\r\n");
            }
            push_all(output, name.as_str().as_bytes());
            push_all(output, literal(": ").as_slice());
            push_all(output, value.as_str().as_bytes());
            push_all(output, literal("\r\n").as_slice());
            let uname = upper_bytes(name.as_str().as_bytes());
            if bytes_equal(uname.as_slice(), content_length_name.as_slice()) {
                match parse_decimal(value.as_str().as_bytes()) {
                    Some(n) => {
                        length = Some(n);
                    },
                    None => {},
                }
            }
            i += 1;
            assert(hv.take(i as int).drop_last() =~= hv.take(i - 1));
            assert(hv.take(i as int).last() == hv[i - 1]);
        }
        assert(hv.take(i as int) =~= hv);
        push_all(output, literal("Via: pyruvate\r\n").as_slice());
        if close_connection {
            push_all(output, literal("Connection: close\r\n").as_slice());
        } else {
            push_all(output, literal("Connection: keep-alive\r\n").as_slice());
        }
        let ghost before_chunked = output@;
        if length.is_none() && chunked_transfer {
            push_all(output, literal("Transfer-Encoding: chunked\r\n").as_slice());
        } else {
            assert(output@ =~= before_chunked + seq![]);
        }
        push_all(output, literal("\r\n").as_slice());
        match length {
            Some(n) => {
                self.content_length = Some(n);
            },
            None => {},
        }
    }

    /// Puts one chunk of application output on the wire: the status line and headers
    /// before the first chunk, then the body bytes that fit the declared length, or a
    /// chunk of chunked transfer where no length is declared and it is asked for.
    pub fn write(
        &mut self,
        data: &[u8],
        output: &mut Vec<u8>,
        close_connection: bool,
        chunked_transfer: bool,
    )
        requires
            old(self).headers_sent || old(self).headers_set is Some,
            old(self).wf(),
        ensures
            ({
                let head = if old(self).headers_sent {
                    seq![]
                } else {
                    let (status, hs) = old(self).headers_set.unwrap();
                    response_head(status@, pairs_view(hs@), close_connection, chunked_transfer)
                };
                let length = if old(self).headers_sent {
                    old(self).content_length
                } else {
                    match response_length(pairs_view(old(self).headers_set.unwrap().1@)) {
                        Some(n) => Some(n),
                        None => old(self).content_length,
                    }
                };
                &&& final(self).content_length == length
                &&& final(output)@ == old(output)@ + head + framed_body(
                    length,
                    old(self).content_bytes_written as nat,
                    data@,
                    chunked_transfer,
                )
                &&& final(self).content_bytes_written == written_after(
                    length,
                    old(self).content_bytes_written as nat,
                    data@,
                )
            }),
            final(self).headers_sent,
            final(self).headers_set == old(self).headers_set,
            final(self).wf(),
    {
        if !self.headers_sent {
            self.write_head(output, close_connection, chunked_transfer);
            self.headers_sent = true;
        }
        let ghost before_body = output@;
        match self.content_length {
            Some(length) => {
                let cbw = self.content_bytes_written;
                if length > cbw {
                    let num = if length - cbw < data.len() {
                        length - cbw
                    } else {
                        data.len()
                    };
                    if num > 0 {
                        push_prefix(output, data, num);
                        self.content_bytes_written = cbw + num;
                    }
                }
                assert(output@ =~= before_body + framed_body(
                    self.content_length,
                    cbw as nat,
                    data@,
                    chunked_transfer,
                ));
            },
            None => {
                let cbw = self.content_bytes_written;
                let length = data.len();
                if length > 0 {
                    if chunked_transfer {
                        proof {
                            reveal_strlit("\r\n");
                        }
                        let size = hex_bytes(length);
                        push_all(output, size.as_slice());
                        push_all(output, literal("\r\n").as_slice());
                        push_all(output, data);
                        push_all(output, literal("\r\n").as_slice());
                    } else {
                        push_all(output, data);
                    }
                    self.content_bytes_written = if cbw <= usize::MAX - length {
                        cbw + length
                    } else {
                        usize::MAX
                    };
                } else {
                    assert(output@ =~= before_body + seq![]);
                }
            },
        }
    }
}

/// Body bytes sent for each chunk of application output in turn, and the count
/// of body bytes sent after them.
pub open spec fn framed_chunks(length: usize, written: nat, chunks: Seq<Seq<u8>>) -> (
    Seq<u8>,
    nat,
)
    decreases chunks.len(),
{
    if chunks.len() == 0 {
        (seq![], written)
    } else {
        let (out, w) = framed_chunks(length, written, chunks.drop_last());
        (
            out + framed_body(Some(length), w, chunks.last(), false),
            written_after(Some(length), w, chunks.last()),
        )
    }
}

pub open spec fn concatenated(chunks: Seq<Seq<u8>>) -> Seq<u8>
    decreases chunks.len(),
{
    if chunks.len() == 0 {
        seq![]
    } else {
        concatenated(chunks.drop_last()) + chunks.last()
    }
}

/// With a declared length of `length`, the body sent for any chunks of application
/// output is exactly the first `length` bytes they hold (all of them, if fewer), and
/// once `length` bytes are sent the content is complete.
pub proof fn lemma_declared_length_caps_body(length: usize, chunks: Seq<Seq<u8>>)
    ensures
        ({
            let (out, w) = framed_chunks(length, 0, chunks);
            let all = concatenated(chunks);
            &&& out == all.take(if all.len() < length { all.len() as int } else { length as int })
            &&& out.len() <= length
            &&& w == out.len()
            &&& (all.len() >= length ==> w == length)
        }),
    decreases chunks.len(),
{
    if chunks.len() > 0 {
        let prev = chunks.drop_last();
        lemma_declared_length_caps_body(length, prev);
        let (out0, w0) = framed_chunks(length, 0, prev);
        let all0 = concatenated(prev);
        let c = chunks.last();
        let all = concatenated(chunks);
        assert(all == all0 + c);
        let k = bytes_to_send(length as nat, w0, c.len());
        let (out, w) = framed_chunks(length, 0, chunks);
        assert(out == out0 + c.take(k as int));
        let lim = if all.len() < length {
            all.len() as int
        } else {
            length as int
        };
        assert(out =~= all.take(lim));
    }
}

} // verus!
