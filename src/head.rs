//! The request head as httparse reads it, and percent-decoding of the path.
use vstd::prelude::*;
use vstd::utf8::*;
use crate::text::{all_ascii, is_digit};

verus! {

#[verifier::external_type_specification]
#[verifier::external_body]
pub struct ExHttparseError(httparse::Error);

#[verifier::external_type_specification]
#[verifier::external_body]
pub struct ExFromUrlEncodingError(urlencoding::FromUrlEncodingError);

/// A request line and header block, with each header's name and raw value.
pub struct RequestHead {
    /// Bytes taken by the request line and the headers, blank line included.
    pub size: usize,
    pub method: Option<String>,
    pub path: Option<String>,
    pub version: Option<u8>,
    pub headers: Vec<(Vec<u8>, Vec<u8>)>,
}

pub struct HeadView {
    pub size: nat,
    pub method: Option<Seq<char>>,
    pub path: Option<Seq<char>>,
    pub version: Option<u8>,
    pub headers: Seq<(Seq<u8>, Seq<u8>)>,
}

/// What reading a head out of a byte buffer gives.
pub enum HeadStatus {
    Invalid,
    Partial,
    Complete(HeadView),
}

pub open spec fn text_view(t: Option<String>) -> Option<Seq<char>> {
    match t {
        Some(s) => Some(s@),
        None => None,
    }
}

impl View for RequestHead {
    type V = HeadView;

    open spec fn view(&self) -> HeadView {
        HeadView {
            size: self.size as nat,
            method: text_view(self.method),
            path: text_view(self.path),
            version: self.version,
            headers: self.headers@.map_values(|h: (Vec<u8>, Vec<u8>)| (h.0@, h.1@)),
        }
    }
}

/// The head that httparse reads from `data` with `max_headers` header slots.
pub uninterp spec fn request_head(data: Seq<u8>, max_headers: nat) -> HeadStatus;

/// Relies on `httparse::Request::parse`: its outcome depends on the bytes and the
/// number of header slots alone. A complete head ends within the buffer, fills at most
/// the slots given, and its header names are tokens, hence ASCII.
#[verifier::external_body]
pub fn parse_request_head(data: &[u8], max_headers: usize) -> (r: Result<
    Option<RequestHead>,
    httparse::Error,
>)
    ensures
        r is Err ==> request_head(data@, max_headers as nat) == HeadStatus::Invalid,
        r matches Ok(None) ==> request_head(data@, max_headers as nat) == HeadStatus::Partial,
        r matches Ok(Some(h)) ==> request_head(data@, max_headers as nat) == HeadStatus::Complete(
            h@,
        ),
        r matches Ok(Some(h)) ==> h.size <= data@.len() && h.headers@.len() <= max_headers,
        r matches Ok(Some(h)) ==> forall|i: int|
            0 <= i < h.headers@.len() ==> all_ascii(#[trigger] h.headers@[i].0@),
{
    let mut slots = vec![httparse::EMPTY_HEADER; max_headers];
    let mut req = httparse::Request::new(&mut slots);
    let status = req.parse(data)?;
    Ok(match status {
        httparse::Status::Complete(size) => Some(RequestHead {
            size,
            method: req.method.map(String::from),
            path: req.path.map(String::from),
            version: req.version,
            headers: req.headers.iter().map(|h| (h.name.as_bytes().to_vec(), h.value.to_vec())).collect(),
        }),
        httparse::Status::Partial => None,
    })
}

pub open spec fn is_hex(b: u8) -> bool {
    is_digit(b) || (65 <= b <= 70) || (97 <= b <= 102)
}

pub open spec fn hex_value(b: u8) -> nat {
    if is_digit(b) {
        (b - 48) as nat
    } else if 65 <= b <= 70 {
        (b - 55) as nat
    } else {
        (b - 87) as nat
    }
}

/// Percent-decoding: `%` with two hex digits stands for one byte; any other byte,
/// a `%` not followed by two hex digits included, stands for itself.
pub open spec fn percent_decoded(s: Seq<u8>) -> Seq<u8>
    decreases s.len(),
{
    if s.len() == 0 {
        seq![]
    } else if s[0] == 37 && s.len() >= 3 && is_hex(s[1]) && is_hex(s[2]) {
        seq![(hex_value(s[1]) * 16 + hex_value(s[2])) as u8] + percent_decoded(s.skip(3))
    } else {
        seq![s[0]] + percent_decoded(s.skip(1))
    }
}

pub open spec fn url_decoded(s: Seq<char>) -> Option<Seq<char>> {
    let d = percent_decoded(encode_utf8(s));
    if valid_utf8(d) {
        Some(decode_utf8(d))
    } else {
        None
    }
}

/// Relies on `urlencoding::decode`: percent-decodes the UTF-8 bytes of `s` and fails
/// exactly where the decoded bytes are not UTF-8.
#[verifier::external_body]
pub fn url_decode(s: &str) -> (r: Result<String, urlencoding::FromUrlEncodingError>)
    ensures
        r is Ok <==> url_decoded(s@) is Some,
        r matches Ok(t) ==> url_decoded(s@) == Some(t@),
{
    urlencoding::decode(s)
}

} // verus!
