//! Incremental parsing of an HTTP/1.1 request into the gateway environment.
use vstd::prelude::*;
use vstd::string::*;
use vstd::utf8::*;
use crate::head::{parse_request_head, request_head, url_decode, url_decoded, HeadStatus, HeadView};
use crate::text::{
    all_ascii, ascii, ascii_string, ascii_text, bytes_equal, decimal_value, parse_decimal,
    literal, push_all, string_from_utf8, upper, upper_bytes,
};

verus! {

#[derive(Clone, Copy, Debug, PartialEq, Eq, Structural)]
pub enum ParsingStage {
    NotParsed,
    HeadersSuccess,
    /// The head could not be read or was refused; the request is answered with 400.
    HeadersError,
    /// The client waits for `100 Continue` before it sends the body.
    Expect100Continue,
    ContentPartial,
    ContentComplete,
}

pub open spec fn stage_headers_complete(s: ParsingStage) -> bool {
    s != ParsingStage::NotParsed && s != ParsingStage::HeadersError && s
        != ParsingStage::Expect100Continue
}

pub open spec fn stage_complete(s: ParsingStage) -> bool {
    s == ParsingStage::ContentComplete || s == ParsingStage::HeadersError
}

impl ParsingStage {
    pub fn headers_complete(&self) -> (r: bool)
        ensures
            r == stage_headers_complete(*self),
    {
        *self != ParsingStage::NotParsed && *self != ParsingStage::HeadersError && *self
            != ParsingStage::Expect100Continue
    }

    pub fn complete(&self) -> (r: bool)
        ensures
            r == stage_complete(*self),
    {
        *self == ParsingStage::ContentComplete || *self == ParsingStage::HeadersError
    }

    pub fn expect_100_continue(&self) -> (r: bool)
        ensures
            r == (*self == ParsingStage::Expect100Continue),
    {
        *self == ParsingStage::Expect100Continue
    }
}

pub open spec fn is_content_length_name(name: Seq<u8>) -> bool {
    upper(name) == ascii("CONTENT-LENGTH"@)
}

pub open spec fn is_expect_name(name: Seq<u8>) -> bool {
    upper(name) == ascii("EXPECT"@)
}

pub open spec fn dashes_to_underscores(s: Seq<u8>) -> Seq<u8> {
    s.map_values(|b: u8| if b == 45 { 95u8 } else { b })
}

/// The environment key of a header: `CONTENT_TYPE`, or `HTTP_` and the upper-cased
/// name with `-` as `_`.
pub open spec fn environ_key(name: Seq<u8>) -> Seq<u8> {
    if upper(name) == ascii("CONTENT-TYPE"@) {
        ascii("CONTENT_TYPE"@)
    } else {
        ascii("HTTP_"@) + dashes_to_underscores(upper(name))
    }
}

/// A header is refused when it is an `Expect` other than `100-continue`, or when its
/// value is not UTF-8.
pub open spec fn header_accepted(h: (Seq<u8>, Seq<u8>)) -> bool {
    if is_content_length_name(h.0) {
        valid_utf8(h.1)
    } else if is_expect_name(h.0) {
        upper(h.1) == ascii("100-CONTINUE"@)
    } else {
        valid_utf8(h.1)
    }
}

/// The environment entries of the headers other than `Content-Length` and `Expect`, in order.
pub open spec fn environ_headers(hs: Seq<(Seq<u8>, Seq<u8>)>) -> Seq<(Seq<char>, Seq<char>)>
    decreases hs.len(),
{
    if hs.len() == 0 {
        seq![]
    } else {
        let rest = environ_headers(hs.drop_last());
        let h = hs.last();
        if is_content_length_name(h.0) || is_expect_name(h.0) {
            rest
        } else {
            rest.push((ascii_text(environ_key(h.0)), decode_utf8(h.1)))
        }
    }
}

/// The value of the last `Content-Length` header that holds a number.
pub open spec fn declared_length(hs: Seq<(Seq<u8>, Seq<u8>)>) -> Option<usize>
    decreases hs.len(),
{
    if hs.len() == 0 {
        None
    } else {
        let h = hs.last();
        if is_content_length_name(h.0) && decimal_value(h.1) is Some {
            decimal_value(h.1)
        } else {
            declared_length(hs.drop_last())
        }
    }
}

pub open spec fn expects_continue(hs: Seq<(Seq<u8>, Seq<u8>)>) -> bool {
    exists|i: int| 0 <= i < hs.len() && is_expect_name(#[trigger] hs[i].0)
}

/// A path split at its first `?` into the path proper and the query string.
pub open spec fn query_split(p: Seq<char>) -> (Seq<char>, Seq<char>)
    decreases p.len(),
{
    if p.len() == 0 {
        (seq![], seq![])
    } else if p[0] == '?' {
        (seq![], p.drop_first())
    } else {
        let r = query_split(p.drop_first());
        (seq![p[0]] + r.0, r.1)
    }
}

pub open spec fn protocol_name(version: u8) -> Seq<char> {
    if version == 0 {
        ascii_text(ascii("HTTP/1.0"@))
    } else {
        ascii_text(ascii("HTTP/1.1"@))
    }
}

pub open spec fn entry(key: Seq<char>, value: Seq<char>) -> (Seq<char>, Seq<char>) {
    (ascii_text(ascii(key)), value)
}

/// Whether the head is answered with anything but 400.
pub open spec fn head_accepted(h: HeadView) -> bool {
    &&& forall|i: int| 0 <= i < h.headers.len() ==> header_accepted(#[trigger] h.headers[i])
    &&& h.path matches Some(p) ==> url_decoded(query_split(p).0) is Some
    &&& h.version matches Some(v) ==> v <= 1
}

/// The environment entries that an accepted head gives.
pub open spec fn head_environ(h: HeadView) -> Seq<(Seq<char>, Seq<char>)> {
    environ_headers(h.headers) + match h.method {
        Some(m) => seq![entry("REQUEST_METHOD"@, m)],
        None => seq![],
    } + match h.path {
        Some(p) => seq![
            entry("PATH_INFO"@, url_decoded(query_split(p).0).unwrap()),
            entry("QUERY_STRING"@, query_split(p).1),
        ],
        None => seq![],
    } + match h.version {
        Some(v) => seq![entry("SERVER_PROTOCOL"@, protocol_name(v))],
        None => seq![],
    }
}

/// The state of a request as the parser sees it.
pub struct RequestState {
    pub data: Seq<u8>,
    pub stage: ParsingStage,
    pub content_length: nat,
    pub content_start: nat,
    pub headers: Seq<(Seq<char>, Seq<char>)>,
    pub max_headers: nat,
}

pub open spec fn headers_view(hs: Seq<(String, String)>) -> Seq<(Seq<char>, Seq<char>)> {
    hs.map_values(|h: (String, String)| (h.0@, h.1@))
}

/// Reading the head: the stage it leads to, where the body starts, its length, and the
/// environment entries. A body length not declared is what follows the head.
pub open spec fn head_parsed(s: RequestState) -> RequestState {
    match request_head(s.data, s.max_headers) {
        HeadStatus::Invalid => RequestState { stage: ParsingStage::HeadersError, ..s },
        HeadStatus::Partial => RequestState { stage: ParsingStage::NotParsed, ..s },
        HeadStatus::Complete(h) => RequestState {
            stage: if !head_accepted(h) {
                ParsingStage::HeadersError
            } else if expects_continue(h.headers) && s.stage != ParsingStage::Expect100Continue {
                ParsingStage::Expect100Continue
            } else {
                ParsingStage::HeadersSuccess
            },
            content_start: h.size,
            content_length: match declared_length(h.headers) {
                Some(n) => n as nat,
                None => (s.data.len() - h.size) as nat,
            },
            headers: if head_accepted(h) {
                head_environ(h)
            } else {
                seq![]
            },
            ..s
        },
    }
}

/// One parsing step: the head is read again until it is resolved, unless it was
/// refused, which is final; then the body received is held against the content length.
pub open spec fn parsed(s: RequestState) -> RequestState {
    let s1 = if !stage_headers_complete(s.stage) && s.stage != ParsingStage::HeadersError {
        head_parsed(s)
    } else {
        s
    };
    if stage_headers_complete(s1.stage) {
        RequestState {
            stage: if s1.content_length > s1.data.len() - s1.content_start {
                ParsingStage::ContentPartial
            } else {
                ParsingStage::ContentComplete
            },
            ..s1
        }
    } else {
        s1
    }
}

/// The state of a request just created.
pub open spec fn fresh_state(max_headers: nat) -> RequestState {
    RequestState {
        data: seq![],
        stage: ParsingStage::NotParsed,
        content_length: 0,
        content_start: 0,
        headers: seq![],
        max_headers,
    }
}

/// `append` followed by `parse_data`.
pub open spec fn fed_one(s: RequestState, chunk: Seq<u8>) -> RequestState {
    parsed(RequestState { data: s.data + chunk, ..s })
}

/// Each chunk in turn appended and parsed.
pub open spec fn fed(s: RequestState, chunks: Seq<Seq<u8>>) -> RequestState
    decreases chunks.len(),
{
    if chunks.len() == 0 {
        s
    } else {
        fed_one(fed(s, chunks.drop_last()), chunks.last())
    }
}

pub open spec fn joined(chunks: Seq<Seq<u8>>) -> Seq<u8>
    decreases chunks.len(),
{
    if chunks.len() == 0 {
        seq![]
    } else {
        joined(chunks.drop_last()) + chunks.last()
    }
}

/// The body of a request, as far as it is delimited.
pub open spec fn body(s: RequestState) -> Seq<u8> {
    s.data.subrange(s.content_start as int, (s.content_start + s.content_length) as int)
}

/// A request is well-formed when its head is accepted, its body is exactly as long
/// as declared (or it has neither body nor declared length), and the head parser
/// reads a prefix that stops short of the whole head as incomplete, and a prefix
/// that holds it as that same head.
pub open spec fn well_formed_request(bytes: Seq<u8>, max_headers: nat) -> bool {
    match request_head(bytes, max_headers) {
        HeadStatus::Complete(h) => {
            &&& head_accepted(h)
            &&& h.size <= bytes.len()
            &&& match declared_length(h.headers) {
                Some(n) => n + h.size == bytes.len(),
                None => h.size == bytes.len(),
            }
            &&& forall|m: int|
                0 <= m <= bytes.len() ==> (#[trigger] request_head(bytes.take(m), max_headers)
                    == if m < h.size {
                    HeadStatus::Partial
                } else {
                    request_head(bytes, max_headers)
                })
        },
        _ => false,
    }
}

proof fn lemma_fed_prefix(bytes: Seq<u8>, max_headers: nat, chunks: Seq<Seq<u8>>, h: HeadView)
    requires
        well_formed_request(bytes, max_headers),
        request_head(bytes, max_headers) == HeadStatus::Complete(h),
        bytes.len() >= joined(chunks).len(),
        bytes.take(joined(chunks).len() as int) == joined(chunks),
    ensures
        fed(fresh_state(max_headers), chunks).data == joined(chunks),
        fed(fresh_state(max_headers), chunks).max_headers == max_headers,
        fed(fresh_state(max_headers), chunks).stage != ParsingStage::HeadersError,
        ({
            let s = fed(fresh_state(max_headers), chunks);
            stage_headers_complete(s.stage) || s.stage == ParsingStage::Expect100Continue ==> {
                &&& s.headers == head_environ(h)
                &&& s.content_start == h.size
                &&& s.content_length == bytes.len() - h.size
            }
        }),
    decreases chunks.len(),
{
    if chunks.len() > 0 {
        let prev = chunks.drop_last();
        let p = joined(chunks);
        assert(p == joined(prev) + chunks.last());
        assert(bytes.take(joined(prev).len() as int) =~= p.take(joined(prev).len() as int));
        assert(p.take(joined(prev).len() as int) =~= joined(prev));
        lemma_fed_prefix(bytes, max_headers, prev, h);
        let m = p.len() as int;
        assert(bytes.take(m) == p);
        let _ = request_head(bytes.take(m), max_headers);
    }
}

/// Parsing a well-formed request fed in any number of chunks gives the environment
/// entries and the body that parsing it fed at once gives.
pub proof fn lemma_split_parse_agrees(bytes: Seq<u8>, max_headers: nat, chunks: Seq<Seq<u8>>)
    requires
        well_formed_request(bytes, max_headers),
        chunks.len() > 0,
        joined(chunks) == bytes,
    ensures
        fed(fresh_state(max_headers), chunks).headers == fed(
            fresh_state(max_headers),
            seq![bytes],
        ).headers,
        body(fed(fresh_state(max_headers), chunks)) == body(
            fed(fresh_state(max_headers), seq![bytes]),
        ),
{
    let h = request_head(bytes, max_headers)->Complete_0;
    assert(bytes.take(bytes.len() as int) =~= bytes);
    lemma_fed_prefix(bytes, max_headers, chunks, h);
    let once = seq![bytes];
    assert(once.drop_last() =~= seq![]);
    assert(joined(once.drop_last()) =~= seq![]);
    assert(fresh_state(max_headers).data + bytes =~= bytes);
    let _ = request_head(bytes.take(bytes.len() as int), max_headers);
    let prev = chunks.drop_last();
    let before = fed(fresh_state(max_headers), prev);
    let t = RequestState { data: before.data + chunks.last(), ..before };
    assert(t.data == bytes);
    let last = fed(fresh_state(max_headers), chunks);
    assert(last == parsed(t));
    assert(stage_headers_complete(last.stage) || last.stage == ParsingStage::Expect100Continue);
    let first = fed(fresh_state(max_headers), once);
    assert(fed(fresh_state(max_headers), once.drop_last()) == fresh_state(max_headers));
    assert(once.last() == bytes);
    assert(first == fed_one(fresh_state(max_headers), bytes));
    assert(first == parsed(RequestState { data: bytes, ..fresh_state(max_headers) }));
    assert(first.headers == head_environ(h));
    assert(first.content_start == h.size);
}

/// An `Expect` header with any value but `100-continue` (in any case) has a head that
/// is read whole refused.
pub proof fn lemma_unknown_expectation_refused(s: RequestState, h: HeadView, i: int)
    requires
        !stage_headers_complete(s.stage),
        request_head(s.data, s.max_headers) == HeadStatus::Complete(h),
        0 <= i < h.headers.len(),
        is_expect_name(h.headers[i].0),
        upper(h.headers[i].1) != ascii("100-CONTINUE"@),
    ensures
        parsed(s).stage == ParsingStage::HeadersError,
        forall|chunks: Seq<Seq<u8>>| #[trigger] fed(parsed(s), chunks).stage == ParsingStage::HeadersError,
{
    reveal_strlit("CONTENT-LENGTH");
    reveal_strlit("EXPECT");
    assert(ascii("CONTENT-LENGTH"@).len() != ascii("EXPECT"@).len());
    assert(!is_content_length_name(h.headers[i].0));
    assert(!header_accepted(h.headers[i]));
    assert forall|chunks: Seq<Seq<u8>>| #[trigger] fed(parsed(s), chunks).stage
        == ParsingStage::HeadersError by {
        lemma_refusal_is_final(parsed(s), chunks);
    }
}

/// A refused request stays refused, whatever arrives after.
pub proof fn lemma_refusal_is_final(s: RequestState, chunks: Seq<Seq<u8>>)
    requires
        s.stage == ParsingStage::HeadersError,
    ensures
        fed(s, chunks).stage == ParsingStage::HeadersError,
    decreases chunks.len(),
{
    if chunks.len() > 0 {
        lemma_refusal_is_final(s, chunks.drop_last());
    }
}

pub struct WSGIRequest {
    pub data: Vec<u8>,
    pub stage: ParsingStage,
    pub content_length: usize,
    pub content_start: usize,
    pub http_headers: Vec<(String, String)>,
    pub peer_addr: String,
    pub num_headers: usize,
}

impl View for WSGIRequest {
    type V = RequestState;

    open spec fn view(&self) -> RequestState {
        RequestState {
            data: self.data@,
            stage: self.stage,
            content_length: self.content_length as nat,
            content_start: self.content_start as nat,
            headers: headers_view(self.http_headers@),
            max_headers: self.num_headers as nat,
        }
    }
}

fn literal_string(s: &'static str) -> (r: String)
    requires
        is_ascii_chars(s@),
    ensures
        r@ == ascii_text(ascii(s@)),
{
    ascii_string(literal(s))
}

proof fn lemma_query_split(p: Seq<char>, i: int)
    requires
        0 <= i <= p.len(),
        forall|k: int| 0 <= k < i ==> p[k] != '?',
        i < p.len() ==> p[i] == '?',
    ensures
        query_split(p).0 == p.take(i),
        query_split(p).1 == (if i < p.len() {
            p.skip(i + 1)
        } else {
            seq![]
        }),
    decreases p.len(),
{
    if p.len() == 0 {
        assert(p.take(i) =~= seq![]);
    } else if i == 0 {
        assert(p.take(i) =~= seq![]);
        assert(p.skip(1) =~= p.drop_first());
    } else {
        let q = p.drop_first();
        assert forall|k: int| 0 <= k < i - 1 implies q[k] != '?' by {
            assert(q[k] == p[k + 1]);
        }
        lemma_query_split(q, i - 1);
        assert(p.take(i) =~= seq![p[0]] + q.take(i - 1));
        if i < p.len() {
            assert(q.skip(i) =~= p.skip(i + 1));
        }
    }
}

proof fn lemma_upper_ascii(s: Seq<u8>)
    requires
        all_ascii(s),
    ensures
        all_ascii(upper(s)),
        all_ascii(dashes_to_underscores(upper(s))),
{
    assert forall|i: int| 0 <= i < upper(s).len() implies #[trigger] upper(s)[i] < 128 by {
        assert(s[i] < 128);
    }
    let d = dashes_to_underscores(upper(s));
    assert forall|i: int| 0 <= i < d.len() implies #[trigger] d[i] < 128 by {
        assert(upper(s)[i] < 128);
    }
}

/// The environment key of a header, from its upper-cased ASCII name.
fn environ_key_string(uname: &Vec<u8>) -> (r: String)
    requires
        all_ascii(uname@),
    ensures
        forall|name: Seq<u8>| upper(name) == uname@ ==> r@ == ascii_text(#[trigger] environ_key(name)),
{
    proof {
        reveal_strlit("CONTENT-TYPE");
        reveal_strlit("CONTENT_TYPE");
        reveal_strlit("HTTP_");
    }
    if bytes_equal(uname.as_slice(), literal("CONTENT-TYPE").as_slice()) {
        literal_string("CONTENT_TYPE")
    } else {
        let mut key = literal("HTTP_");
        let ghost prefix = key@;
        let mut i: usize = 0;
        while i < uname.len()
            invariant
                i <= uname@.len(),
                all_ascii(uname@),
                all_ascii(prefix),
                key@ =~= prefix + dashes_to_underscores(uname@.take(i as int)),
            decreases uname@.len() - i,
        {
            let b = uname[i];
            key.push(if b == 45 { 95u8 } else { b });
            i += 1;
            assert(dashes_to_underscores(uname@.take(i as int)) =~= dashes_to_underscores(
                uname@.take(i - 1),
            ).push(if b == 45 { 95u8 } else { b }));
        }
        assert(uname@.take(i as int) =~= uname@);
        assert forall|k: int| 0 <= k < key@.len() implies #[trigger] key@[k] < 128 by {
            if k >= prefix.len() {
                assert(uname@[k - prefix.len()] < 128);
            }
        }
        ascii_string(key)
    }
}

impl WSGIRequest {
    pub open spec fn wf(&self) -> bool {
        self.content_start <= self.data@.len()
    }

    pub fn new(num_headers: usize, peer_addr: String) -> (r: WSGIRequest)
        ensures
            r@ == (RequestState {
                data: seq![],
                stage: ParsingStage::NotParsed,
                content_length: 0,
                content_start: 0,
                headers: seq![],
                max_headers: num_headers as nat,
            }),
            r.peer_addr@ == peer_addr@,
            r.wf(),
    {
        let r = WSGIRequest {
            data: Vec::new(),
            stage: ParsingStage::NotParsed,
            content_length: 0,
            content_start: 0,
            http_headers: Vec::new(),
            peer_addr,
            num_headers,
        };
        assert(headers_view(r.http_headers@) =~= seq![]);
        r
    }

    pub fn append(&mut self, data: &[u8])
        ensures
            final(self)@ == (RequestState { data: old(self)@.data + data@, ..old(self)@ }),
            final(self).peer_addr == old(self).peer_addr,
            old(self).wf() ==> final(self).wf(),
    {
        push_all(&mut self.data, data);
    }

    /// Reads the head, if it is not resolved yet, into `content_start`, `content_length`
    /// and the environment entries; returns the stage it leads to.
    fn parse_headers(&mut self) -> (r: ParsingStage)
        requires
            old(self).wf(),
        ensures
            final(self)@ == (RequestState { stage: old(self).stage, ..head_parsed(old(self)@) }),
            r == head_parsed(old(self)@).stage,
            final(self).peer_addr == old(self).peer_addr,
            final(self).wf(),
    {
        let ghost s = self@;
        let head = match parse_request_head(self.data.as_slice(), self.num_headers) {
            Err(_) => {
                return ParsingStage::HeadersError;
            },
            Ok(None) => {
                return ParsingStage::NotParsed;
            },
            Ok(Some(head)) => head,
        };
        let ghost h = head@;
        let ghost hs = h.headers;
        proof {
            reveal_strlit("CONTENT-LENGTH");
            reveal_strlit("EXPECT");
            reveal_strlit("100-CONTINUE");
            reveal_strlit("REQUEST_METHOD");
            reveal_strlit("PATH_INFO");
            reveal_strlit("QUERY_STRING");
            reveal_strlit("SERVER_PROTOCOL");
            reveal_strlit("HTTP/1.0");
            reveal_strlit("HTTP/1.1");
        }
        self.content_start = head.size;
        let mut length: usize = self.data.len() - head.size;
        let mut accepted = true;
        let mut expect = false;
        let mut headers: Vec<(String, String)> = Vec::new();
        let content_length_name = literal("CONTENT-LENGTH");
        let expect_name = literal("EXPECT");
        let continue_value = literal("100-CONTINUE");
        let mut i: usize = 0;
        while i < head.headers.len()
            invariant
                i <= head.headers@.len(),
                h == head@,
                hs == h.headers,
                hs.len() == head.headers@.len(),
                content_length_name@ == ascii("CONTENT-LENGTH"@),
                expect_name@ == ascii("EXPECT"@),
                continue_value@ == ascii("100-CONTINUE"@),
                forall|k: int| 0 <= k < head.headers@.len() ==> all_ascii(#[trigger] head.headers@[k].0@),
                accepted == (forall|k: int| 0 <= k < i ==> header_accepted(#[trigger] hs[k])),
                accepted ==> headers_view(headers@) == environ_headers(hs.take(i as int)),
                expect == expects_continue(hs.take(i as int)),
                length as nat == match declared_length(hs.take(i as int)) {
                    Some(n) => n as nat,
                    None => (s.data.len() - h.size) as nat,
                },
            decreases head.headers@.len() - i,
        {
            let name = &head.headers[i].0;
            let value = &head.headers[i].1;
            let ghost hi = hs[i as int];
            assert(hi == (name@, value@));
            let ghost before = hs.take(i as int);
            assert(hs.take(i + 1).drop_last() =~= before);
            assert(hs.take(i + 1).last() == hi);
            let uname = upper_bytes(name.as_slice());
            if bytes_equal(uname.as_slice(), content_length_name.as_slice()) {
                proof {
                    reveal_strlit("CONTENT-LENGTH");
                    reveal_strlit("EXPECT");
                }
                assert(ascii("CONTENT-LENGTH"@).len() != ascii("EXPECT"@).len());
                assert(!is_expect_name(hi.0));
                match parse_decimal(value.as_slice()) {
                    Some(n) => {
                        length = n;
                    },
                    None => {},
                }
                if string_from_utf8(value.clone()).is_none() {
                    accepted = false;
                }
            } else if bytes_equal(uname.as_slice(), expect_name.as_slice()) {
                expect = true;
                let uvalue = upper_bytes(value.as_slice());
                if !bytes_equal(uvalue.as_slice(), continue_value.as_slice()) {
                    accepted = false;
                }
            } else {
                match string_from_utf8(value.clone()) {
                    Some(v) => {
                        proof {
                            lemma_upper_ascii(name@);
                        }
                        let key = environ_key_string(&uname);
                        let ghost prev = headers@;
                        headers.push((key, v));
                        proof {
                            assert(key@ == ascii_text(environ_key(name@)));
                            if accepted {
                                assert(headers_view(headers@) =~= headers_view(prev).push(
                                    (key@, v@),
                                ));
                            }
                        }
                    },
                    None => {
                        accepted = false;
                    },
                }
            }
            i += 1;
            proof {
                let now = hs.take(i as int);
                assert(now =~= before.push(hi));
                assert forall|k: int| 0 <= k < now.len() implies (#[trigger] now[k]) == hs[k] by {}
                if is_expect_name(hi.0) {
                    assert(is_expect_name(now[now.len() - 1].0));
                }
                if expects_continue(now) {
                    let k = choose|k: int| 0 <= k < now.len() && is_expect_name(#[trigger] now[k].0);
                    if k < before.len() {
                        assert(before[k] == now[k]);
                    }
                }
                if expects_continue(before) {
                    let k = choose|k: int| 0 <= k < before.len() && is_expect_name(#[trigger] before[k].0);
                    assert(before[k] == now[k]);
                }
            }
        }
        assert(hs.take(i as int) =~= hs);
        if let Some(method) = &head.method {
            let key = literal_string("REQUEST_METHOD");
            headers.push((key, method.clone()));
        }
        if let Some(path) = &head.path {
            let p = path.as_str();
            let n = p.unicode_len();
            let mut q: usize = 0;
            while q < n && p.get_char(q) != '?'
                invariant
                    q <= n,
                    n == p@.len(),
                    forall|k: int| 0 <= k < q ==> p@[k] != '?',
                decreases n - q,
            {
                q += 1;
            }
            proof {
                lemma_query_split(p@, q as int);
            }
            let before_query = p.substring_char(0, q);
            let query = if q < n {
                p.substring_char(q + 1, n).to_owned()
            } else {
                String::new()
            };
            assert(before_query@ =~= query_split(p@).0);
            assert(query@ =~= query_split(p@).1);
            match url_decode(before_query) {
                Ok(path_info) => {
                    headers.push((literal_string("PATH_INFO"), path_info));
                },
                Err(_) => {
                    accepted = false;
                },
            }
            headers.push((literal_string("QUERY_STRING"), query));
        }
        if let Some(version) = head.version {
            if version > 1 {
                accepted = false;
            } else {
                let protocol = if version == 0 {
                    literal_string("HTTP/1.0")
                } else {
                    literal_string("HTTP/1.1")
                };
                headers.push((literal_string("SERVER_PROTOCOL"), protocol));
            }
        }
        self.content_length = length;
        assert(accepted == head_accepted(h));
        if accepted {
            assert(headers_view(headers@) =~= head_environ(h));
            self.http_headers = headers;
        } else {
            self.http_headers = Vec::new();
            assert(headers_view(self.http_headers@) =~= seq![]);
        }
        if !accepted {
            ParsingStage::HeadersError
        } else if expect && self.stage != ParsingStage::Expect100Continue {
            ParsingStage::Expect100Continue
        } else {
            ParsingStage::HeadersSuccess
        }
    }

    /// Parses what has arrived so far; returns whether the request is complete, that is
    /// ready for the application or refused.
    pub fn parse_data(&mut self) -> (r: bool)
        requires
            old(self).wf(),
        ensures
            final(self)@ == parsed(old(self)@),
            r == stage_complete(final(self).stage),
            final(self).peer_addr == old(self).peer_addr,
            final(self).wf(),
    {
        if !self.stage.headers_complete() && self.stage != ParsingStage::HeadersError {
            self.stage = self.parse_headers();
        }
        if self.stage.headers_complete() && !self.stage.expect_100_continue() {
            let length = self.data.len();
            self.stage = if self.content_length > length - self.content_start {
                ParsingStage::ContentPartial
            } else {
                ParsingStage::ContentComplete
            };
        }
        self.stage.complete()
    }

    /// The body as far as it is delimited.
    pub fn body(&self) -> (r: Vec<u8>)
        requires
            self.content_start + self.content_length <= self.data@.len(),
        ensures
            r@ == body(self@),
    {
        let mut r: Vec<u8> = Vec::new();
        let n = self.data.len();
        let mut i: usize = self.content_start;
        let end = self.content_start + self.content_length;
        assert(end <= n);
        while i < end
            invariant
                self.content_start <= i <= end <= self.data@.len(),
                end == self.content_start + self.content_length,
                r@ =~= self.data@.subrange(self.content_start as int, i as int),
            decreases end - i,
        {
            r.push(self.data[i]);
            i += 1;
        }
        r
    }

    pub fn is_bad_request(&self) -> (r: bool)
        ensures
            r == (self.stage == ParsingStage::HeadersError),
    {
        self.stage == ParsingStage::HeadersError
    }
}

} // verus!
