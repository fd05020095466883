use pyruvate::request::{ParsingStage, WSGIRequest};
use pyruvate::server::{request_action, ReadAction};

fn header<'a>(req: &'a WSGIRequest, key: &str) -> Option<&'a str> {
    req.http_headers
        .iter()
        .find(|(k, _)| k == key)
        .map(|(_, v)| v.as_str())
}

#[test]
fn test_get() {
    let raw = b"GET /foo42?bar=baz HTTP/1.1\r\nAuthorization: Basic YWRtaW46YWRtaW4=\r\nHost: localhost:7878\r\nUser-Agent: Mozilla/5.0 (X11; Ubuntu; Linux x86_64; rv:70.0) Gecko/20100101 Firefox/70.0\r\nAccept: image/webp,*/*\r\nAccept-Language: de-DE,en-US;q=0.7,en;q=0.3\r\nAccept-Encoding: gzip, deflate\r\nConnection: keep-alive\r\nCookie: foo_language=en;\r\nDNT: 1\r\n\r\n";
    let mut got = WSGIRequest::new(16, String::new());
    got.append(raw);
    got.parse_data();
    assert!(got.http_headers.len() == 13);
    for (name, value) in got.http_headers.iter() {
        match name.as_str() {
            "HTTP_COOKIE" => assert!(&value[..] == "foo_language=en;"),
            "PATH_INFO" => assert!(&value[..] == "/foo42"),
            "QUERY_STRING" => assert!(&value[..] == "bar=baz"),
            "HTTP_ACCEPT" => assert!(&value[..] == "image/webp,*/*"),
            "HTTP_ACCEPT_LANGUAGE" => assert!(&value[..] == "de-DE,en-US;q=0.7,en;q=0.3"),
            "HTTP_ACCEPT_ENCODING" => assert!(&value[..] == "gzip, deflate"),
            "HTTP_AUTHORIZATION" => assert!(&value[..] == "Basic YWRtaW46YWRtaW4="),
            "HTTP_CONNECTION" => assert!(&value[..] == "keep-alive"),
            "REQUEST_METHOD" => assert!(&value[..] == "GET"),
            "HTTP_HOST" => assert!(&value[..] == "localhost:7878"),
            "HTTP_USER_AGENT" => {
                let expected =
                    "Mozilla/5.0 (X11; Ubuntu; Linux x86_64; rv:70.0) Gecko/20100101 Firefox/70.0";
                assert_eq!(value, expected);
            }
            "HTTP_DNT" => assert_eq!(&value[..], "1"),
            "SERVER_PROTOCOL" => assert_eq!(&value[..], "HTTP/1.1"),
            &_ => {}
        }
    }
}

#[test]
fn test_url_decode() {
    let raw = b"GET /foo%2042?bar=baz%20foo&next=newsletter%3D%252F434%252F%252F2021-03-05%26rw%3Dtrue HTTP/1.1\r\nHost: localhost:7878\r\nUser-Agent: Mozilla/5.0 (X11; Ubuntu; Linux x86_64; rv:70.0) Gecko/20100101 Firefox/70.0\r\nAccept: image/webp,*/*\r\nAccept-Language: de-DE,en-US;q=0.7,en;q=0.3\r\nAccept-Encoding: gzip, deflate\r\nConnection: keep-alive\r\nCookie: foo_language=en;\r\nDNT: 1\r\n\r\n";
    let mut got = WSGIRequest::new(16, String::new());
    got.append(raw);
    got.parse_data();
    assert!(got.http_headers.len() == 12);
    for (name, value) in got.http_headers.iter() {
        match name.as_str() {
            "HTTP_COOKIE" => assert!(&value[..] == "foo_language=en;"),
            "PATH_INFO" => assert!(&value[..] == "/foo 42"),
            "QUERY_STRING" => assert!(
                &value[..]
                    == "bar=baz%20foo&next=newsletter%3D%252F434%252F%252F2021-03-05%26rw%3Dtrue"
            ),
            "HTTP_ACCEPT" => assert!(&value[..] == "image/webp,*/*"),
            "HTTP_ACCEPT_LANGUAGE" => assert!(&value[..] == "de-DE,en-US;q=0.7,en;q=0.3"),
            "HTTP_ACCEPT_ENCODING" => assert!(&value[..] == "gzip, deflate"),
            "HTTP_AUTHORIZATION" => assert!(&value[..] == "Basic YWRtaW46YWRtaW4="),
            "HTTP_CONNECTION" => assert!(&value[..] == "keep-alive"),
            "REQUEST_METHOD" => assert!(&value[..] == "GET"),
            "HTTP_HOST" => assert!(&value[..] == "localhost:7878"),
            "HTTP_USER_AGENT" => {
                let expected =
                    "Mozilla/5.0 (X11; Ubuntu; Linux x86_64; rv:70.0) Gecko/20100101 Firefox/70.0";
                assert_eq!(value, expected);
            }
            "HTTP_DNT" => assert_eq!(&value[..], "1"),
            "SERVER_PROTOCOL" => assert_eq!(&value[..], "HTTP/1.1"),
            &_ => {}
        }
    }
}

#[test]
fn test_error_url() {
    let raw = b"GET /foo 42?bar=baz foo HTTP/1.1\r\nHost: localhost:7878\r\nUser-Agent: Mozilla/5.0 (X11; Ubuntu; Linux x86_64; rv:70.0) Gecko/20100101 Firefox/70.0\r\nAccept: image/webp,*/*\r\nAccept-Language: de-DE,en-US;q=0.7,en;q=0.3\r\nAccept-Encoding: gzip, deflate\r\nConnection: keep-alive\r\nCookie: foo_language=en;\r\nDNT: 1\r\n\r\n";
    let mut got = WSGIRequest::new(16, String::new());
    got.append(raw);
    match got.parse_data() {
        true => {
            assert!(got.stage == ParsingStage::HeadersError);
        }
        false => assert!(false),
    }
}

#[test]
fn test_parse_body_once() {
    let raw = b"POST /test HTTP/1.1\r\nHost: foo.example\r\nContent-Type: application/x-www-form-urlencoded\r\nContent-Length: 27\r\n\r\nfield1=value1&field2=value2";
    let mut got = WSGIRequest::new(16, String::new());
    got.append(raw);
    got.parse_data();
    assert!(got.stage.complete());
    for (name, value) in got.http_headers.iter() {
        match name.as_str() {
            "CONTENT_TYPE" => {
                let expected = "application/x-www-form-urlencoded";
                assert_eq!(value, expected);
            }
            &_ => {}
        }
    }
    let body = &got.data[got.content_start..got.content_start + got.content_length];
    assert_eq!(body, b"field1=value1&field2=value2");
}

#[test]
fn test_parse_multiple() {
    let raw1 = b"POST /test HTTP/1.1\r\nHost: foo.example\r\nContent-Type: application/x-www-form-urlencoded\r\nContent-Length: 41\r\n\r\nfield1=value1&field2=value2";
    let raw2 = b"&field3=value3";
    let mut got = WSGIRequest::new(16, String::new());
    got.append(raw1);
    got.parse_data();
    assert!(!got.stage.complete());
    assert!(got.content_length == 41);
    got.append(raw2);
    got.parse_data();
    assert!(got.stage.complete());
    assert!(got.content_length == 41);
    for (name, value) in got.http_headers.iter() {
        match name.as_str() {
            "CONTENT_TYPE" => {
                let expected = "application/x-www-form-urlencoded";
                assert_eq!(expected, value);
            }
            &_ => {}
        }
    }
    let expected = b"field1=value1&field2=value2&field3=value3";
    let body = &got.data[got.content_start..got.content_start + got.content_length];
    assert!(body.iter().zip(expected.iter()).all(|(p, q)| p == q));
}

#[test]
fn test_parse_expect_continue() {
    let raw = b"POST /test HTTP/1.1\r\nHost: foo.example\r\nContent-Type: application/x-www-form-urlencoded\r\nContent-Length: 27\r\nExpect: 100-continue\r\n\r\n";
    let body = b"field1=value1&field2=value2";
    let mut got = WSGIRequest::new(16, String::new());
    got.append(raw);
    got.parse_data();
    assert!(!got.stage.headers_complete());
    assert!(!got.stage.complete());
    assert!(got.stage.expect_100_continue());
    got.append(body);
    got.parse_data();
    assert!(got.stage.headers_complete());
    assert!(got.stage.complete());
    assert!(!got.stage.expect_100_continue());
    let body = &got.data[got.content_start..got.content_start + got.content_length];
    assert_eq!(body, b"field1=value1&field2=value2");
    let raw = b"POST /test HTTP/1.1\r\nHost: foo.example\r\nContent-Type: application/x-www-form-urlencoded\r\nContent-Length: 27\r\nExpect: 101-whatever\r\n\r\n";
    let mut got = WSGIRequest::new(16, String::new());
    got.append(raw);
    got.parse_data();
    assert!(!got.stage.headers_complete());
    assert!(got.stage.complete());
    assert!(!got.stage.expect_100_continue());
    assert_eq!(got.stage, ParsingStage::HeadersError);
    got.append(body);
    got.parse_data();
    assert!(!got.stage.headers_complete());
    assert!(got.stage.complete());
    assert!(!got.stage.expect_100_continue());
    assert_eq!(got.stage, ParsingStage::HeadersError);
}

#[test]
fn test_parsing_stages() {
    assert!(ParsingStage::HeadersSuccess.headers_complete());
    assert!(!ParsingStage::HeadersError.headers_complete());
    assert!(!ParsingStage::Expect100Continue.headers_complete());
    assert!(!ParsingStage::HeadersSuccess.complete());
    assert!(ParsingStage::ContentComplete.complete());
    assert!(!ParsingStage::Expect100Continue.complete());
}

#[test]
fn split_request_parses_like_whole_request() {
    let raw: &[u8] = b"POST /a%20b?x=1 HTTP/1.1\r\nHost: foo.example\r\nX-Trace-Id: 7\r\nContent-Length: 11\r\n\r\nhello world";
    let mut whole = WSGIRequest::new(16, String::new());
    whole.append(raw);
    whole.parse_data();
    let whole_body =
        whole.data[whole.content_start..whole.content_start + whole.content_length].to_vec();
    for step in 1..raw.len() {
        let mut split = WSGIRequest::new(16, String::new());
        for piece in raw.chunks(step) {
            split.append(piece);
            split.parse_data();
        }
        assert_eq!(split.http_headers, whole.http_headers);
        let body = &split.data[split.content_start..split.content_start + split.content_length];
        assert_eq!(body, &whole_body[..]);
        assert_eq!(split.stage, ParsingStage::ContentComplete);
    }
    assert_eq!(header(&whole, "PATH_INFO"), Some("/a b"));
    assert_eq!(header(&whole, "QUERY_STRING"), Some("x=1"));
    assert_eq!(header(&whole, "HTTP_X_TRACE_ID"), Some("7"));
}

#[test]
fn unknown_expectation_is_refused() {
    let raw = b"PUT /up HTTP/1.1\r\nExpect: 100-Continue-Later\r\nContent-Length: 3\r\n\r\n";
    let mut req = WSGIRequest::new(16, String::new());
    req.append(raw);
    assert!(req.parse_data());
    assert!(req.is_bad_request());
    let raw = b"PUT /up HTTP/1.1\r\nexpect: 100-CONTINUE\r\nContent-Length: 3\r\n\r\n";
    let mut req = WSGIRequest::new(16, String::new());
    req.append(raw);
    assert!(!req.parse_data());
    assert_eq!(req.stage, ParsingStage::Expect100Continue);
}

#[test]
fn body_in_two_fragments_completes_after_second() {
    let head = b"POST /form HTTP/1.1\r\nHost: localhost\r\nContent-Length: 27\r\n\r\n";
    let mut req = WSGIRequest::new(16, String::new());
    req.append(head);
    req.append(b"field1=value1&");
    assert!(!req.parse_data());
    assert_eq!(req.stage, ParsingStage::ContentPartial);
    assert_eq!(req.content_length, 27);
    req.append(b"field2=value2");
    assert!(req.parse_data());
    assert_eq!(req.stage, ParsingStage::ContentComplete);
    assert_eq!(req.content_length, 27);
}

#[test]
fn malformed_request_line_is_bad_request() {
    let mut req = WSGIRequest::new(16, String::new());
    req.append(b"GET /foo bar HTTP/1.1\r\nHost: localhost\r\n\r\n");
    assert!(req.parse_data());
    assert_eq!(req.stage, ParsingStage::HeadersError);
    assert!(req.is_bad_request());
}

#[test]
fn too_many_headers_is_bad_request() {
    let mut req = WSGIRequest::new(2, String::new());
    req.append(b"GET / HTTP/1.1\r\nA: 1\r\nB: 2\r\nC: 3\r\n\r\n");
    assert!(req.parse_data());
    assert!(req.is_bad_request());
}

#[test]
fn non_utf8_header_value_is_bad_request() {
    let mut req = WSGIRequest::new(16, String::new());
    req.append(b"GET / HTTP/1.1\r\nX-Name: \xff\xfe\r\n\r\n");
    assert!(req.parse_data());
    assert!(req.is_bad_request());
}

#[test]
fn invalid_percent_encoding_is_bad_request() {
    let mut req = WSGIRequest::new(16, String::new());
    req.append(b"GET /%ff%fe HTTP/1.1\r\n\r\n");
    assert!(req.parse_data());
    assert!(req.is_bad_request());
}

#[test]
fn content_type_gets_its_own_key_and_length_defaults_to_rest() {
    let mut req = WSGIRequest::new(16, String::new());
    req.append(b"POST /x HTTP/1.0\r\ncontent-type: text/plain\r\n\r\nabc");
    assert!(req.parse_data());
    assert_eq!(header(&req, "CONTENT_TYPE"), Some("text/plain"));
    assert_eq!(header(&req, "SERVER_PROTOCOL"), Some("HTTP/1.0"));
    assert_eq!(header(&req, "QUERY_STRING"), Some(""));
    assert_eq!(req.content_length, 3);
}

#[test]
fn content_length_with_plus_sign_is_read() {
    let mut req = WSGIRequest::new(16, String::new());
    req.append(b"POST /x HTTP/1.1\r\nContent-Length: +4\r\n\r\nab");
    assert!(!req.parse_data());
    assert_eq!(req.content_length, 4);
}

#[test]
fn incomplete_head_waits_for_more() {
    let mut req = WSGIRequest::new(16, String::new());
    req.append(b"GET /foo HTTP/1.1\r\nHost: loc");
    assert_eq!(request_action(&mut req, false), ReadAction::Wait);
    assert_eq!(req.stage, ParsingStage::NotParsed);
    assert_eq!(request_action(&mut req, true), ReadAction::Abort);
    req.append(b"alhost\r\n\r\n");
    assert_eq!(request_action(&mut req, false), ReadAction::Dispatch);
    let mut empty = WSGIRequest::new(16, String::new());
    assert_eq!(request_action(&mut empty, true), ReadAction::Wait);
}

#[test]
fn request_completed_by_last_bytes_before_close_is_dispatched() {
    let mut req = WSGIRequest::new(16, String::new());
    req.append(b"GET /foo HTTP/1.1\r\nHost: localhost\r\n\r\n");
    assert_eq!(request_action(&mut req, true), ReadAction::Dispatch);
}

#[test]
fn expect_continue_asks_for_interim_response() {
    let mut req = WSGIRequest::new(16, String::new());
    req.append(b"POST /x HTTP/1.1\r\nExpect: 100-continue\r\nContent-Length: 2\r\n\r\n");
    assert_eq!(request_action(&mut req, false), ReadAction::SendContinue);
    req.append(b"ok");
    assert_eq!(request_action(&mut req, false), ReadAction::Dispatch);
}

#[test]
fn non_utf8_content_length_is_bad_request() {
    let mut req = WSGIRequest::new(16, String::new());
    req.append(b"POST / HTTP/1.1\r\nContent-Length: \xff\r\n\r\n");
    assert!(req.parse_data());
    assert!(req.is_bad_request());
}

#[test]
fn refused_request_stays_refused() {
    let mut req = WSGIRequest::new(16, String::new());
    req.append(b"GET / HTTP/1.1\r\nExpect: 42\r\n\r\n");
    assert!(req.parse_data());
    assert!(req.is_bad_request());
    req.append(b"more bytes");
    assert!(req.parse_data());
    assert_eq!(req.stage, ParsingStage::HeadersError);
}
