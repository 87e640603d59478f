use http_rs::connection::{read_is_complete, read_step, ConnectionMachine, Pending, ReadDecision, ReadResult, ReadStep, ReadStrategy};
use http_rs::request::Request;
use http_rs::response::Response;
use http_rs::response_status_code::ResponseStatusCode;
use http_rs::rules::parser::parse_str;
use http_rs::server::{error_response, prepare_response};
use http_rs::server_config::KeepAliveConfig;

fn pseudo_random(len: usize) -> Vec<u8> {
    (0..len).map(|i| ((i * 7 + 3) % 251) as u8 & 0x7f | 0x20).collect()
}

/// Reads `source` the way the transport does: chunks of at most 1024 bytes
/// until the strategy is satisfied or nothing is left.
fn read_all(source: &[u8], strategy: ReadStrategy) -> Vec<u8> {
    let mut buf = vec![];
    let mut at = 0;
    loop {
        let end = usize::min(at + 1024, source.len());
        let chunk = &source[at..end];
        at = end;
        if read_step(&mut buf, chunk, strategy) == ReadStep::Done {
            return buf;
        }
    }
}

#[test]
fn reads_all_bytes_until_double_crlf_at_end() {
    let mut read_buf = pseudo_random(734);
    read_buf[730..].copy_from_slice(b"\r\n\r\n");
    let read_bytes = read_all(&read_buf, ReadStrategy::UntilDoubleCrlf);
    assert_eq!(read_bytes.len(), 734);
}

#[test]
fn reads_all_bytes_until_double_crlf_mid_way() {
    let mut read_buf = pseudo_random(395);
    read_buf[237] = b'\r';
    read_buf[238] = b'\n';
    read_buf[239] = b'\r';
    read_buf[240] = b'\n';
    let read_bytes = read_all(&read_buf, ReadStrategy::UntilDoubleCrlf);
    assert_eq!(read_bytes.len(), 395);
}

#[test]
fn reads_all_bytes_until_no_bytes() {
    let read_buf = pseudo_random(501);
    let read_bytes = read_all(&read_buf, ReadStrategy::UntilNoBytesRead(501));
    assert_eq!(read_bytes.len(), 501);
}

#[test]
fn returns_empty_vec_if_read_nothing() {
    let read_bytes = read_all(&[], ReadStrategy::UntilDoubleCrlf);
    assert_eq!(read_bytes.len(), 0);
}

#[test]
fn double_crlf_is_found_anywhere() {
    assert!(read_is_complete(b"ab\r\n\r\ncd", ReadStrategy::UntilDoubleCrlf));
    assert!(!read_is_complete(b"ab\r\n\rcd\n", ReadStrategy::UntilDoubleCrlf));
    let mut buf = b"GET / HTTP/1.1\r\n".to_vec();
    assert_eq!(read_step(&mut buf, b"\r\nextra", ReadStrategy::UntilDoubleCrlf), ReadStep::Done);
    assert_eq!(buf.len(), 23);
}

#[test]
fn n_bytes_strategy_stops_at_the_count() {
    let mut buf = vec![];
    assert_eq!(read_step(&mut buf, &[1, 2], ReadStrategy::UntilNoBytesRead(3)), ReadStep::More);
    assert_eq!(read_step(&mut buf, &[3], ReadStrategy::UntilNoBytesRead(3)), ReadStep::Done);
    assert_eq!(buf, vec![1, 2, 3]);
    assert!(read_is_complete(&[0; 5], ReadStrategy::UntilNoBytesRead(5)));
    assert!(!read_is_complete(&[0; 4], ReadStrategy::UntilNoBytesRead(5)));
}

fn dispatched(d: ReadDecision) -> Request {
    match d {
        ReadDecision::Dispatch(r) => r,
        other => panic!("expected a complete request, got {other:?}"),
    }
}

fn pending(d: ReadDecision) -> Pending {
    match d {
        ReadDecision::ReadMore(p) => p,
        other => panic!("expected more to read, got {other:?}"),
    }
}

/// The handler the server's tests install: "Ok" for GET /, the request body
/// echoed otherwise.
fn handler(request: &Request) -> Response {
    if request.method == http_rs::request_method::RequestMethod::Get {
        Response::builder()
            .header("Content-Type", "text/html; charset=utf-8")
            .text_body("Ok")
            .get()
    } else {
        Response::builder().body(request.body.clone()).get()
    }
}

#[test]
fn get_with_keep_alive_disabled() {
    let mut machine = ConnectionMachine::new(KeepAliveConfig::Off);
    let request = dispatched(ConnectionMachine::on_read(None, ReadResult::Bytes(b"GET / HTTP/1.1\r\nHost: x\r\n\r\n".to_vec())));
    assert!(prepare_response(&request, None, KeepAliveConfig::Off).is_none());
    let (bytes, close) = machine.send_response(Some(&request), handler(&request), &vec![], false);
    assert!(close);
    assert_eq!(
        String::from_utf8(bytes).unwrap(),
        "HTTP/1.1 200 OK\r\nContent-Type: text/html; charset=utf-8\r\nContent-Length: 2\r\nConnection: close\r\n\r\nOk"
    );
}

#[test]
fn post_echo() {
    let mut machine = ConnectionMachine::new(KeepAliveConfig::default_on());
    let request = dispatched(ConnectionMachine::on_read(
        None,
        ReadResult::Bytes(b"POST / HTTP/1.1\r\nContent-Length: 3\r\n\r\n\x01\x02\x03".to_vec()),
    ));
    let (bytes, close) = machine.send_response(Some(&request), handler(&request), &vec![], false);
    assert!(!close);
    assert_eq!(bytes, b"HTTP/1.1 200 OK\r\nContent-Length: 3\r\n\r\n\x01\x02\x03".to_vec());
    assert_eq!(machine.served_count(), 1);
}

#[test]
fn bad_framing_is_400_and_closes() {
    let mut machine = ConnectionMachine::new(KeepAliveConfig::default_on());
    match ConnectionMachine::on_read(None, ReadResult::Bytes(b"GET / HTTP/1.1Host: localhost\r\n\r\n".to_vec())) {
        ReadDecision::ClientError(None, ResponseStatusCode::BadRequest) => {},
        other => panic!("expected 400, got {other:?}"),
    }
    let (bytes, close) = machine.send_response(None, error_response(None, ResponseStatusCode::BadRequest), &vec![], true);
    assert!(close);
    assert!(bytes.starts_with(b"HTTP/1.1 400 Bad Request\r\n"));
}

#[test]
fn idle_timeout_is_408() {
    match ConnectionMachine::on_read(None, ReadResult::TimedOut) {
        ReadDecision::ClientError(None, ResponseStatusCode::RequestTimeout) => {},
        other => panic!("expected 408, got {other:?}"),
    }
    let mut machine = ConnectionMachine::new(KeepAliveConfig::default_on());
    let (bytes, close) = machine.send_response(None, error_response(None, ResponseStatusCode::RequestTimeout), &vec![], true);
    assert!(close);
    assert_eq!(bytes, b"HTTP/1.1 408 Request Timeout\r\nConnection: close\r\n\r\n".to_vec());
}

#[test]
fn segmented_chunked_upload() {
    let first = b"POST / HTTP/1.1\r\nTransfer-Encoding: chunked\r\n\r\n3\r\n123\r\n".to_vec();
    let p = pending(ConnectionMachine::on_read(None, ReadResult::Bytes(first)));
    assert_eq!(ConnectionMachine::read_strategy(&Some(p)), ReadStrategy::UntilDoubleCrlf);
    let p = pending(ConnectionMachine::on_read(None, ReadResult::Bytes(b"POST / HTTP/1.1\r\nTransfer-Encoding: chunked\r\n\r\n3\r\n123\r\n".to_vec())));
    let p = pending(ConnectionMachine::on_read(Some(p), ReadResult::Bytes(b"5\r\n45678\r\n".to_vec())));
    let p = pending(ConnectionMachine::on_read(Some(p), ReadResult::Bytes(b"1\r\n9\r\n".to_vec())));
    let request = dispatched(ConnectionMachine::on_read(Some(p), ReadResult::Bytes(b"0\r\n\r\n".to_vec())));
    assert_eq!(request.body, b"123456789".to_vec());
    let mut machine = ConnectionMachine::new(KeepAliveConfig::default_on());
    let (bytes, _) = machine.send_response(Some(&request), handler(&request), &vec![], false);
    assert!(String::from_utf8(bytes).unwrap().ends_with("Content-Length: 9\r\n\r\n123456789"));
}

#[test]
fn whole_chunked_upload_in_one_read() {
    let request = dispatched(ConnectionMachine::on_read(
        None,
        ReadResult::Bytes(b"POST / HTTP/1.1\r\nTransfer-Encoding: chunked\r\n\r\n4\r\n1234\r\n4\r\n5678\r\n0\r\n\r\n".to_vec()),
    ));
    assert_eq!(request.body, b"12345678".to_vec());
}

#[test]
fn request_split_in_two_writes_is_one_request() {
    let mut buf = vec![];
    assert_eq!(read_step(&mut buf, b"GET /index.html HT", ReadStrategy::UntilDoubleCrlf), ReadStep::More);
    assert_eq!(read_step(&mut buf, b"TP/1.1\r\nHost: x\r\n\r\n", ReadStrategy::UntilDoubleCrlf), ReadStep::Done);
    let request = dispatched(ConnectionMachine::on_read(None, ReadResult::Bytes(buf)));
    assert_eq!(request.url, "/index.html");
}

#[test]
fn body_split_across_reads() {
    let p = pending(ConnectionMachine::on_read(None, ReadResult::Bytes(b"POST / HTTP/1.1\r\nContent-Length: 4\r\n\r\nab".to_vec())));
    assert_eq!(ConnectionMachine::read_strategy(&Some(p)), ReadStrategy::UntilNoBytesRead(2));
    let p = pending(ConnectionMachine::on_read(None, ReadResult::Bytes(b"POST / HTTP/1.1\r\nContent-Length: 4\r\n\r\nab".to_vec())));
    let request = dispatched(ConnectionMachine::on_read(Some(p), ReadResult::Bytes(b"cd".to_vec())));
    assert_eq!(request.body, b"abcd".to_vec());
}

#[test]
fn over_read_is_400() {
    let p = pending(ConnectionMachine::on_read(None, ReadResult::Bytes(b"POST / HTTP/1.1\r\nContent-Length: 4\r\n\r\nab".to_vec())));
    match ConnectionMachine::on_read(Some(p), ReadResult::Bytes(b"cdef".to_vec())) {
        ReadDecision::ClientError(Some(_), ResponseStatusCode::BadRequest) => {},
        other => panic!("expected 400, got {other:?}"),
    }
}

#[test]
fn peer_close_and_failures() {
    assert!(matches!(ConnectionMachine::on_read(None, ReadResult::Bytes(vec![])), ReadDecision::Close));
    assert!(matches!(ConnectionMachine::on_read(None, ReadResult::Reset), ReadDecision::Close));
    let q = pending(ConnectionMachine::on_read(None, ReadResult::Bytes(b"POST / HTTP/1.1\r\nContent-Length: 4\r\n\r\n".to_vec())));
    assert!(matches!(ConnectionMachine::on_read(Some(q), ReadResult::Reset), ReadDecision::Close));
    assert!(matches!(ConnectionMachine::on_read(None, ReadResult::Failed), ReadDecision::Fail));
    let p = pending(ConnectionMachine::on_read(None, ReadResult::Bytes(b"POST / HTTP/1.1\r\nContent-Length: 4\r\n\r\n".to_vec())));
    assert!(matches!(
        ConnectionMachine::on_read(Some(p), ReadResult::TimedOut),
        ReadDecision::ClientError(Some(_), ResponseStatusCode::BadRequest)
    ));
}

#[test]
fn keep_alive_budget_and_connection_close() {
    let mut machine = ConnectionMachine::new(KeepAliveConfig::On { max_requests: 2, timeout: 5, include_header: false });
    let request = dispatched(ConnectionMachine::on_read(None, ReadResult::Bytes(b"GET / HTTP/1.1\r\n\r\n".to_vec())));
    let (_, close) = machine.send_response(Some(&request), handler(&request), &vec![], false);
    assert!(!close);
    let (bytes, close) = machine.send_response(Some(&request), handler(&request), &vec![], false);
    assert!(close);
    assert!(String::from_utf8(bytes).unwrap().contains("Connection: close\r\n"));

    let mut machine = ConnectionMachine::new(KeepAliveConfig::default_on());
    let asks = dispatched(ConnectionMachine::on_read(None, ReadResult::Bytes(b"GET / HTTP/1.1\r\nConnection: Close\r\n\r\n".to_vec())));
    let (_, close) = machine.send_response(Some(&asks), handler(&asks), &vec![], false);
    assert!(close);
}

#[test]
fn rules_run_before_sending() {
    let rules = parse_str("matches /old.html { redirect 301 \"/new.html\"; }").unwrap();
    let mut machine = ConnectionMachine::new(KeepAliveConfig::Off);
    let request = dispatched(ConnectionMachine::on_read(None, ReadResult::Bytes(b"GET /old.html HTTP/1.1\r\n\r\n".to_vec())));
    let response = error_response(Some(&request), ResponseStatusCode::NotFound);
    let (bytes, _) = machine.send_response(Some(&request), response, &rules, false);
    let text = String::from_utf8(bytes).unwrap();
    assert!(text.starts_with("HTTP/1.1 301 Moved Permanently\r\n"));
    assert!(text.contains("Location: /new.html\r\n"));
}
