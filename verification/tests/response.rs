use salt_proxier::error::AppError;
use salt_proxier::header::Header;
use salt_proxier::response::{build_inbound_response, relay_headers, InboundResponse, ResponseHead};

fn response_head(status: u16, headers: &[(&str, &[u8])]) -> ResponseHead {
    ResponseHead {
        status,
        headers: headers.iter().map(|(name, value)| Header::new(name, value)).collect(),
    }
}

fn pairs(headers: &[Header]) -> Vec<(&str, &[u8])> {
    headers.iter().map(|h| (h.name.as_str(), h.value.as_slice())).collect()
}

#[test]
fn framing_headers_do_not_come_back() {
    let head = response_head(
        200,
        &[
            ("Content-Type", b"application/json"),
            ("Transfer-Encoding", b"chunked"),
            ("X-Request-Id", b"42"),
            ("Content-Length", b"17"),
            ("Set-Cookie", b"a=1"),
            ("Connection", b"keep-alive"),
            ("Set-Cookie", b"b=2"),
        ],
    );
    let response = build_inbound_response(&head, b"{\"ok\":true}".to_vec()).unwrap();
    assert_eq!(response.status, 200);
    assert_eq!(
        pairs(&response.headers),
        vec![
            ("Content-Type", &b"application/json"[..]),
            ("X-Request-Id", &b"42"[..]),
            ("Set-Cookie", &b"a=1"[..]),
            ("Set-Cookie", &b"b=2"[..]),
        ]
    );
    assert_eq!(response.body, b"{\"ok\":true}");
    assert_eq!(response.skipped_headers, 0);
}

#[test]
fn framing_headers_are_matched_in_any_case() {
    let names = [
        "transfer-encoding",
        "TRANSFER-ENCODING",
        "Transfer-encoding",
        "content-length",
        "CONTENT-LENGTH",
        "cOnTeNt-LeNgTh",
        "connection",
        "CONNECTION",
        "Connection",
    ];
    for name in names {
        let (out, skipped) = relay_headers(&vec![Header::new(name, b"x")]);
        assert!(out.is_empty(), "header {:?}", name);
        assert_eq!(skipped, 0);
    }
}

#[test]
fn near_misses_of_framing_headers_are_kept() {
    let names = [
        "Transfer-Encodings",
        "Content-Lengt",
        "Connections",
        "X-Connection",
        "Content_Length",
        "Keep-Alive",
        "Content-Encoding",
    ];
    for name in names {
        let (out, skipped) = relay_headers(&vec![Header::new(name, b"x")]);
        assert_eq!(pairs(&out), vec![(name, &b"x"[..])]);
        assert_eq!(skipped, 0);
    }
}

#[test]
fn response_headers_are_preserved_verbatim() {
    let headers = vec![
        Header::new("ETag", b"\"abc\""),
        Header::new("x-lower", b""),
        Header::new("X-UPPER", b"latin-1 \xe9\xff and tab\t"),
        Header::new("Vary", b"Accept"),
        Header::new("Vary", b"Origin"),
    ];
    let (out, skipped) = relay_headers(&headers);
    assert_eq!(out, headers);
    assert_eq!(skipped, 0);
}

#[test]
fn unsendable_response_headers_are_skipped_and_counted() {
    let too_long = "a".repeat(65536);
    let longest = "a".repeat(65535);
    let headers = vec![
        Header::new("", b"empty name"),
        Header::new("Bad Name", b"x"),
        Header::new("N\u{e9}", b"x"),
        Header::new("Good", b"line\r\nbreak"),
        Header::new(&too_long, b"x"),
        Header::new(&longest, b"fits"),
        Header::new("Content-Length", b"\n"),
        Header::new("Good", b"kept"),
    ];
    let (out, skipped) = relay_headers(&headers);
    assert_eq!(pairs(&out), vec![(longest.as_str(), &b"fits"[..]), ("Good", &b"kept"[..])]);
    assert_eq!(skipped, 5);
}

#[test]
fn body_is_relayed_byte_for_byte() {
    let head = response_head(200, &[]);
    for n in [0usize, 1, 2, 255, 256, 4096, 1 << 20] {
        let body: Vec<u8> = (0..n).map(|i| (i * 31 % 256) as u8).collect();
        let response = build_inbound_response(&head, body.clone()).unwrap();
        assert_eq!(response.body.len(), n);
        assert_eq!(response.body, body);
    }
    let every_byte: Vec<u8> = (0u8..=255).collect();
    assert_eq!(build_inbound_response(&head, every_byte.clone()).unwrap().body, every_byte);
}

#[test]
fn status_is_mirrored() {
    for status in [100u16, 101, 200, 204, 301, 404, 418, 500, 503, 599, 600, 999] {
        let head = response_head(status, &[("X", b"y")]);
        assert_eq!(
            build_inbound_response(&head, vec![1, 2, 3]),
            Ok(InboundResponse {
                status,
                headers: vec![Header::new("X", b"y")],
                body: vec![1, 2, 3],
                skipped_headers: 0,
            })
        );
    }
}

#[test]
fn a_number_that_is_no_status_code_fails_the_build() {
    for status in [0u16, 1, 99, 1000, 1001, u16::MAX] {
        let head = response_head(status, &[("X", b"y")]);
        let error = build_inbound_response(&head, Vec::new()).unwrap_err();
        assert_eq!(error, AppError::ResponseBuildError);
        assert_eq!(error.status(), 500);
    }
}

#[test]
fn every_status_is_judged_as_the_wire_format_says() {
    for status in 0..=u16::MAX {
        let head = response_head(status, &[]);
        let built = build_inbound_response(&head, Vec::new());
        assert_eq!(built.is_ok(), (100..=999).contains(&status), "status {}", status);
    }
}
