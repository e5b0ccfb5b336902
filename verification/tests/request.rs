use salt_proxier::error::AppError;
use salt_proxier::header::Header;
use salt_proxier::request::{
    build_outbound, forward_headers, target_host, target_url, Method, OutboundRequest, RequestHead,
};

fn head(method: &str, path: &str, query: Option<&str>, headers: &[(&str, &[u8])]) -> RequestHead {
    RequestHead {
        method: method.to_owned(),
        path: path.to_owned(),
        query: query.map(str::to_owned),
        headers: headers.iter().map(|(name, value)| Header::new(name, value)).collect(),
    }
}

fn pairs(headers: &[Header]) -> Vec<(&str, &[u8])> {
    headers.iter().map(|h| (h.name.as_str(), h.value.as_slice())).collect()
}

fn expect(pairs: &[(&'static str, &'static [u8])]) -> Vec<(&'static str, &'static [u8])> {
    pairs.to_vec()
}

#[test]
fn namespaced_headers_are_renamed_and_the_rest_dropped() {
    let inbound = head(
        "GET",
        "/v1/data",
        Some("q=1"),
        &[("Salt-Host", b"example.com"), ("Salt-X-Api-Key", b"abc"), ("Other", b"ignored")],
    );
    let out = build_outbound(&inbound).unwrap();
    assert_eq!(out.method, Method::Get);
    assert_eq!(out.url, "https://example.com/v1/data?q=1");
    assert_eq!(pairs(&out.headers), expect(&[("X-Api-Key", b"abc")]));
    assert_eq!(out.body, None);
    assert_eq!(out.skipped_headers, 0);
}

#[test]
fn full_origin_is_not_given_a_second_scheme() {
    let inbound = head("GET", "/ping", None, &[("Salt-Host", b"http://internal:9090")]);
    assert_eq!(build_outbound(&inbound).unwrap().url, "http://internal:9090/ping");
}

#[test]
fn target_url_formula() {
    assert_eq!(target_url("example.com", "/a/b", None), "https://example.com/a/b");
    assert_eq!(target_url("example.com", "/a", Some("x=1&y=2")), "https://example.com/a?x=1&y=2");
    assert_eq!(target_url("https://example.com", "/", None), "https://example.com/");
    assert_eq!(target_url("http://example.com", "", Some("")), "http://example.com?");
    assert_eq!(target_url("", "/", None), "https:///");
    assert_eq!(target_url("HTTP://example.com", "/", None), "https://HTTP://example.com/");
    assert_eq!(target_url("http:/example.com", "/", None), "https://http:/example.com/");
    assert_eq!(target_url("ftp://example.com", "/", None), "https://ftp://example.com/");
    assert_eq!(target_url("http://", "/p", Some("q")), "http:///p?q");
    assert_eq!(target_url("https://", "", None), "https://");
    assert_eq!(target_url("https:/", "", None), "https://https:/");
}

#[test]
fn missing_target_host_is_an_error_for_every_method_and_path() {
    for method in ["GET", "POST", "PUT", "DELETE", "PATCH", "HEAD", "OPTIONS", "TRACE", ""] {
        for path in ["/", "/a/b", ""] {
            for query in [None, Some("q=1")] {
                let inbound =
                    head(method, path, query, &[("Host", b"here"), ("Salt-X", b"1"), ("Salt-Hos", b"x")]);
                let error = build_outbound(&inbound).unwrap_err();
                assert_eq!(error, AppError::MissingHeader("Salt-Host".to_owned()));
                assert_eq!(error.status(), 400);
            }
        }
    }
}

#[test]
fn target_host_name_is_matched_in_any_case() {
    for name in ["Salt-Host", "salt-host", "SALT-HOST", "sAlT-hOsT"] {
        let headers = vec![Header::new(name, b"example.com")];
        assert_eq!(target_host(&headers), Some("example.com".to_owned()));
    }
    let headers = vec![Header::new("Salt-Host ", b"example.com")];
    assert_eq!(target_host(&headers), None);
    assert_eq!(target_host(&Vec::new()), None);
}

#[test]
fn first_target_host_decides() {
    let headers = vec![
        Header::new("Other", b"x"),
        Header::new("salt-host", b"first.example"),
        Header::new("Salt-Host", b"second.example"),
    ];
    assert_eq!(target_host(&headers), Some("first.example".to_owned()));
}

#[test]
fn target_host_must_be_visible_text() {
    let bad: [&[u8]; 5] = [b"caf\xc3\xa9.example", b"a\x7fb", b"a\nb", b"\x00", b"\x1f"];
    for value in bad {
        let headers = vec![Header::new("Salt-Host", value), Header::new("Salt-Host", b"ok.example")];
        assert_eq!(target_host(&headers), None);
        let inbound = head("GET", "/", None, &[("Salt-Host", value)]);
        assert_eq!(
            build_outbound(&inbound),
            Err(AppError::MissingHeader("Salt-Host".to_owned()))
        );
    }
    let headers = vec![Header::new("Salt-Host", b"a b\tc~ !")];
    assert_eq!(target_host(&headers), Some("a b\tc~ !".to_owned()));
    let headers = vec![Header::new("Salt-Host", b"")];
    assert_eq!(target_host(&headers), Some(String::new()));
}

#[test]
fn target_host_is_not_a_changed_copy_of_its_bytes() {
    let every_text_byte: Vec<u8> = (32u8..127).chain(std::iter::once(9)).collect();
    let headers = vec![Header::new("Salt-Host", &every_text_byte)];
    let host = target_host(&headers).unwrap();
    assert_eq!(host.as_bytes(), every_text_byte.as_slice());
}

#[test]
fn forwarded_headers_keep_order_and_repeats() {
    let headers = vec![
        Header::new("salt-b", b"1"),
        Header::new("Accept", b"*/*"),
        Header::new("SALT-a", b"2"),
        Header::new("Salt-Host", b"example.com"),
        Header::new("Salt-b", b"3"),
        Header::new("Salt", b"4"),
        Header::new("XSalt-c", b"5"),
    ];
    let (out, skipped) = forward_headers(&headers);
    assert_eq!(pairs(&out), expect(&[("b", b"1"), ("a", b"2"), ("b", b"3")]));
    assert_eq!(skipped, 0);
}

#[test]
fn salt_host_is_never_forwarded_in_any_case() {
    let headers = vec![
        Header::new("salt-host", b"a"),
        Header::new("SALT-HOST", b"b"),
        Header::new("Salt-Hostname", b"c"),
    ];
    let (out, skipped) = forward_headers(&headers);
    assert_eq!(pairs(&out), expect(&[("Hostname", b"c")]));
    assert_eq!(skipped, 0);
}

#[test]
fn unsendable_headers_are_skipped_and_counted() {
    let long_name = format!("Salt-{}", "a".repeat(65536));
    let longest_name = format!("Salt-{}", "a".repeat(65535));
    let headers = vec![
        Header::new("Salt-", b"empty name"),
        Header::new("Salt-Bad Name", b"space in name"),
        Header::new("Salt-Bad:Name", b"colon in name"),
        Header::new("Salt-N\u{e9}", b"not ascii"),
        Header::new("Salt-Good", b"line\nbreak"),
        Header::new("Salt-Good", b"del\x7f"),
        Header::new("Salt-Good", b"nul\x00"),
        Header::new(&long_name, b"too long"),
        Header::new(&longest_name, b"just fits"),
        Header::new("Salt-Good", b"latin\xe9 and tab\t"),
        Header::new("Salt-!#$%&'*+-.^_`|~09azAZ", b""),
        Header::new("Not-Namespaced Bad", b"\n"),
    ];
    let (out, skipped) = forward_headers(&headers);
    assert_eq!(
        pairs(&out),
        vec![
            (&longest_name[5..], &b"just fits"[..]),
            ("Good", &b"latin\xe9 and tab\t"[..]),
            ("!#$%&'*+-.^_`|~09azAZ", &b""[..]),
        ]
    );
    assert_eq!(skipped, 8);
}

#[test]
fn every_name_character_is_judged_as_the_wire_format_says() {
    let allowed = "!#$%&'*+-.^_`|~0123456789abcdefghijklmnopqrstuvwxyzABCDEFGHIJKLMNOPQRSTUVWXYZ";
    for code in 0u32..=255 {
        let c = char::from_u32(code).unwrap();
        let name = format!("Salt-x{}", c);
        let (out, skipped) = forward_headers(&vec![Header::new(&name, b"v")]);
        if allowed.contains(c) {
            assert_eq!(pairs(&out), vec![(&name[5..], &b"v"[..])], "character {:?}", c);
            assert_eq!(skipped, 0);
        } else {
            assert!(out.is_empty(), "character {:?}", c);
            assert_eq!(skipped, 1);
        }
    }
}

#[test]
fn every_value_byte_is_judged_as_the_wire_format_says() {
    for byte in 0u8..=255 {
        let value = [b'a', byte, b'z'];
        let (out, skipped) = forward_headers(&vec![Header::new("Salt-V", &value)]);
        let sendable = (byte >= 32 && byte != 127) || byte == 9;
        if sendable {
            assert_eq!(pairs(&out), vec![("V", &value[..])], "byte {}", byte);
            assert_eq!(skipped, 0);
        } else {
            assert!(out.is_empty(), "byte {}", byte);
            assert_eq!(skipped, 1);
        }
        let text = (32..127).contains(&byte) || byte == 9;
        let host = target_host(&vec![Header::new("Salt-Host", &value)]);
        assert_eq!(host.is_some(), text, "byte {}", byte);
    }
}

#[test]
fn methods_outside_the_closed_set_become_get() {
    assert_eq!(Method::from_name("GET"), Method::Get);
    assert_eq!(Method::from_name("POST"), Method::Post);
    assert_eq!(Method::from_name("PUT"), Method::Put);
    assert_eq!(Method::from_name("DELETE"), Method::Delete);
    assert_eq!(Method::from_name("PATCH"), Method::Patch);
    assert_eq!(Method::from_name("HEAD"), Method::Head);
    assert_eq!(Method::from_name("OPTIONS"), Method::Options);
    for other in ["TRACE", "CONNECT", "QUERY", "PROPFIND", "post", "Post", "POST ", "", "POSTS"] {
        assert_eq!(Method::from_name(other), Method::Get, "method {:?}", other);
    }
}

#[test]
fn build_outbound_maps_the_method() {
    let inbound = head("DELETE", "/item/7", None, &[("Salt-Host", b"example.com")]);
    assert_eq!(build_outbound(&inbound).unwrap().method, Method::Delete);
    let inbound = head("TRACE", "/item/7", None, &[("Salt-Host", b"example.com")]);
    assert_eq!(build_outbound(&inbound).unwrap().method, Method::Get);
}

#[test]
fn build_outbound_counts_skipped_headers() {
    let inbound = head(
        "POST",
        "/",
        Some(""),
        &[("Salt-Host", b"example.com"), ("Salt-", b"x"), ("Salt-Ok", b"y"), ("Salt-Z", b"\r")],
    );
    let out = build_outbound(&inbound).unwrap();
    assert_eq!(
        out,
        OutboundRequest {
            url: "https://example.com/?".to_owned(),
            method: Method::Post,
            headers: vec![Header::new("Ok", b"y")],
            body: None,
            skipped_headers: 2,
        }
    );
}

#[test]
fn only_a_body_with_bytes_is_attached() {
    let inbound = head("POST", "/", None, &[("Salt-Host", b"example.com")]);
    let with_none = build_outbound(&inbound).unwrap().with_body(Vec::new());
    assert_eq!(with_none.body, None);
    let with_one = build_outbound(&inbound).unwrap().with_body(vec![0]);
    assert_eq!(with_one.body, Some(vec![0]));
    let with_some = build_outbound(&inbound).unwrap().with_body(b"{\"a\":1}".to_vec());
    assert_eq!(with_some.body, Some(b"{\"a\":1}".to_vec()));
    assert_eq!(with_some.url, "https://example.com/");
    assert_eq!(with_some.method, Method::Post);
}
