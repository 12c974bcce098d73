use local_gateway::proxy::{
    forwarding_header, plan_forward, proxy_port_or_fallback, rewrite_header, rewrite_value,
    transport_header, value_is_legal, ForwardPlan, Header, ProxyError, ProxyPort,
    FALLBACK_PROXY_PORT,
};
use local_gateway::secrets::SecretMap;

fn header(name: &str, value: &[u8]) -> Header {
    Header { name: name.to_string(), value: value.to_vec() }
}

fn one_secret() -> SecretMap {
    let mut map = SecretMap::new();
    map.insert("OPENAI_KEY".to_string(), "sk-abc".to_string());
    map
}

fn planned(headers: Vec<Header>) -> ForwardPlan {
    plan_forward(Ok(one_secret()), &headers).unwrap()
}

fn pairs(plan: &ForwardPlan) -> Vec<(String, Vec<u8>)> {
    plan.headers.iter().map(|h| (h.name.clone(), h.value.clone())).collect()
}

#[test]
fn models_request_is_forwarded_with_the_secret_filled_in() {
    let plan = planned(vec![
        header("host", b"127.0.0.1:14500"),
        header("x-forward-to", b"https://api.example.com/v1/models"),
        header("authorization", b"Bearer {{OPENAI_KEY}}"),
    ]);
    assert_eq!(plan.url, "https://api.example.com/v1/models");
    assert_eq!(
        pairs(&plan),
        vec![("authorization".to_string(), b"Bearer sk-abc".to_vec())]
    );
}

#[test]
fn request_without_forwarding_header_is_a_bad_request() {
    let headers = vec![header("authorization", b"Bearer {{OPENAI_KEY}}")];
    let error = plan_forward(Ok(one_secret()), &headers).unwrap_err();
    assert!(matches!(error, ProxyError::MissingTarget));
    assert_eq!(error.status(), 400);
    assert_eq!(error.body(), "Missing X-Forward-To header");
    let error = plan_forward(Ok(one_secret()), &Vec::new()).unwrap_err();
    assert_eq!(error.status(), 400);
}

#[test]
fn forwarding_header_that_is_no_text_is_a_bad_request() {
    let headers = vec![header("X-Forward-To", &[0x68, 0xff, 0x74])];
    let error = plan_forward(Ok(one_secret()), &headers).unwrap_err();
    assert!(matches!(error, ProxyError::InvalidTarget));
    assert_eq!(error.status(), 400);
    assert_eq!(error.body(), "Invalid X-Forward-To header");
}

#[test]
fn unreadable_secret_store_is_a_server_error() {
    let headers = vec![header("x-forward-to", b"https://api.example.com")];
    let error = plan_forward(Err("disk on fire".to_string()), &headers).unwrap_err();
    assert!(matches!(error, ProxyError::SecretStore { .. }));
    assert_eq!(error.status(), 500);
    assert_eq!(error.body(), "Failed to load secrets: disk on fire");
}

#[test]
fn upstream_failure_is_a_bad_gateway() {
    let error = ProxyError::Upstream { detail: "connection refused".to_string() };
    assert_eq!(error.status(), 502);
    assert_eq!(error.body(), "Request failed: connection refused");
}

#[test]
fn the_address_is_a_template() {
    let plan = planned(vec![header(
        "X-Forward-To",
        b"https://api.example.com/{{ OPENAI_KEY }}/{{other}}",
    )]);
    assert_eq!(plan.url, "https://api.example.com/sk-abc/{{other}}");
    assert!(plan.headers.is_empty());
}

#[test]
fn the_first_forwarding_header_gives_the_address() {
    let plan = planned(vec![
        header("accept", b"*/*"),
        header("x-forward-to", b"https://first.example"),
        header("X-FORWARD-TO", b"https://second.example"),
    ]);
    assert_eq!(plan.url, "https://first.example");
    assert_eq!(pairs(&plan), vec![("accept".to_string(), b"*/*".to_vec())]);
}

#[test]
fn host_and_content_length_are_never_copied() {
    let plan = planned(vec![
        header("Host", b"localhost"),
        header("content-length", b"12"),
        header("Content-Length", b"12"),
        header("HOST", b"again"),
        header("x-forward-to", b"https://api.example.com"),
        header("hostname", b"kept"),
        header("content-type", b"application/json"),
    ]);
    assert_eq!(
        pairs(&plan),
        vec![
            ("hostname".to_string(), b"kept".to_vec()),
            ("content-type".to_string(), b"application/json".to_vec()),
        ]
    );
    for h in &plan.headers {
        assert!(!h.name.eq_ignore_ascii_case("host"));
        assert!(!h.name.eq_ignore_ascii_case("content-length"));
    }
}

#[test]
fn every_other_header_is_copied_in_order() {
    let plan = planned(vec![
        header("accept", b"text/html"),
        header("x-forward-to", b"https://api.example.com"),
        header("accept", b"application/json"),
        header("x-token", b"{{OPENAI_KEY}}-{{OPENAI_KEY}}"),
    ]);
    assert_eq!(
        pairs(&plan),
        vec![
            ("accept".to_string(), b"text/html".to_vec()),
            ("accept".to_string(), b"application/json".to_vec()),
            ("x-token".to_string(), b"sk-abc-sk-abc".to_vec()),
        ]
    );
}

#[test]
fn a_value_that_is_no_text_goes_out_as_it_came() {
    let raw = vec![0x7b, 0x7b, 0xff, 0xfe, 0x7d, 0x7d];
    assert_eq!(rewrite_value(&raw, &one_secret()), Some(raw.clone()));
    let plan = planned(vec![
        header("x-forward-to", b"https://api.example.com"),
        header("x-binary", &raw),
    ]);
    assert_eq!(pairs(&plan), vec![("x-binary".to_string(), raw)]);
}

#[test]
fn text_beyond_ascii_is_substituted_too() {
    let mut map = SecretMap::new();
    map.insert("k".to_string(), "caf\u{e9}".to_string());
    let value = "na\u{ef}ve {{k}}".as_bytes().to_vec();
    assert_eq!(rewrite_value(&value, &map), Some("na\u{ef}ve caf\u{e9}".as_bytes().to_vec()));
}

#[test]
fn a_value_that_cannot_be_sent_after_substitution_is_dropped() {
    let mut map = SecretMap::new();
    map.insert("bad".to_string(), "line\nbreak".to_string());
    map.insert("tab".to_string(), "a\tb".to_string());
    assert_eq!(rewrite_value(&b"{{bad}}".to_vec(), &map), None);
    assert_eq!(rewrite_value(&b"{{tab}}".to_vec(), &map), Some(b"a\tb".to_vec()));
    assert!(rewrite_header(&header("x-a", b"{{bad}}"), &map).is_none());
    let kept = rewrite_header(&header("x-a", b"{{tab}}"), &map).unwrap();
    assert_eq!(kept.name, "x-a");
    assert_eq!(kept.value, b"a\tb".to_vec());
    let headers = vec![
        header("x-forward-to", b"https://api.example.com"),
        header("x-bad", b"{{bad}}"),
        header("x-good", b"ok"),
    ];
    let plan = plan_forward(Ok(map), &headers).unwrap();
    assert_eq!(pairs(&plan), vec![("x-good".to_string(), b"ok".to_vec())]);
}

#[test]
fn legal_header_values() {
    assert!(value_is_legal(&b"".to_vec()));
    assert!(value_is_legal(&b"plain text\twith tab".to_vec()));
    assert!(value_is_legal(&vec![0x20, 0x7e, 0x80, 0xff]));
    assert!(!value_is_legal(&vec![0x7f]));
    assert!(!value_is_legal(&vec![0x1f]));
    assert!(!value_is_legal(&b"a\r\nb".to_vec()));
    assert!(!value_is_legal(&vec![0x00]));
}

#[test]
fn header_names_are_compared_without_regard_to_case() {
    assert!(transport_header("host"));
    assert!(transport_header("Host"));
    assert!(transport_header("CONTENT-length"));
    assert!(!transport_header("content_length"));
    assert!(!transport_header("hos"));
    assert!(!transport_header(""));
    assert!(forwarding_header("X-Forward-To"));
    assert!(forwarding_header("x-forward-to"));
    assert!(!forwarding_header("x-forward-t\u{4f}\u{301}"));
    assert!(!forwarding_header("x-forwarded-for"));
    assert!(!forwarding_header("X\u{2d}Forward\u{2d}To\u{20}"));
}

#[test]
fn the_fallback_port_is_used_when_none_was_picked() {
    assert_eq!(FALLBACK_PROXY_PORT, 14500);
    assert_eq!(proxy_port_or_fallback(None), 14500);
    assert_eq!(proxy_port_or_fallback(Some(8123)), 8123);
    assert_eq!(proxy_port_or_fallback(Some(0)), 0);
}

#[test]
fn the_proxy_port_is_published_once_started() {
    let mut cell = ProxyPort::new();
    assert_eq!(cell.get(), 0);
    cell.publish(40123);
    assert_eq!(cell.get(), 40123);
    assert_eq!(cell.0, 40123);
}

#[test]
fn the_published_port_is_read_back() {
    let mut cell = ProxyPort::new();
    cell.publish(proxy_port_or_fallback(None));
    assert_eq!(local_gateway::proxy::get_proxy_port(&cell), 14500);
}

#[test]
fn legal_values_are_those_the_transport_takes() {
    let mut byte: u16 = 0;
    while byte < 256 {
        let value = vec![b'a', byte as u8, b'z'];
        let taken = axum::http::HeaderValue::from_bytes(&value).is_ok();
        assert_eq!(value_is_legal(&value), taken, "byte {}", byte);
        byte += 1;
    }
    for text in ["", "plain", "tab\there", "line\nbreak", "caf\u{e9}", "del\u{7f}"] {
        let taken = axum::http::HeaderValue::from_str(text).is_ok();
        assert_eq!(value_is_legal(&text.as_bytes().to_vec()), taken, "{:?}", text);
    }
}

#[test]
fn header_names_match_as_the_transport_matches_them() {
    let mut map = axum::http::HeaderMap::new();
    map.insert("X-Forward-To", axum::http::HeaderValue::from_static("u"));
    map.insert("Host", axum::http::HeaderValue::from_static("h"));
    map.insert("content-LENGTH", axum::http::HeaderValue::from_static("1"));
    map.insert("accept", axum::http::HeaderValue::from_static("*/*"));
    let mut forwarding = 0;
    let mut transport = 0;
    for (name, _) in map.iter() {
        if forwarding_header(name.as_str()) {
            forwarding += 1;
            assert!(*name == "X-FORWARD-TO");
        }
        if transport_header(name.as_str()) {
            transport += 1;
            assert!(*name == "host" || *name == "content-length");
        }
    }
    assert_eq!((forwarding, transport), (1, 2));
    for (a, b) in [("Host", "hOST"), ("a-b", "A-B"), ("a", "b"), ("ab", "a"), ("x_y", "X-Y")] {
        assert_eq!(
            local_gateway::text::names_match(a, b),
            a.eq_ignore_ascii_case(b),
            "{} {}",
            a,
            b
        );
    }
}
