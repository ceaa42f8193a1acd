use ws_handshake::handshake::{
    accepted, echo, examine_line, handshake, header_value, routing, switches_protocols, Finding,
    HandshakeConfig, HandshakeError, HandshakeOutcome, InboundRequest, Reply,
};
use ws_handshake::negotiation::HeaderOption;

const SAMPLE_KEY: &str = "dGhlIHNhbXBsZSBub25jZQ==";
const SAMPLE_TOKEN: &str = "s3pPLMBiTxaQ9kYGzzhZRbK+xOo=";

fn config() -> HandshakeConfig {
    HandshakeConfig {
        protocols: vec![
            HeaderOption { value: "chat".to_string(), priority: 1 },
            HeaderOption { value: "superchat".to_string(), priority: 2 },
        ],
        origins: vec![HeaderOption { value: "http://example.com".to_string(), priority: 1 }],
    }
}

fn lines(pairs: &[(&str, &str)]) -> Vec<(String, String)> {
    pairs.iter().map(|(name, value)| (name.to_string(), value.to_string())).collect()
}

fn request(method: &str, path: &str, pairs: &[(&str, &str)]) -> InboundRequest {
    InboundRequest {
        method: method.to_string(),
        path: path.to_string(),
        headers: lines(pairs),
        upgradable: true,
    }
}

fn rejected(status: u16, reason: &str) -> HandshakeOutcome {
    HandshakeOutcome::Rejected { status, reason: reason.to_string() }
}

fn accepted_with(pairs: &[(&str, &str)]) -> HandshakeOutcome {
    HandshakeOutcome::Accepted { response_headers: lines(pairs) }
}

#[test]
fn method_gate() {
    let full = [
        ("Upgrade", "websocket"),
        ("Sec-WebSocket-Key", SAMPLE_KEY),
        ("Sec-WebSocket-Protocol", "chat, superchat"),
    ];
    for method in ["POST", "PUT", "DELETE", "HEAD", "OPTIONS", "get", "Get", "", "GET "] {
        for headers in [&full[..], &[][..], &[("Upgrade", "nonsense")][..]] {
            assert_eq!(
                routing(&request(method, "/websocket", headers), &config()),
                Reply::Outcome(rejected(405, "Method Not Allowed")),
                "{method}"
            );
        }
        assert_eq!(
            routing(&request(method, "/", &[]), &config()),
            Reply::Outcome(rejected(405, "Method Not Allowed"))
        );
    }
}

#[test]
fn upgrade_gate() {
    let reply = routing(
        &request("GET", "/websocket", &[("Upgrade", "not-websocket")]),
        &config(),
    );
    assert_eq!(reply, Reply::Outcome(rejected(406, "Unacceptable Upgrade value")));
    let reply = routing(
        &request(
            "GET",
            "/websocket",
            &[("Sec-WebSocket-Key", SAMPLE_KEY), ("Upgrade", "not-websocket")],
        ),
        &config(),
    );
    assert_eq!(reply, Reply::Outcome(rejected(406, "Unacceptable Upgrade value")));
}

#[test]
fn upgrade_value_is_compared_exactly() {
    for value in ["WebSocket", "websocket ", " websocket", "", "websocket, h2c", "Missing Upgrade value"] {
        assert_eq!(
            handshake(&lines(&[("Upgrade", value), ("Sec-WebSocket-Key", SAMPLE_KEY)]), &config()),
            rejected(406, "Unacceptable Upgrade value"),
            "{value:?}"
        );
    }
}

#[test]
fn missing_upgrade_header_is_unacceptable() {
    assert_eq!(handshake(&lines(&[]), &config()), rejected(406, "Unacceptable Upgrade value"));
    assert_eq!(
        handshake(&lines(&[("Sec-WebSocket-Key", SAMPLE_KEY)]), &config()),
        rejected(406, "Unacceptable Upgrade value")
    );
}

#[test]
fn first_upgrade_header_counts() {
    assert_eq!(
        handshake(
            &lines(&[("Upgrade", "h2c"), ("Upgrade", "websocket"), ("Sec-WebSocket-Key", SAMPLE_KEY)]),
            &config()
        ),
        rejected(406, "Unacceptable Upgrade value")
    );
}

#[test]
fn end_to_end_accept() {
    let reply = routing(
        &request(
            "GET",
            "/websocket",
            &[
                ("Upgrade", "websocket"),
                ("Sec-WebSocket-Key", SAMPLE_KEY),
                ("Sec-WebSocket-Protocol", "chat, superchat"),
            ],
        ),
        &config(),
    );
    assert_eq!(
        reply,
        Reply::Outcome(accepted_with(&[
            ("Upgrade", "websocket"),
            ("Connection", "Upgrade"),
            ("Sec-WebSocket-Accept", SAMPLE_TOKEN),
            ("Sec-WebSocket-Protocol", "superchat"),
        ]))
    );
}

#[test]
fn accept_without_sub_protocol() {
    assert_eq!(
        handshake(&lines(&[("Upgrade", "websocket"), ("Sec-WebSocket-Key", SAMPLE_KEY)]), &config()),
        accepted_with(&[
            ("Upgrade", "websocket"),
            ("Connection", "Upgrade"),
            ("Sec-WebSocket-Accept", SAMPLE_TOKEN),
        ])
    );
}

#[test]
fn header_names_are_case_insensitive() {
    assert_eq!(
        handshake(
            &lines(&[
                ("host", "example.com"),
                ("UPGRADE", "websocket"),
                ("connection", "Upgrade"),
                ("sec-websocket-key", SAMPLE_KEY),
                ("SEC-WEBSOCKET-PROTOCOL", "chat"),
                ("ORIGIN", "http://example.com"),
                ("user-agent", "test"),
            ]),
            &config()
        ),
        accepted_with(&[
            ("Upgrade", "websocket"),
            ("Connection", "Upgrade"),
            ("Sec-WebSocket-Accept", SAMPLE_TOKEN),
            ("Sec-WebSocket-Protocol", "chat"),
        ])
    );
}

#[test]
fn no_acceptable_sub_protocol() {
    assert_eq!(
        handshake(
            &lines(&[
                ("Upgrade", "websocket"),
                ("Sec-WebSocket-Key", SAMPLE_KEY),
                ("Sec-WebSocket-Protocol", "mqtt, wamp"),
            ]),
            &config()
        ),
        rejected(400, "No acceptable sub-protocol")
    );
}

#[test]
fn origin_not_allowed() {
    assert_eq!(
        handshake(
            &lines(&[
                ("Upgrade", "websocket"),
                ("Sec-WebSocket-Key", SAMPLE_KEY),
                ("Origin", "http://evil.example"),
            ]),
            &config()
        ),
        rejected(403, "Origin not allowed")
    );
}

#[test]
fn missing_key() {
    assert_eq!(
        handshake(&lines(&[("Upgrade", "websocket")]), &config()),
        rejected(400, "Missing Sec-WebSocket-Key")
    );
    assert_eq!(
        handshake(&lines(&[("Upgrade", "websocket"), ("Sec-WebSocket-Key", "")]), &config()),
        rejected(400, "Missing Sec-WebSocket-Key")
    );
    assert_eq!(
        handshake(
            &lines(&[
                ("Upgrade", "websocket"),
                ("Sec-WebSocket-Key", SAMPLE_KEY),
                ("Sec-WebSocket-Key", ""),
            ]),
            &config()
        ),
        rejected(400, "Missing Sec-WebSocket-Key")
    );
}

#[test]
fn first_line_at_fault_decides() {
    let upgrade = ("Upgrade", "websocket");
    let bad_origin = ("Origin", "http://evil.example");
    let bad_protocol = ("Sec-WebSocket-Protocol", "mqtt");
    let empty_key = ("Sec-WebSocket-Key", "");
    assert_eq!(
        handshake(&lines(&[upgrade, bad_origin, bad_protocol, empty_key]), &config()),
        rejected(403, "Origin not allowed")
    );
    assert_eq!(
        handshake(&lines(&[upgrade, bad_protocol, bad_origin, empty_key]), &config()),
        rejected(400, "No acceptable sub-protocol")
    );
    assert_eq!(
        handshake(&lines(&[empty_key, bad_protocol, bad_origin, upgrade]), &config()),
        rejected(400, "Missing Sec-WebSocket-Key")
    );
    assert_eq!(
        handshake(&lines(&[upgrade, bad_origin]), &config()),
        rejected(403, "Origin not allowed")
    );
}

#[test]
fn every_offer_and_origin_is_negotiated() {
    assert_eq!(
        handshake(
            &lines(&[
                ("Upgrade", "websocket"),
                ("Sec-WebSocket-Key", SAMPLE_KEY),
                ("Sec-WebSocket-Protocol", "chat"),
                ("Sec-WebSocket-Protocol", "mqtt"),
            ]),
            &config()
        ),
        rejected(400, "No acceptable sub-protocol")
    );
    assert_eq!(
        handshake(
            &lines(&[
                ("Upgrade", "websocket"),
                ("Sec-WebSocket-Key", SAMPLE_KEY),
                ("Origin", "http://example.com"),
                ("Origin", "http://evil.example"),
            ]),
            &config()
        ),
        rejected(403, "Origin not allowed")
    );
}

#[test]
fn first_offer_and_first_key_are_used() {
    assert_eq!(
        handshake(
            &lines(&[
                ("Upgrade", "websocket"),
                ("Sec-WebSocket-Protocol", "chat"),
                ("Sec-WebSocket-Key", SAMPLE_KEY),
                ("Sec-WebSocket-Protocol", "superchat"),
                ("Sec-WebSocket-Key", "another"),
            ]),
            &config()
        ),
        accepted_with(&[
            ("Upgrade", "websocket"),
            ("Connection", "Upgrade"),
            ("Sec-WebSocket-Accept", SAMPLE_TOKEN),
            ("Sec-WebSocket-Protocol", "chat"),
        ])
    );
}

#[test]
fn lists_come_from_the_configuration() {
    let open = HandshakeConfig {
        protocols: vec![HeaderOption { value: "*".to_string(), priority: 0 }],
        origins: vec![HeaderOption { value: "*".to_string(), priority: 0 }],
    };
    assert_eq!(
        handshake(
            &lines(&[
                ("Upgrade", "websocket"),
                ("Sec-WebSocket-Key", SAMPLE_KEY),
                ("Origin", "http://anywhere.example"),
                ("Sec-WebSocket-Protocol", "mqtt, wamp"),
            ]),
            &open
        ),
        accepted_with(&[
            ("Upgrade", "websocket"),
            ("Connection", "Upgrade"),
            ("Sec-WebSocket-Accept", SAMPLE_TOKEN),
            ("Sec-WebSocket-Protocol", "mqtt"),
        ])
    );
    let closed = HandshakeConfig { protocols: vec![], origins: vec![] };
    assert_eq!(
        handshake(
            &lines(&[
                ("Upgrade", "websocket"),
                ("Sec-WebSocket-Key", SAMPLE_KEY),
                ("Origin", "http://example.com"),
            ]),
            &closed
        ),
        rejected(403, "Origin not allowed")
    );
}

#[test]
fn index_path_gets_a_hint() {
    assert_eq!(
        routing(&request("GET", "/", &[]), &config()),
        Reply::Informational { body: "Try to request /websocket".to_string() }
    );
    assert_eq!(
        routing(&request("GET", "/", &[("Upgrade", "websocket")]), &config()),
        Reply::Informational { body: "Try to request /websocket".to_string() }
    );
}

#[test]
fn unknown_path_is_not_found() {
    for path in ["/other", "/websocket/", "/Websocket", "", "websocket", "//"] {
        assert_eq!(
            routing(
                &request("GET", path, &[("Upgrade", "websocket"), ("Sec-WebSocket-Key", SAMPLE_KEY)]),
                &config()
            ),
            Reply::Outcome(rejected(404, "Not Found")),
            "{path:?}"
        );
    }
}

#[test]
fn every_error_has_its_status_and_reason() {
    let table = [
        (HandshakeError::MethodNotAllowed, 405, "Method Not Allowed"),
        (HandshakeError::NotFound, 404, "Not Found"),
        (HandshakeError::UpgradeRequired, 406, "Unacceptable Upgrade value"),
        (HandshakeError::SubProtocolRejected, 400, "No acceptable sub-protocol"),
        (HandshakeError::OriginRejected, 403, "Origin not allowed"),
        (HandshakeError::MissingKey, 400, "Missing Sec-WebSocket-Key"),
    ];
    for (error, status, reason) in table {
        assert_eq!(error.status(), status);
        assert_eq!(error.reason(), reason);
        assert_eq!(error.rejection(), rejected(status, reason));
    }
    for (i, a) in table.iter().enumerate() {
        for (j, b) in table.iter().enumerate() {
            assert_eq!(a.0.rejection() == b.0.rejection(), i == j);
        }
    }
}

#[test]
fn accepted_outcome_is_assembled_in_order() {
    assert_eq!(
        accepted("token".to_string(), None),
        accepted_with(&[
            ("Upgrade", "websocket"),
            ("Connection", "Upgrade"),
            ("Sec-WebSocket-Accept", "token"),
        ])
    );
    assert_eq!(
        accepted("token".to_string(), Some("chat".to_string())),
        accepted_with(&[
            ("Upgrade", "websocket"),
            ("Connection", "Upgrade"),
            ("Sec-WebSocket-Accept", "token"),
            ("Sec-WebSocket-Protocol", "chat"),
        ])
    );
}

#[test]
fn header_lookup_finds_the_first_line() {
    let headers = lines(&[("Host", "a"), ("X-Test", "1"), ("x-test", "2"), ("Empty", "")]);
    assert_eq!(header_value(&headers, "x-test"), Some("1"));
    assert_eq!(header_value(&headers, "X-TEST"), Some("1"));
    assert_eq!(header_value(&headers, "host"), Some("a"));
    assert_eq!(header_value(&headers, "empty"), Some(""));
    assert_eq!(header_value(&headers, "x-tes"), None);
    assert_eq!(header_value(&lines(&[]), "host"), None);
}

#[test]
fn protocols_switch_only_after_acceptance() {
    let headers = [("Upgrade", "websocket"), ("Sec-WebSocket-Key", SAMPLE_KEY)];
    let mut inbound = request("GET", "/websocket", &headers);
    let reply = routing(&inbound, &config());
    assert!(switches_protocols(&inbound, &reply));
    inbound.upgradable = false;
    assert_eq!(routing(&inbound, &config()), reply);
    assert!(!switches_protocols(&inbound, &reply));
    inbound.upgradable = true;
    let refused = routing(&request("GET", "/websocket", &[]), &config());
    assert!(!switches_protocols(&inbound, &refused));
    let hint = routing(&request("GET", "/", &[]), &config());
    assert!(!switches_protocols(&inbound, &hint));
}

#[test]
fn accepted_only_with_upgrade_and_key() {
    let upgrades = [None, Some("websocket"), Some("h2c")];
    let keys = [None, Some(""), Some(SAMPLE_KEY)];
    for upgrade in upgrades {
        for key in keys {
            let mut pairs = Vec::new();
            if let Some(value) = upgrade {
                pairs.push(("Upgrade", value));
            }
            if let Some(value) = key {
                pairs.push(("Sec-WebSocket-Key", value));
            }
            let outcome = handshake(&lines(&pairs), &config());
            let expected = upgrade == Some("websocket") && key == Some(SAMPLE_KEY);
            assert_eq!(matches!(outcome, HandshakeOutcome::Accepted { .. }), expected);
        }
    }
}

#[test]
fn lines_are_examined_by_name() {
    assert_eq!(
        examine_line("sec-websocket-protocol", "chat, superchat", &config()),
        Ok(Finding::Protocol("superchat".to_string()))
    );
    assert_eq!(
        examine_line("Sec-WebSocket-Protocol", "mqtt", &config()),
        Err(HandshakeError::SubProtocolRejected)
    );
    assert_eq!(
        examine_line("origin", "http://example.com", &config()),
        Ok(Finding::Origin("http://example.com".to_string()))
    );
    assert_eq!(
        examine_line("Origin", "http://evil.example", &config()),
        Err(HandshakeError::OriginRejected)
    );
    assert_eq!(
        examine_line("sec-websocket-key", SAMPLE_KEY, &config()),
        Ok(Finding::AcceptToken(SAMPLE_TOKEN.to_string()))
    );
    assert_eq!(examine_line("Sec-WebSocket-Key", "", &config()), Err(HandshakeError::MissingKey));
    assert_eq!(examine_line("host", "example.com", &config()), Ok(Finding::Plain));
    assert_eq!(examine_line("upgrade", "anything", &config()), Ok(Finding::Plain));
    assert_eq!(examine_line("origins", "http://evil.example", &config()), Ok(Finding::Plain));
    assert_eq!(examine_line("", "", &config()), Ok(Finding::Plain));
}

#[test]
fn echo_shows_each_line() {
    let headers = lines(&[
        ("host", "127.0.0.1:3000"),
        ("upgrade", "websocket"),
        ("sec-websocket-protocol", "chat, superchat"),
        ("origin", "http://example.com"),
        ("sec-websocket-key", SAMPLE_KEY),
        ("x-empty", ""),
    ]);
    assert_eq!(
        echo(&headers, &config()),
        Ok([
            "host: 127.0.0.1:3000",
            "upgrade: websocket",
            "sec-websocket-protocol: superchat",
            "origin: http://example.com",
            "Sec-WebSocket-Accept: s3pPLMBiTxaQ9kYGzzhZRbK+xOo=",
            "x-empty: ",
        ]
        .join("\n"))
    );
}

#[test]
fn echo_of_few_lines() {
    assert_eq!(echo(&lines(&[]), &config()), Ok(String::new()));
    assert_eq!(echo(&lines(&[("a", "b")]), &config()), Ok("a: b".to_string()));
    assert_eq!(echo(&lines(&[("a", "b"), ("c", "d")]), &config()), Ok("a: b\nc: d".to_string()));
    assert_eq!(echo(&lines(&[("", "")]), &config()), Ok(": ".to_string()));
    assert_eq!(
        echo(&lines(&[("Sec-WebSocket-Key", "a"), ("SEC-WEBSOCKET-KEY", "b")]), &config()),
        Ok("Sec-WebSocket-Accept: FtgH8qqfEKHvZKEZYEWkYDhlXNY=\nSec-WebSocket-Accept: \
            /2WhYyRivnOKNl2G8bXxcE1GVLg="
            .to_string())
    );
}

#[test]
fn echo_reports_the_first_fault() {
    assert_eq!(
        echo(&lines(&[("host", "a"), ("origin", "http://evil.example")]), &config()),
        Err(HandshakeError::OriginRejected)
    );
    assert_eq!(
        echo(
            &lines(&[("sec-websocket-protocol", "mqtt"), ("origin", "http://evil.example")]),
            &config()
        ),
        Err(HandshakeError::SubProtocolRejected)
    );
    assert_eq!(
        echo(&lines(&[("sec-websocket-key", ""), ("sec-websocket-protocol", "mqtt")]), &config()),
        Err(HandshakeError::MissingKey)
    );
}
