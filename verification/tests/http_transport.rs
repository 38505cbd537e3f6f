use moleculer::address::parse_http_address;
use moleculer::client::{
    check_request_status, check_send_status, interpret_reply, is_success_status, HttpClientTransport,
};
use moleculer::http_transporter;
use moleculer::message::{Error, HttpConfig, HttpMessage, HttpResponse, ReceivedMessage, Transporter};
use moleculer::transport::{stream_step, HttpTransport, ReceiveAttempt, StreamStep};

#[test]
fn test_parse_http_address_with_port() {
    let (host, port) = parse_http_address("localhost:8080");
    assert_eq!(host, "localhost");
    assert_eq!(port, 8080);
}

#[test]
fn test_parse_http_address_with_http_prefix() {
    let (host, port) = parse_http_address("http://localhost:8080");
    assert_eq!(host, "localhost");
    assert_eq!(port, 8080);
}

#[test]
fn test_parse_http_address_with_https_prefix() {
    let (host, port) = parse_http_address("https://localhost:8080");
    assert_eq!(host, "localhost");
    assert_eq!(port, 8080);
}

#[test]
fn test_parse_http_address_port_only() {
    let (host, port) = parse_http_address("8080");
    assert_eq!(host, "0.0.0.0");
    assert_eq!(port, 8080);
}

#[test]
fn test_parse_http_address_no_port() {
    let (host, port) = parse_http_address("localhost");
    assert_eq!(host, "0.0.0.0");
    assert_eq!(port, 8080);
}

#[test]
fn test_http_address_parsing() {
    let (host, port) = parse_http_address("localhost:8080");
    assert_eq!(host, "localhost");
    assert_eq!(port, 8080);

    let (host, port) = parse_http_address("http://localhost:9090");
    assert_eq!(host, "localhost");
    assert_eq!(port, 9090);

    let (host, port) = parse_http_address("3000");
    assert_eq!(host, "0.0.0.0");
    assert_eq!(port, 3000);
}

#[test]
fn parse_invalid_or_out_of_range_port_defaults() {
    assert_eq!(parse_http_address("localhost:abc"), ("localhost".to_string(), 8080));
    assert_eq!(parse_http_address("localhost:65536"), ("localhost".to_string(), 8080));
    assert_eq!(parse_http_address("localhost:"), ("localhost".to_string(), 8080));
    assert_eq!(parse_http_address("localhost:-1"), ("localhost".to_string(), 8080));
    assert_eq!(parse_http_address(""), ("0.0.0.0".to_string(), 8080));
    assert_eq!(parse_http_address("+"), ("0.0.0.0".to_string(), 8080));
}

#[test]
fn parse_port_edge_values() {
    assert_eq!(parse_http_address("h:65535"), ("h".to_string(), 65535));
    assert_eq!(parse_http_address("h:0"), ("h".to_string(), 0));
    assert_eq!(parse_http_address("h:+80"), ("h".to_string(), 80));
    assert_eq!(parse_http_address("h:0000080"), ("h".to_string(), 80));
    assert_eq!(parse_http_address("+443"), ("0.0.0.0".to_string(), 443));
}

#[test]
fn parse_takes_first_two_colon_fields() {
    assert_eq!(parse_http_address("a:1:2"), ("a".to_string(), 1));
    assert_eq!(parse_http_address(":9"), ("".to_string(), 9));
}

#[test]
fn parse_strips_repeated_schemes_in_order() {
    assert_eq!(parse_http_address("http://http://host:7"), ("host".to_string(), 7));
    assert_eq!(parse_http_address("http://https://host:7"), ("host".to_string(), 7));
    // `https://` is removed after `http://`, so `http://` behind it stays.
    assert_eq!(parse_http_address("https://http://host:7"), ("http".to_string(), 8080));
}

#[test]
fn parse_host_port_round_trip() {
    for (host, port) in [("example.org", 1u16), ("10.0.0.2", 65535), ("", 80), ("node-α", 4222)] {
        let text = format!("{}:{}", host, port);
        assert_eq!(parse_http_address(&text), (host.to_string(), port));
    }
    for port in [0u16, 9, 10, 12345, 65535] {
        assert_eq!(parse_http_address(&port.to_string()), ("0.0.0.0".to_string(), port));
    }
}

#[test]
fn test_http_message_structure() {
    let msg = HttpMessage::new("test.topic".to_string(), vec![1, 2, 3, 4]);
    assert_eq!(msg.topic, "test.topic");
    assert_eq!(msg.data, vec![1, 2, 3, 4]);
    assert!(msg.sender.is_none());
    assert!(msg.reply_to.is_none());

    let msg_with_sender = HttpMessage::with_sender(
        "another.topic".to_string(),
        vec![5, 6, 7, 8],
        "node-1".to_string(),
    );
    assert_eq!(msg_with_sender.topic, "another.topic");
    assert_eq!(msg_with_sender.sender, Some("node-1".to_string()));

    let msg_with_reply = HttpMessage::with_reply(
        "request.topic".to_string(),
        vec![9, 10],
        "node-1".to_string(),
        "reply.topic".to_string(),
    );
    assert_eq!(msg_with_reply.reply_to, Some("reply.topic".to_string()));
}

#[test]
fn test_http_config_structure() {
    let config = HttpConfig::new("localhost", 8080, "test-node");

    assert_eq!(config.address, "localhost");
    assert_eq!(config.port, 8080);
    assert_eq!(config.node_id, "test-node");
    assert_eq!(config.base_url(), "http://localhost:8080");
}

#[test]
fn base_url_parses_back() {
    let config = HttpConfig::new("10.1.2.3", 4000, "n");
    assert_eq!(config.base_url(), "http://10.1.2.3:4000");
    assert_eq!(parse_http_address(&config.base_url()), ("10.1.2.3".to_string(), 4000));
}

#[test]
fn test_http_response_structure() {
    let response = HttpResponse {
        success: true,
        data: vec![1, 2, 3],
        error: None,
    };

    assert!(response.success);
    assert_eq!(response.data, vec![1, 2, 3]);
    assert!(response.error.is_none());

    let error_response = HttpResponse {
        success: false,
        data: vec![],
        error: Some("Something went wrong".to_string()),
    };

    assert!(!error_response.success);
    assert!(error_response.error.is_some());
}

#[test]
fn test_transporter_enum() {
    let http_transport = Transporter::http("localhost:8080");
    let nats_transport = Transporter::nats("nats://localhost:4222");

    match http_transport {
        Transporter::Http(addr) => assert_eq!(addr, "localhost:8080"),
        _ => panic!("Expected HTTP transporter"),
    }

    match nats_transport {
        Transporter::Nats(addr) => assert_eq!(addr, "nats://localhost:4222"),
        _ => panic!("Expected NATS transporter"),
    }
}

#[test]
fn received_message_constructors() {
    let m = ReceivedMessage::new("t".to_string(), vec![1]);
    assert_eq!(m.topic, "t");
    assert_eq!(m.payload, vec![1]);
    assert!(m.reply_to.is_none());
    let r = ReceivedMessage::with_reply("t".to_string(), vec![], "r".to_string());
    assert_eq!(r.reply_to, Some("r".to_string()));
    let ack = HttpResponse::ack();
    assert!(ack.success && ack.data.is_empty() && ack.error.is_none());
}

#[test]
fn transport_new_parses_address() {
    let t = HttpTransport::new("http://127.0.0.1:9100".to_string(), "node-a".to_string());
    assert_eq!(t.bind_address(), "127.0.0.1");
    assert_eq!(t.port(), 9100);
    assert_eq!(t.server_address(), "127.0.0.1:9100");
    assert_eq!(t.node_address(), Some("http://127.0.0.1:9100"));
    assert_eq!(t.node_id(), "node-a");
    assert_eq!(t.name(), "http");
    assert!(!t.is_connected());
    let only_port = http_transporter::HttpTransport::new("9001".to_string(), "x".to_string());
    assert_eq!(only_port.server_address(), "0.0.0.0:9001");
}

#[test]
fn transport_publish_reaches_subscribed_topics_only() {
    let mut t = HttpTransport::new("0.0.0.0:9000".to_string(), "n".to_string());
    assert!(t.publish("MOL.EVENT", b"x").is_none());
    assert!(t.subscribe("MOL.EVENT"));
    assert!(!t.subscribe("MOL.EVENT"));
    let d = t.publish("MOL.EVENT", b"payload").expect("delivered");
    assert_eq!(d.topic, "MOL.EVENT");
    assert_eq!(d.payload, b"payload".to_vec());
    assert!(d.reply_to.is_none());
    assert!(t.publish("MOL.OTHER", b"payload").is_none());
    assert!(t.has_subscribers("MOL.EVENT"));
    assert!(!t.has_subscribers("MOL.OTHER"));
    let (delivery, reply) = t.request("MOL.EVENT", b"q", 1000);
    assert!(delivery.is_some());
    assert!(reply.is_empty());
}

#[test]
fn transport_accepts_posted_messages() {
    let mut t = HttpTransport::new("0.0.0.0:9000".to_string(), "n".to_string());
    t.subscribe("a");
    let (d, ack) = t.accept(HttpMessage::with_reply(
        "a".to_string(),
        vec![7],
        "s".to_string(),
        "back".to_string(),
    ));
    let d = d.expect("delivered");
    assert_eq!(d.reply_to, Some("back".to_string()));
    assert_eq!(d.payload, vec![7]);
    assert!(ack.success);
    let (d, ack) = t.accept(HttpMessage::new("a".to_string(), vec![]));
    assert_eq!(d.expect("delivered").reply_to, Some(String::new()));
    assert!(ack.error.is_none());
    let (d, ack) = t.accept(HttpMessage::new("b".to_string(), vec![]));
    assert!(d.is_none());
    assert!(ack.success);
}

#[test]
fn transport_connect_and_disconnect() {
    let mut t = HttpTransport::new("9000".to_string(), "n".to_string());
    assert!(!t.disconnect());
    let r = t.finish_connect(Err(Error::ServerError("bind".to_string())));
    assert!(matches!(r, Err(Error::ServerError(m)) if m == "bind"));
    assert!(!t.is_connected());
    assert!(t.finish_connect(Ok(())).is_ok());
    assert!(t.is_connected());
    assert!(t.disconnect());
    assert!(!t.is_connected());
    assert!(!t.disconnect());
}

#[test]
fn client_urls_and_envelopes() {
    let c = HttpClientTransport::new("me".to_string());
    assert_eq!(c.node_id(), "me");
    assert_eq!(HttpClientTransport::publish_url("http://h:1"), "http://h:1/publish");
    assert_eq!(HttpClientTransport::request_url("http://h:1"), "http://h:1/request");
    let m = c.publish_message("topic", vec![1, 2]);
    assert_eq!(m.topic, "topic");
    assert_eq!(m.sender, Some("me".to_string()));
    assert!(m.reply_to.is_none());
    let r = c.request_message("topic", vec![], "reply".to_string());
    assert_eq!(r.sender, Some("me".to_string()));
    assert_eq!(r.reply_to, Some("reply".to_string()));
}

#[test]
fn client_status_and_replies() {
    assert!(is_success_status(200));
    assert!(is_success_status(299));
    assert!(!is_success_status(199));
    assert!(!is_success_status(300));
    assert!(check_send_status(204, "204 No Content").is_ok());
    match check_send_status(404, "404 Not Found") {
        Err(Error::Http(m)) => assert_eq!(m, "Failed to send message, status: 404 Not Found"),
        _ => panic!("expected an HTTP error"),
    }
    match check_request_status(500, "500 Internal Server Error") {
        Err(Error::Http(m)) => assert_eq!(m, "Failed to send request, status: 500 Internal Server Error"),
        _ => panic!("expected an HTTP error"),
    }
    let ok = interpret_reply(HttpResponse { success: true, data: vec![3], error: None });
    assert_eq!(ok.unwrap(), vec![3]);
    match interpret_reply(HttpResponse { success: false, data: vec![], error: Some("boom".to_string()) }) {
        Err(Error::Http(m)) => assert_eq!(m, "boom"),
        _ => panic!("expected an HTTP error"),
    }
    match interpret_reply(HttpResponse { success: false, data: vec![1], error: None }) {
        Err(Error::Http(m)) => assert_eq!(m, "Unknown error"),
        _ => panic!("expected an HTTP error"),
    }
}

#[test]
fn stream_steps() {
    assert_eq!(stream_step(ReceiveAttempt::Message), StreamStep::Yield);
    assert_eq!(stream_step(ReceiveAttempt::Empty), StreamStep::PollAgain);
    assert_eq!(stream_step(ReceiveAttempt::Lagged), StreamStep::PollAgain);
    assert_eq!(stream_step(ReceiveAttempt::Closed), StreamStep::End);
}

#[test]
fn acknowledgement_reads_as_empty_reply() {
    assert_eq!(interpret_reply(HttpResponse::ack()).unwrap(), Vec::<u8>::new());
}

#[test]
fn transport_health_and_info() {
    let t = HttpTransport::new("0.0.0.0:9000".to_string(), "node-x".to_string());
    let h = t.health();
    assert_eq!(h.status, "ok");
    assert_eq!(h.node_id, "node-x");
    let i = t.info();
    assert_eq!(i.node_id, "node-x");
    assert_eq!(i.transport, "http");
}

#[test]
fn server_start_errors() {
    assert!(HttpTransport::server_start_result(None, None).is_ok());
    assert!(matches!(
        HttpTransport::server_start_result(Some("invalid socket address syntax"), None),
        Err(Error::InvalidAddress(m)) if m == "Invalid server address: invalid socket address syntax"
    ));
    assert!(matches!(
        HttpTransport::server_start_result(Some("bad"), Some("in use")),
        Err(Error::InvalidAddress(m)) if m == "Invalid server address: bad"
    ));
    assert!(matches!(
        HttpTransport::server_start_result(None, Some("address in use")),
        Err(Error::ServerError(m)) if m == "Failed to bind server: address in use"
    ));
}
