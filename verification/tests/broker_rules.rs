use moleculer::channels::{
    channel_action, targeted_channel, Carrier, ChannelAction, ChannelKind, ResponseWaiter, ResponseWaiters,
};
use moleculer::logging::{parse_log_level, LogLevel};
use moleculer::message::Error;
use moleculer::nats::{publish_retry, request_timeout_error, NatsTransport};

#[test]
fn targeted_channels() {
    assert_eq!(targeted_channel("MOL.PONG", "node-7"), "MOL.PONG.node-7");
    assert_eq!(targeted_channel("", ""), ".");
}

#[test]
fn listener_actions() {
    match channel_action(ChannelKind::Ping, Carrier::Http, Some("n1"), "MOL.INFO", "MOL.PONG") {
        ChannelAction::PublishPong(c) => assert_eq!(c, "MOL.PONG.n1"),
        other => panic!("unexpected {:?}", other),
    }
    match channel_action(ChannelKind::DiscoverTargeted, Carrier::Nats, Some("n2"), "MOL.INFO", "MOL.PONG") {
        ChannelAction::PublishInfo(c) => assert_eq!(c, "MOL.INFO.n2"),
        other => panic!("unexpected {:?}", other),
    }
    assert!(matches!(
        channel_action(ChannelKind::Ping, Carrier::Nats, None, "I", "P"),
        ChannelAction::Reject
    ));
    assert!(matches!(
        channel_action(ChannelKind::Pong, Carrier::Nats, None, "I", "P"),
        ChannelAction::Ignore
    ));
    assert!(matches!(
        channel_action(ChannelKind::Event, Carrier::Nats, None, "I", "P"),
        ChannelAction::ForwardToBroker
    ));
    assert!(matches!(
        channel_action(ChannelKind::Event, Carrier::Http, None, "I", "P"),
        ChannelAction::Reject
    ));
    assert!(matches!(
        channel_action(ChannelKind::Heartbeat, Carrier::Http, Some("x"), "I", "P"),
        ChannelAction::ForwardToBroker
    ));
    assert!(matches!(
        channel_action(ChannelKind::Response, Carrier::Nats, Some("x"), "I", "P"),
        ChannelAction::ResolveResponse
    ));
    assert!(matches!(
        channel_action(ChannelKind::Response, Carrier::Http, Some("x"), "I", "P"),
        ChannelAction::Ignore
    ));
}

#[test]
fn response_waiters_registry() {
    let mut w = ResponseWaiters::new();
    assert_eq!(w.len(), 0);
    w.start_waiter("r1".to_string(), 10);
    w.start_waiter("r2".to_string(), 20);
    w.start_waiter("r1".to_string(), 11);
    assert_eq!(w.len(), 2);
    assert_eq!(w.take_waiter("r1"), Some(11));
    assert_eq!(w.take_waiter("r1"), None);
    assert_eq!(w.len(), 1);
    w.timeout_reached("r2");
    assert_eq!(w.take_waiter("r2"), None);
    assert_eq!(w.take_waiter("unknown"), None);
    assert_eq!(w.len(), 0);
}

#[test]
fn response_waiter_delivery() {
    let mut w = ResponseWaiter::new(5000, "req".to_string(), "node-a".to_string());
    assert!(w.is_pending());
    assert_eq!(w.request_id(), "req");
    assert_eq!(w.timeout(), 5000);
    assert!(!w.send_response("node-b"));
    assert!(!w.is_pending());
    let mut w2 = ResponseWaiter::new(1, "q".to_string(), "node-a".to_string());
    assert!(w2.send_response("node-a"));
}

#[test]
fn nats_transport_state() {
    let mut t = NatsTransport::new("nats://localhost:4222".to_string());
    assert_eq!(t.address(), "nats://localhost:4222");
    assert_eq!(t.name(), "nats");
    assert!(matches!(t.ensure_connected(), Err(Error::NotConnected)));
    assert!(t.finish_connect(Err(Error::Connection("refused".to_string()))).is_err());
    assert!(!t.is_connected());
    assert!(t.finish_connect(Ok(())).is_ok());
    assert!(t.ensure_connected().is_ok());
    assert!(t.disconnect());
    assert!(!t.disconnect());
    assert!(!t.is_connected());
}

#[test]
fn nats_retry_reports() {
    let (n, level, m) = publish_retry(0);
    assert_eq!(n, 1);
    assert_eq!(level, LogLevel::Warn);
    assert_eq!(m, "Failed to publish to NATS, retry 1 times");
    let (n, level, m) = publish_retry(4);
    assert_eq!(n, 5);
    assert_eq!(level, LogLevel::Error);
    assert_eq!(m, "Failed to publish to NATS, retry 5 times");
    let (n, _, m) = publish_retry(125);
    assert_eq!(n, 126);
    assert_eq!(m, "Failed to publish to NATS, retry 126 times");
    match request_timeout_error() {
        Error::Request(m) => assert_eq!(m, "Request timeout"),
        other => panic!("unexpected {:?}", other),
    }
}

#[test]
fn log_levels() {
    assert_eq!(parse_log_level("trace"), LogLevel::Trace);
    assert_eq!(parse_log_level("DEBUG"), LogLevel::Debug);
    assert_eq!(parse_log_level("Info"), LogLevel::Info);
    assert_eq!(parse_log_level("wArN"), LogLevel::Warn);
    assert_eq!(parse_log_level("error"), LogLevel::Error);
    assert_eq!(parse_log_level("verbose"), LogLevel::Info);
    assert_eq!(parse_log_level(""), LogLevel::Info);
    assert_eq!(parse_log_level("errors"), LogLevel::Info);
}
