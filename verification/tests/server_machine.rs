use nanonode::channel::ChannelMode;
use nanonode::hashes::PublicKey;
use nanonode::server::{
    BootstrapAttempt, BootstrapMode, InboundMessageKind, ResponseServer,
};

#[test]
fn handshake_then_realtime() {
    let mut server = ResponseServer::new(1);
    let node_id = PublicKey::from(9);
    assert!(server.is_undefined_connection());

    // a valid handshake switches the connection to realtime
    let first = server.process_message(&node_id, InboundMessageKind::HandshakeOk);
    assert!(server.is_realtime_connection());
    assert!(first.queue_realtime);
    assert!(first.continue_receiving);

    // a publish is enqueued to the realtime queue
    let publish = server.process_message(&node_id, InboundMessageKind::RealtimeMessage);
    assert!(publish.queue_realtime);
    assert!(publish.continue_receiving);

    // a bulk pull in realtime mode is dropped, not serviced
    let pull = server.process_message(&node_id, InboundMessageKind::BootstrapRequest);
    assert!(!pull.queue_realtime);
    assert!(pull.dropped);
    assert!(pull.continue_receiving);
    assert!(server.is_realtime_connection());
}

#[test]
fn bootstrap_request_switches_to_bootstrap() {
    let mut server = ResponseServer::new(2);
    let node_id = PublicKey::from(9);
    let decision = server.process_message(&node_id, InboundMessageKind::BootstrapRequest);
    assert!(server.is_bootstrap_connection());
    // the bootstrap serve takes the socket over
    assert!(!decision.continue_receiving);
    assert!(!decision.queue_realtime);

    // gossip in bootstrap mode is ignored
    let gossip = server.process_message(&node_id, InboundMessageKind::RealtimeMessage);
    assert!(!gossip.queue_realtime);
    assert!(gossip.dropped);
    assert!(server.is_bootstrap_connection());
}

#[test]
fn undefined_connection_ignores_other_messages() {
    let mut server = ResponseServer::new(3);
    let node_id = PublicKey::from(9);
    let decision = server.process_message(&node_id, InboundMessageKind::Other);
    assert!(server.is_undefined_connection());
    assert!(!decision.queue_realtime);
    assert!(decision.continue_receiving);
}

#[test]
fn bootstrap_cap_refuses_more_connections() {
    let mut server = ResponseServer::new(4);
    server.bootstrap_count = server.connections_max;
    assert!(!server.to_bootstrap_connection());
    assert_eq!(server.mode, ChannelMode::Undefined);
}

#[test]
fn telemetry_requests_are_rate_limited() {
    let mut server = ResponseServer::new(5);
    assert!(server.is_telemetry_cutoff_exceeded(100, 60));
    server.set_last_telemetry_req(100);
    assert!(!server.is_telemetry_cutoff_exceeded(130, 60));
    assert!(server.is_telemetry_cutoff_exceeded(160, 60));
}

#[test]
fn bootstrap_attempt_logs_on_schedule() {
    let mut attempt = BootstrapAttempt::new(7, BootstrapMode::Legacy, 100);
    assert_eq!(attempt.mode_text(), "legacy");
    assert_eq!(attempt.total_blocks, 0);
    // not yet due at the starting instant
    assert!(!attempt.should_log(100));
    assert!(attempt.should_log(101));
    // the next line is due only after the interval
    assert!(!attempt.should_log(110));
    assert!(attempt.should_log(117));
}

#[test]
fn bootstrap_mode_texts() {
    let lazy = BootstrapAttempt::new(8, BootstrapMode::Lazy, 0);
    assert_eq!(lazy.mode_text(), "lazy");
    let wallet = BootstrapAttempt::new(9, BootstrapMode::WalletLazy, 0);
    assert_eq!(wallet.mode_text(), "wallet_lazy");
}
