use zerror::server::{
    decide_start, decide_stop, decimal, parse_bind_address, server_url, StartDecision, StopDecision,
};
use zerror::types::ServerInfo;

#[test]
fn addresses_are_read() {
    assert_eq!(parse_bind_address("0.0.0.0"), Ok([0, 0, 0, 0]));
    assert_eq!(parse_bind_address("127.0.0.1"), Ok([127, 0, 0, 1]));
    assert_eq!(parse_bind_address("192.168.001.255"), Ok([192, 168, 1, 255]));
    assert_eq!(parse_bind_address("+10.0.0.1"), Ok([10, 0, 0, 1]));
}

#[test]
fn bad_addresses_are_refused() {
    for a in ["256.0.0.1", "1.2.3", "1.2.3.4.5", "", "a.b.c.d", "1..2.3", "-1.2.3.4", "1.2.3.4 "] {
        assert_eq!(parse_bind_address(a), Err(format!("Invalid IP address format: {}", a)));
    }
}

#[test]
fn decimal_ports() {
    assert_eq!(decimal(0), "0");
    assert_eq!(decimal(3000), "3000");
    assert_eq!(decimal(65535), "65535");
}

#[test]
fn server_urls() {
    assert_eq!(server_url("0.0.0.0", 3000), "http://localhost:3000");
    assert_eq!(server_url("192.168.1.2", 8080), "http://192.168.1.2:8080");
}

#[test]
fn start_decisions() {
    let stopped = ServerInfo::stopped();
    assert_eq!(decide_start(&stopped, 0, "0.0.0.0").unwrap_err(), "Invalid port number");
    match decide_start(&stopped, 3000, "127.0.0.1").unwrap() {
        StartDecision::Launch(ip, info) => {
            assert_eq!(ip, [127, 0, 0, 1]);
            assert!(info.running);
            assert_eq!(info.port, Some(3000));
            assert_eq!(info.url.as_deref(), Some("http://127.0.0.1:3000"));
        }
        other => panic!("unexpected {:?}", other),
    }
    assert!(decide_start(&stopped, 3000, "localhost").is_err());
    let running = ServerInfo::running_at("0.0.0.0", 3000);
    match decide_start(&running, 4000, "bad").unwrap() {
        StartDecision::AlreadyRunning(info) => {
            assert_eq!(info.url.as_deref(), Some("http://localhost:3000"));
        }
        other => panic!("unexpected {:?}", other),
    }
}

#[test]
fn stop_decisions() {
    match decide_stop(&ServerInfo::stopped()) {
        StopDecision::AlreadyStopped(info) => assert!(!info.running),
        other => panic!("unexpected {:?}", other),
    }
    match decide_stop(&ServerInfo::running_at("127.0.0.1", 3000)) {
        StopDecision::Stop(info) => {
            assert!(!info.running);
            assert_eq!(info.port, None);
            assert_eq!(info.url, None);
        }
        other => panic!("unexpected {:?}", other),
    }
}
