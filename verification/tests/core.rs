use podcast_relay::addr::{parse_ipv4, parse_socket_addr, NetAddr};
use podcast_relay::application::Application;
use podcast_relay::audio_server::candidate_ports;
use podcast_relay::authentication::{validate_authentication_data, AuthError};
use podcast_relay::events::{CloseConnectionEvent, HelloEvent, HOST_DISCONNECT};
use podcast_relay::parse::parse_u32;
use podcast_relay::podcast::{await_host_step, PodcastQuery, WatchdogStep};
use podcast_relay::ws::{ClientConnect, MessageWrapper, PodcastWsSession};

fn addr(o0: u8, o1: u8, o2: u8, o3: u8, port: u16) -> NetAddr {
    NetAddr { o0, o1, o2, o3, port }
}

fn announce(ip: &str, port: u32) -> MessageWrapper {
    MessageWrapper {
        message_type: 1,
        data: Some(ClientConnect { ip: ip.to_owned(), port }),
    }
}

#[test]
fn parse_u32_accepts_plain_decimals() {
    assert_eq!(parse_u32("0"), Some(0));
    assert_eq!(parse_u32("42"), Some(42));
    assert_eq!(parse_u32("0042"), Some(42));
    assert_eq!(parse_u32("4294967295"), Some(u32::MAX));
}

#[test]
fn parse_u32_rejects_everything_else() {
    assert_eq!(parse_u32(""), None);
    assert_eq!(parse_u32("abc"), None);
    assert_eq!(parse_u32("12a"), None);
    assert_eq!(parse_u32("-1"), None);
    assert_eq!(parse_u32("+42"), None);
    assert_eq!(parse_u32(" 42"), None);
    assert_eq!(parse_u32("4294967296"), None);
}

#[test]
fn parse_ipv4_accepts_dotted_quads() {
    assert_eq!(parse_ipv4("127.0.0.1"), Some((127, 0, 0, 1)));
    assert_eq!(parse_ipv4("0.0.0.0"), Some((0, 0, 0, 0)));
    assert_eq!(parse_ipv4("255.255.255.255"), Some((255, 255, 255, 255)));
    assert_eq!(parse_ipv4("192.168.1.10"), Some((192, 168, 1, 10)));
}

#[test]
fn parse_ipv4_rejects_malformed_addresses() {
    assert_eq!(parse_ipv4(""), None);
    assert_eq!(parse_ipv4("1.2.3"), None);
    assert_eq!(parse_ipv4("1.2.3.4.5"), None);
    assert_eq!(parse_ipv4("256.0.0.1"), None);
    assert_eq!(parse_ipv4("01.2.3.4"), None);
    assert_eq!(parse_ipv4("a.b.c.d"), None);
    assert_eq!(parse_ipv4("1..2.3"), None);
    assert_eq!(parse_ipv4("1.2.3."), None);
    assert_eq!(parse_ipv4(".1.2.3"), None);
    assert_eq!(parse_ipv4("127.0.0.01"), None);
    assert_eq!(parse_ipv4("1.2.3.4 "), None);
    assert_eq!(parse_ipv4("1.2.1000.4"), None);
}

#[test]
fn parse_socket_addr_checks_the_port_range() {
    assert_eq!(
        parse_socket_addr("127.0.0.1", 9000),
        Some(addr(127, 0, 0, 1, 9000))
    );
    assert_eq!(parse_socket_addr("127.0.0.1", 65536), None);
    assert_eq!(parse_socket_addr("299.0.0.1", 9000), None);
}

#[test]
fn generated_ids_avoid_live_sessions() {
    let mut app = Application::new();
    for k in 0..8u16 {
        app.create_session(1, 42000 + k).unwrap();
    }
    let live: Vec<u32> = app.list_sessions().iter().map(|d| d.id).collect();
    for _ in 0..256 {
        let id = app.generate_id();
        assert!(!live.contains(&id));
    }
}

#[test]
fn live_sessions_have_distinct_ports_and_ids() {
    let mut app = Application::new();
    for k in 0..10u16 {
        app.create_session(3, 42000 + k).unwrap();
    }
    let ports = app.used_ports();
    let datas = app.list_sessions();
    for a in 0..ports.len() {
        for b in 0..ports.len() {
            if a != b {
                assert_ne!(ports[a], ports[b]);
                assert_ne!(datas[a].id, datas[b].id);
            }
        }
    }
}

#[test]
fn sessions_are_looked_up_by_id() {
    let mut app = Application::new();
    let data = app.create_session(4, 42000).unwrap();
    let query = PodcastQuery { id: data.id };
    let found = app.session_data(query.id).unwrap();
    assert_eq!(found, data);
    assert_eq!(app.session_data(data.id.wrapping_add(1)), None);
}

#[test]
fn creating_on_a_taken_port_fails() {
    let mut app = Application::new();
    assert!(app.create_session(1, 42000).is_some());
    assert!(app.create_session(2, 42000).is_none());
    assert!(app.create_session(2, 42001).is_some());
}

#[test]
fn candidate_ports_skip_used_ones() {
    let free = candidate_ports(&Vec::new());
    assert_eq!(free.len(), 100);
    assert_eq!(free[0], 42000);
    assert_eq!(free[99], 42099);

    let used = vec![42000, 42002];
    let free = candidate_ports(&used);
    assert_eq!(free[0], 42001);
    assert!(!free.contains(&42000));
    assert!(!free.contains(&42002));
    assert_eq!(free.len(), 98);
}

#[test]
fn exhausted_port_range_yields_no_candidates() {
    let used: Vec<u16> = (42000..42100).collect();
    assert!(candidate_ports(&used).is_empty());
}

#[test]
fn relay_forwards_only_exact_host_matches() {
    let mut app = Application::new();
    let data = app.create_session(7, 42000).unwrap();
    let host_ws = PodcastWsSession {
        podcast_id: data.id,
        client_id: 7,
        host_client_id: 7,
    };
    let listener = addr(127, 0, 0, 1, 9001);
    app.add_listener(data.id, listener);

    // Nothing is forwarded before the host announces itself.
    assert!(app.relay_targets(data.id, addr(127, 0, 0, 1, 9000)).is_none());

    let r = host_ws.on_message_receive(&mut app, &announce("127.0.0.1", 9000), 5);
    assert_eq!(r, Some(addr(127, 0, 0, 1, 9000)));

    // Exact match forwards to the listener set.
    let targets = app.relay_targets(data.id, addr(127, 0, 0, 1, 9000)).unwrap();
    assert_eq!(targets, vec![listener]);

    // Same IP, different port: dropped. Different IP: dropped.
    assert!(app.relay_targets(data.id, addr(127, 0, 0, 1, 9001)).is_none());
    assert!(app.relay_targets(data.id, addr(10, 0, 0, 1, 9000)).is_none());
    // Unknown session: dropped.
    assert!(app
        .relay_targets(data.id.wrapping_add(1), addr(127, 0, 0, 1, 9000))
        .is_none());
}

#[test]
fn fanout_names_each_listener_exactly_once() {
    let mut app = Application::new();
    let data = app.create_session(7, 42000).unwrap();
    let l1 = addr(127, 0, 0, 1, 9001);
    let l2 = addr(127, 0, 0, 1, 9002);
    app.add_listener(data.id, l1);
    app.add_listener(data.id, l2);
    // A re-announcement of a known listener does not duplicate it.
    app.add_listener(data.id, l1);

    let host = addr(127, 0, 0, 1, 9000);
    app.activate_session(data.id, host, 1);
    let targets = app.relay_targets(data.id, host).unwrap();
    assert_eq!(targets.len(), 2);
    assert_eq!(targets.iter().filter(|a| **a == l1).count(), 1);
    assert_eq!(targets.iter().filter(|a| **a == l2).count(), 1);
}

#[test]
fn watchdog_removes_only_after_the_grace_period() {
    assert!(matches!(await_host_step(None, 0), WatchdogStep::Stop));
    assert!(matches!(await_host_step(Some(true), 0), WatchdogStep::Stop));
    assert!(matches!(await_host_step(Some(false), 0), WatchdogStep::Sleep));
    assert!(matches!(await_host_step(Some(false), 60), WatchdogStep::Sleep));
    assert!(matches!(await_host_step(Some(false), 61), WatchdogStep::Remove));
    assert!(matches!(await_host_step(Some(true), 120), WatchdogStep::Stop));
}

#[test]
fn watchdog_scenario_reclaims_a_silent_session() {
    let mut app = Application::new();
    let data = app.create_session(7, 42000).unwrap();

    // Within the grace period the watchdog keeps polling.
    let polled = app.is_host_connected(data.id);
    assert_eq!(polled, Some(false));
    assert!(matches!(await_host_step(polled, 2), WatchdogStep::Sleep));

    // Past the grace period it removes the session.
    let polled = app.is_host_connected(data.id);
    assert!(matches!(await_host_step(polled, 62), WatchdogStep::Remove));
    app.remove_session(data.id);
    assert!(!app.contains_session(data.id));

    // The next poll sees the session gone and stops.
    let polled = app.is_host_connected(data.id);
    assert_eq!(polled, None);
    assert!(matches!(await_host_step(polled, 64), WatchdogStep::Stop));
}

#[test]
fn active_since_is_set_exactly_once_and_only_by_the_host() {
    let mut app = Application::new();
    let data = app.create_session(7, 42000).unwrap();
    let host_ws = PodcastWsSession {
        podcast_id: data.id,
        client_id: 7,
        host_client_id: 7,
    };
    let listener_ws = PodcastWsSession {
        podcast_id: data.id,
        client_id: 8,
        host_client_id: 7,
    };

    // A listener announcement never activates the session.
    let r = listener_ws.on_message_receive(&mut app, &announce("127.0.0.1", 9001), 11);
    assert_eq!(r, None);
    assert_eq!(app.session_data(data.id).unwrap().active_since, None);

    // The host's first announcement activates it.
    let r = host_ws.on_message_receive(&mut app, &announce("127.0.0.1", 9000), 22);
    assert_eq!(r, Some(addr(127, 0, 0, 1, 9000)));
    assert_eq!(app.session_data(data.id).unwrap().active_since, Some(22));

    // A second host announcement is a no-op: same stamp, same address.
    let r = host_ws.on_message_receive(&mut app, &announce("10.0.0.9", 9005), 33);
    assert_eq!(r, None);
    assert_eq!(app.session_data(data.id).unwrap().active_since, Some(22));
    assert!(app.relay_targets(data.id, addr(127, 0, 0, 1, 9000)).is_some());
    assert!(app.relay_targets(data.id, addr(10, 0, 0, 9, 9005)).is_none());
}

#[test]
fn malformed_announcements_are_dropped_silently() {
    let mut app = Application::new();
    let data = app.create_session(7, 42000).unwrap();
    let host_ws = PodcastWsSession {
        podcast_id: data.id,
        client_id: 7,
        host_client_id: 7,
    };

    // Unknown tag, missing payload, bad address, bad port: all ignored.
    let unknown = MessageWrapper {
        message_type: 2,
        data: Some(ClientConnect { ip: "127.0.0.1".to_owned(), port: 9000 }),
    };
    assert_eq!(host_ws.on_message_receive(&mut app, &unknown, 1), None);
    let empty = MessageWrapper { message_type: 1, data: None };
    assert_eq!(host_ws.on_message_receive(&mut app, &empty, 1), None);
    assert_eq!(
        host_ws.on_message_receive(&mut app, &announce("not-an-ip", 9000), 1),
        None
    );
    assert_eq!(
        host_ws.on_message_receive(&mut app, &announce("127.0.0.1", 70000), 1),
        None
    );
    assert_eq!(app.session_data(data.id).unwrap().active_since, None);

    // An announcement for a session that is gone changes nothing.
    let stray = PodcastWsSession {
        podcast_id: data.id.wrapping_add(1),
        client_id: 7,
        host_client_id: 7,
    };
    assert_eq!(
        stray.on_message_receive(&mut app, &announce("127.0.0.1", 9000), 1),
        None
    );
}

#[test]
fn host_disconnect_notifies_every_other_participant_once() {
    let mut app = Application::new();
    let data = app.create_session(1, 42000).unwrap();
    let host_ws = PodcastWsSession {
        podcast_id: data.id,
        client_id: 1,
        host_client_id: 1,
    };
    let l2 = PodcastWsSession {
        podcast_id: data.id,
        client_id: 2,
        host_client_id: 1,
    };
    let l3 = PodcastWsSession {
        podcast_id: data.id,
        client_id: 3,
        host_client_id: 1,
    };
    assert!(host_ws.started(&mut app).is_some());
    assert!(l2.started(&mut app).is_some());
    assert!(l3.started(&mut app).is_some());

    // A listener's disconnect has no effect on the session.
    let events = l2.on_disconnect(&mut app);
    assert!(events.is_empty());
    assert!(app.contains_session(data.id));

    // The host's disconnect notifies 2 and 3 exactly once, then removes
    // the session.
    let events = host_ws.on_disconnect(&mut app);
    assert_eq!(events.len(), 2);
    for wanted in [2u32, 3u32] {
        assert_eq!(
            events
                .iter()
                .filter(|pe| pe.0 == wanted && pe.1 == CloseConnectionEvent { reason: 0 })
                .count(),
            1
        );
    }
    assert!(!app.contains_session(data.id));

    // Disconnecting again finds nothing to do.
    let events = host_ws.on_disconnect(&mut app);
    assert!(events.is_empty());
}

#[test]
fn event_wire_tags_are_fixed() {
    assert_eq!(HelloEvent { port: 42000 }.event_type(), 1);
    assert_eq!(CloseConnectionEvent { reason: HOST_DISCONNECT }.event_type(), 2);
    assert_eq!(HOST_DISCONNECT, 0);
    assert_eq!(ClientConnect::request_type(), 1);
}

#[test]
fn authentication_accepts_only_matching_credentials() {
    let creds = vec![(5u32, String::from("SECRET-REDACTED")), (9u32, String::from("other"))];

    let auth =
        validate_authentication_data(Some("5"), Some("SECRET-REDACTED"), &creds).unwrap();
    assert_eq!(auth.client_id, 5);
    assert_eq!(auth.client_secret, "SECRET-REDACTED");

    // Leading zeros in the id header are accepted.
    let auth =
        validate_authentication_data(Some("0009"), Some("other"), &creds).unwrap();
    assert_eq!(auth.client_id, 9);

    assert_eq!(
        validate_authentication_data(None, Some("SECRET-REDACTED"), &creds).unwrap_err(),
        AuthError::MissingData
    );
    assert_eq!(
        validate_authentication_data(Some("5"), None, &creds).unwrap_err(),
        AuthError::MissingData
    );
    assert_eq!(
        validate_authentication_data(Some("abc"), Some("SECRET-REDACTED"), &creds).unwrap_err(),
        AuthError::InvalidClientId
    );
    assert_eq!(
        validate_authentication_data(Some("99999999999"), Some("x"), &creds).unwrap_err(),
        AuthError::InvalidClientId
    );
    assert_eq!(
        validate_authentication_data(Some("5"), Some("wrong"), &creds).unwrap_err(),
        AuthError::InvalidSecret
    );
    assert_eq!(
        validate_authentication_data(Some("6"), Some("SECRET-REDACTED"), &creds).unwrap_err(),
        AuthError::InvalidSecret
    );
}

#[test]
fn end_to_end_scenario() {
    // Create a session on an empty registry: the first free port is 42000.
    let mut app = Application::new();
    let free = candidate_ports(&app.used_ports());
    assert_eq!(free[0], 42000);
    let data = app.create_session(7, free[0]).unwrap();
    assert_eq!(data.active_since, None);
    assert_eq!(data.host, 7);

    // A listener registers beforehand at 127.0.0.1:9001.
    let listener_ws = PodcastWsSession {
        podcast_id: data.id,
        client_id: 8,
        host_client_id: 7,
    };
    let hello = listener_ws.started(&mut app).unwrap();
    assert_eq!(hello.port, 42000);
    assert_eq!(
        listener_ws.on_message_receive(&mut app, &announce("127.0.0.1", 9001), 90),
        None
    );

    // The host opens signaling and announces 127.0.0.1:9000.
    let host_ws = PodcastWsSession {
        podcast_id: data.id,
        client_id: 7,
        host_client_id: 7,
    };
    let hello = host_ws.started(&mut app).unwrap();
    assert_eq!(hello.port, 42000);
    let listen_on = host_ws
        .on_message_receive(&mut app, &announce("127.0.0.1", 9000), 100)
        .unwrap();
    assert_eq!(listen_on, addr(127, 0, 0, 1, 9000));
    assert_eq!(app.session_data(data.id).unwrap().active_since, Some(100));

    // A datagram from 127.0.0.1:9000 with payload "hi" is forwarded to the
    // listener; the payload reaches each target unchanged.
    let payload = b"hi".to_vec();
    let targets = app.relay_targets(data.id, listen_on).unwrap();
    assert_eq!(targets, vec![addr(127, 0, 0, 1, 9001)]);
    for _target in &targets {
        assert_eq!(payload, b"hi".to_vec());
    }
}
