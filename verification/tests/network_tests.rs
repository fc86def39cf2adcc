use slsk_core::command::Command;
use slsk_core::config::Config;
use slsk_core::event::Event;
use slsk_core::network::framing::{read_frame, write_frame};
use slsk_core::network::peer::{
    decompress_zlib, encode_our_init, handle_peer_message, peer_ipv4_octets, read_incoming_init,
    DecompressError, IncomingInit,
};
use slsk_core::network::server::{
    frame_too_large, login_hash, next_reconnect_delay, next_reconnect_delay_with, rand_u32_range,
    ServerConnState, ServerSession, SessionAction, SessionInput,
};
use slsk_core::network::socket::recv_buffer_size;
use slsk_core::network::state::{ConnectionState, ServerStats};
use slsk_core::clock::Delay;
use slsk_core::protocol::ConnectionType;
use std::io::Write;

fn le(x: u32) -> [u8; 4] {
    x.to_le_bytes()
}

fn str_field(s: &str) -> Vec<u8> {
    let mut v = le(s.len() as u32).to_vec();
    v.extend_from_slice(s.as_bytes());
    v
}

#[test]
fn write_frame_verify_length() {
    let frame = write_frame(1, &[]);
    assert_eq!(frame.len(), 8);
    let buf = frame.clone();
    assert_eq!(u32::from_le_bytes([buf[0], buf[1], buf[2], buf[3]]), 4);
    assert_eq!(u32::from_le_bytes([buf[4], buf[5], buf[6], buf[7]]), 1);
}

#[test]
fn read_frame_simple() {
    let frame = write_frame(42, &[1, 2, 3]);
    let mut buf = frame;
    let result = read_frame(&mut buf).unwrap();
    let (code, payload) = result.unwrap();
    assert_eq!(code, 42);
    assert_eq!(payload.len(), 3);
    assert_eq!(&payload[..], &[1, 2, 3]);
}

#[test]
fn read_frame_incomplete() {
    let raw: &[u8] = &[0x04, 0x00, 0x00, 0x00];
    let mut buf = raw.to_vec();
    let result = read_frame(&mut buf).unwrap();
    assert!(result.is_none());
}

#[test]
fn read_frame_consumes() {
    let mut buf = write_frame(7, b"ab");
    buf.extend_from_slice(&write_frame(8, b""));
    buf.push(9);
    assert_eq!(read_frame(&mut buf).unwrap(), Some((7, b"ab".to_vec())));
    assert_eq!(read_frame(&mut buf).unwrap(), Some((8, vec![])));
    assert_eq!(buf, vec![9]);
    assert_eq!(read_frame(&mut buf).unwrap(), None);
    assert_eq!(buf, vec![9]);
    let mut part = vec![6, 0, 0, 0, 1];
    assert_eq!(read_frame(&mut part).unwrap(), None);
    assert_eq!(part, vec![6, 0, 0, 0, 1]);
    part.extend_from_slice(&[0, 0, 0, 0xaa, 0xbb]);
    assert_eq!(read_frame(&mut part).unwrap(), Some((1, vec![0xaa, 0xbb])));
    assert!(part.is_empty());
}

#[test]
fn read_frame_incomplete_keeps_length() {
    let mut buf = vec![0x04, 0x00, 0x00, 0x00];
    assert_eq!(read_frame(&mut buf).unwrap(), None);
    assert_eq!(buf.len(), 4);
}

#[test]
fn connection_type_to_string() {
    assert_eq!(format!("{:?}", ConnectionType::FileTransfer), "FileTransfer");
    assert_eq!(format!("{:?}", ConnectionType::PeerToPeer), "PeerToPeer");
    assert_eq!(format!("{:?}", ConnectionType::Distributed), "Distributed");
}

#[test]
fn socket_buffer_sizes() {
    assert_eq!(recv_buffer_size(ConnectionType::FileTransfer), None);
    assert_eq!(recv_buffer_size(ConnectionType::Distributed), Some(16_384));
    assert_eq!(recv_buffer_size(ConnectionType::PeerToPeer), Some(208_896));
}

#[test]
fn state_names_and_stats() {
    assert_eq!(ConnectionState::Authenticating.to_string(), "Authenticating");
    assert_eq!(ConnectionState::Disconnected.to_string(), "Disconnected");
    let mut s = ServerStats::new();
    s.record_received(10);
    s.record_received(0);
    assert_eq!(s.bytes_recv, 18);
    assert_eq!(s.messages_recv, 2);
    s.reset();
    assert_eq!(s, ServerStats::default());
    assert_eq!(ServerConnState::default(), ServerConnState::Disconnected);
}

#[test]
fn reconnect_backoff() {
    assert_eq!(next_reconnect_delay_with(None, 9).as_secs(), 9);
    assert_eq!(next_reconnect_delay_with(Some(Delay::from_secs(10)), 0).as_secs(), 20);
    assert_eq!(next_reconnect_delay_with(Some(Delay::from_secs(200)), 0).as_secs(), 300);
    assert_eq!(next_reconnect_delay(Some(Delay::from_secs(300))).as_secs(), 300);
    for _ in 0..20 {
        let d = next_reconnect_delay(None).as_secs();
        assert!((5..=15).contains(&d));
        let r = rand_u32_range(3, 4);
        assert!(r == 3 || r == 4);
    }
    assert!(frame_too_large(2 * 1024 * 1024 + 1));
    assert!(!frame_too_large(2 * 1024 * 1024));
}

#[test]
fn login_hash_is_md5_hex() {
    assert_eq!(login_hash("alice", "secret"), "c4e31313222cf05fcdd1fc068af5570e");
}

fn config() -> Config {
    Config {
        username: "alice".into(),
        password: "secret".into(),
        ..Config::default()
    }
}

#[test]
fn config_defaults() {
    let c = Config::default();
    assert_eq!(c.host, "server.slsknet.org");
    assert_eq!(c.port, 2242);
    assert_eq!(c.listen_port, 2234);
    assert_eq!(c.major_version, 182);
    assert_eq!(c.minor_version, 1);
    assert!(c.username.is_empty() && c.password.is_empty());
}

fn frame(code: u32, payload: &[u8]) -> Vec<u8> {
    let mut v = le(4 + payload.len() as u32).to_vec();
    v.extend_from_slice(&le(code));
    v.extend_from_slice(payload);
    v
}

#[test]
fn session_logs_in() {
    let cfg = config();
    let mut s = ServerSession::new();
    assert!(matches!(s.start(), SessionAction::Connect));
    let step = s.step(&cfg, SessionInput::ConnectOpened);
    let mut login = str_field("alice");
    login.extend(str_field("secret"));
    login.extend(le(182));
    login.extend(str_field("c4e31313222cf05fcdd1fc068af5570e"));
    login.extend(le(1));
    let mut expected = frame(1, &login);
    expected.extend(frame(2, &le(2234)));
    match step.action {
        SessionAction::WriteLogin(bytes) => assert_eq!(bytes, expected),
        other => panic!("unexpected {:?}", other),
    }
    assert!(matches!(s.step(&cfg, SessionInput::LoginWritten).action, SessionAction::ReadLoginAnswer));
    assert_eq!(s.state, ServerConnState::LoggingIn);
    let mut answer = vec![1u8];
    answer.extend(str_field("welcome"));
    answer.extend(le(0x0100007f));
    answer.extend(str_field("hash"));
    answer.push(1);
    let step = s.step(&cfg, SessionInput::LoginAnswer { code: 1, payload: answer });
    assert_eq!(s.state, ServerConnState::Connected);
    assert!(matches!(&step.events[..], [Event::Connected { motd }] if motd == "welcome"));
    let mut setup = frame(71, &[1]);
    setup.extend(frame(127, &str_field("alice")));
    setup.extend(frame(126, &le(0)));
    setup.extend(frame(100, &[0]));
    let mut counts = le(0).to_vec();
    counts.extend(le(0));
    setup.extend(frame(35, &counts));
    match step.action {
        SessionAction::WriteSetup(bytes) => assert_eq!(bytes, setup),
        other => panic!("unexpected {:?}", other),
    }
    assert!(matches!(s.step(&cfg, SessionInput::SetupWritten).action, SessionAction::Listen));
    // A relayed search becomes a search result without file details.
    let mut fs = str_field("bob");
    fs.extend(le(77));
    fs.extend(str_field("query"));
    let step = s.step(&cfg, SessionInput::Message { code: 26, payload: fs });
    assert!(matches!(&step.events[..],
        [Event::SearchResult { token: 77, username, filename, size: 0 }] if username == "bob" && filename.is_empty()));
    // A search command writes a search request; once written it is reported.
    let step = s.step(&cfg, SessionInput::Command(Command::Search { query: "abc".into(), token: 5 }));
    let mut req = le(5).to_vec();
    req.extend(str_field("abc"));
    match step.action {
        SessionAction::WriteSearch { frame: f, token, query } => {
            assert_eq!(f, frame(26, &req));
            assert_eq!(token, 5);
            assert_eq!(query, "abc");
        }
        other => panic!("unexpected {:?}", other),
    }
    let step = s.step(&cfg, SessionInput::SearchWritten { token: 5, query: "abc".into() });
    assert!(matches!(&step.events[..], [Event::SearchStarted { token: 5, query }] if query == "abc"));
    // A connect-to-peer request is passed on.
    let mut ctp = str_field("carl");
    ctp.extend(str_field("F"));
    ctp.extend(le(1));
    ctp.extend(le(2000));
    ctp.extend(le(99));
    match s.step(&cfg, SessionInput::Message { code: 18, payload: ctp }).action {
        SessionAction::ConnectToPeer { username, ip: 1, port: 2000, token: 99, conn_type } => {
            assert_eq!(username, "carl");
            assert_eq!(conn_type, ConnectionType::FileTransfer);
        }
        other => panic!("unexpected {:?}", other),
    }
    // Another login with our name ends the session.
    let step = s.step(&cfg, SessionInput::Message { code: 41, payload: vec![] });
    assert!(s.relogged);
    assert!(matches!(step.action, SessionAction::Stop));
    assert!(matches!(&step.events[..], [Event::Disconnected { reason: Some(r) }] if r == "Relogged"));
}

#[test]
fn session_reconnects_and_fails() {
    let cfg = config();
    let mut s = ServerSession::new();
    let first = match s.step(&cfg, SessionInput::ConnectFailed).action {
        SessionAction::ReconnectAfter(d) => d.as_secs(),
        other => panic!("unexpected {:?}", other),
    };
    assert!((5..=15).contains(&first));
    match s.step(&cfg, SessionInput::ReadFailed("broken".into())) {
        step => {
            assert!(matches!(step.action, SessionAction::ReconnectAfter(d) if d.as_secs() == 2 * first));
            assert!(matches!(&step.events[..], [Event::Disconnected { reason: Some(r) }] if r == "broken"));
        }
    }
    let step = s.step(&cfg, SessionInput::LoginAnswer { code: 5, payload: vec![] });
    assert!(matches!(&step.events[..], [Event::Disconnected { reason: Some(r) }] if r == "io error: expected code 1, got 5"));
    let step = s.step(&cfg, SessionInput::LoginAnswer { code: 1, payload: vec![1] });
    assert!(matches!(&step.events[..], [Event::Disconnected { reason: Some(r) }] if r == "protocol error: message truncated"));
    let mut refused = vec![0u8];
    refused.extend(str_field("INVALIDPASS"));
    let step = s.step(&cfg, SessionInput::LoginAnswer { code: 1, payload: refused });
    assert!(matches!(step.action, SessionAction::Stop));
    assert!(matches!(&step.events[..], [Event::LoginFailed { reason }] if reason == "INVALIDPASS"));
    assert!(matches!(s.step(&cfg, SessionInput::Command(Command::Disconnect)).action, SessionAction::Stop));
    assert!(matches!(s.step(&cfg, SessionInput::CommandsClosed).action, SessionAction::Stop));
    assert!(matches!(s.step(&cfg, SessionInput::Command(Command::JoinRoom("x".into()))).action, SessionAction::Listen));
}

#[test]
fn peer_init_and_addresses() {
    let f = encode_our_init("me", ConnectionType::PeerToPeer);
    let mut payload = str_field("me");
    payload.extend(str_field("P"));
    payload.extend(le(182));
    let mut expected = le(1 + payload.len() as u32).to_vec();
    expected.push(1);
    expected.extend(payload);
    assert_eq!(f, expected);
    let mut init = str_field("bob");
    init.extend(str_field("F"));
    init.extend(le(3));
    assert_eq!(
        read_incoming_init(1, &init),
        IncomingInit::PeerInit { username: "bob".into(), conn_type: ConnectionType::FileTransfer }
    );
    assert_eq!(read_incoming_init(0, &le(44)), IncomingInit::PierceFirewall { token: 44 });
    assert_eq!(read_incoming_init(7, &[]), IncomingInit::UnknownCode(7));
    assert_eq!(peer_ipv4_octets(0x0100007f), [127, 0, 0, 1]);
}

fn zlib(data: &[u8]) -> Vec<u8> {
    let mut e = flate2::write::ZlibEncoder::new(Vec::new(), flate2::Compression::default());
    e.write_all(data).unwrap();
    e.finish().unwrap()
}

#[test]
fn peer_search_response() {
    let mut body = str_field("bob");
    body.extend(le(1234));
    body.extend(le(2));
    for (name, size) in [("music\\a.mp3", 10u64), ("music\\b.flac", 5_000_000_000u64)] {
        body.push(1);
        body.extend(str_field(name));
        body.extend(size.to_le_bytes());
        body.extend(str_field("mp3"));
        body.extend(le(1));
        body.extend(le(0));
        body.extend(le(320));
    }
    body.push(1);
    body.extend(le(1000));
    body.extend(le(3));
    let events = handle_peer_message(9, &zlib(&body), "bob").unwrap();
    assert_eq!(events.len(), 1);
    assert!(matches!(&events[0], Event::SearchResult { token: 1234, username, filename, size: 10 }
        if username == "bob" && filename == "music\\a.mp3"));
    assert!(handle_peer_message(9, b"not zlib", "bob").unwrap().is_empty());
    let mut none = str_field("bob");
    none.extend(le(1234));
    none.extend(le(0));
    none.push(1);
    none.extend(le(1000));
    none.extend(le(3));
    assert!(handle_peer_message(9, &zlib(&none), "bob").unwrap().is_empty());
    let mut tr = le(1).to_vec();
    tr.extend(le(8));
    tr.extend(str_field("x.mp3"));
    tr.extend(77u64.to_le_bytes());
    let events = handle_peer_message(40, &tr, "eve").unwrap();
    assert!(matches!(&events[..], [Event::TransferRequest { username, filename, size: 77, token: 8 }]
        if username == "eve" && filename == "x.mp3"));
    assert!(handle_peer_message(40, &[1, 2], "eve").is_err());
    assert!(handle_peer_message(43, &str_field("y"), "eve").unwrap().is_empty());
    assert!(handle_peer_message(1000, &[], "eve").unwrap().is_empty());
}

#[test]
fn zlib_limit() {
    let data = vec![7u8; 100_000];
    assert_eq!(decompress_zlib(&zlib(&data), 200_000).unwrap(), data);
    assert_eq!(
        decompress_zlib(&zlib(&data), 1000),
        Err(DecompressError::TooLarge { limit: 1000 })
    );
    assert!(matches!(decompress_zlib(b"garbage", 1000), Err(DecompressError::Inflate(_))));
}
