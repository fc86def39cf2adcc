use slsk_core::network::peer::{encode_our_init, read_incoming_init, split_init_body, IncomingInit};
use slsk_core::protocol::server_msg::{decode_file_search, decode_login, LoginResponse};
use slsk_core::protocol::ConnectionType;
use slsk_core::search::word_index::IndexedFile;
use slsk_core::profiles::Profile;
use slsk_core::search::WordIndex;
use slsk_core::ui::{
    file_kind, login_form_attempt, saved_profile_login, ConnectionStatus, DownloadList, FileKind,
    LoginAttempt, SearchResult, SearchResults, Settings,
};

fn result(token: u32, user: &str, file: &str) -> SearchResult {
    SearchResult { token, username: user.into(), filename: file.into(), size: 1 }
}

#[test]
fn search_results_filter_stale_and_duplicates() {
    let mut r = SearchResults::new();
    assert_eq!(r.on_search_started(5, "abc"), "Searching for \"abc\"...");
    assert!(r.add_result(result(5, "bob", "a.mp3")));
    assert!(!r.add_result(result(5, "bob", "a.mp3")));
    assert!(!r.add_result(result(4, "eve", "b.mp3")));
    assert_eq!(r.status_text(), "1 result");
    assert!(r.add_result(result(5, "eve", "a.mp3")));
    assert_eq!(r.status_text(), "2 results");
    r.on_search_started(6, "x");
    assert!(r.results().is_empty());
    assert_eq!(r.status_text(), "0 results");
}

#[test]
fn download_list_updates() {
    let mut d = DownloadList::new();
    d.add_download(1, "a.mp3", "bob", 100);
    d.add_download(2, "b.mp3", "eve", 200);
    assert_eq!(d.find(2), Some(1));
    assert_eq!(d.find(3), None);
    d.update_progress(2, 50, 10, "downloading");
    assert_eq!(d.downloads()[1].downloaded, 50);
    assert_eq!(d.downloads()[1].state, "downloading");
    assert_eq!(d.downloads()[0].state, "queued");
    d.update_progress(9, 1, 1, "x");
    d.remove_download(1);
    assert_eq!(d.downloads().len(), 1);
    assert_eq!(d.downloads()[0].id, 2);
}

#[test]
fn status_texts() {
    assert_eq!(ConnectionStatus::Connecting.text(), "Connecting...");
    assert_eq!(
        ConnectionStatus::ConnectionFailed("timeout".into()).text(),
        "Connection failed: timeout"
    );
    assert_eq!(ConnectionStatus::LoginFailed("INVALIDPASS".into()).text(), "Login failed: INVALIDPASS");
    assert!(ConnectionStatus::ConnectionRefused.allows_retry());
    assert!(!ConnectionStatus::Connected.allows_retry());
    assert!(ConnectionStatus::Connected.ends_wait());
    assert!(!ConnectionStatus::ResolvingHost.ends_wait());
    let s = Settings::defaults("/downloads".into());
    assert_eq!(s.server_host, "server.slsknet.org");
    assert_eq!((s.server_port, s.listen_port, s.upload_slots), (2242, 2234, 3));
    assert!(s.auto_reconnect && !s.dark_mode);
}

#[test]
fn indexed_file_extension() {
    assert_eq!(IndexedFile::new("music\\Song.FLAC".into(), 3).extension, "flac");
    assert_eq!(IndexedFile::new("README".into(), 3).extension, "");
}

#[test]
fn peer_init_roundtrip() {
    let frame = encode_our_init("zoë", ConnectionType::Distributed);
    let (code, payload) = split_init_body(&frame[4..]);
    assert_eq!(
        read_incoming_init(code, &payload),
        IncomingInit::PeerInit { username: "zoë".into(), conn_type: ConnectionType::Distributed }
    );
}

#[test]
fn invalid_utf8_is_replaced() {
    let mut b = 2u32.to_le_bytes().to_vec();
    b.extend([0x61, 0xff]);
    b.extend(9u32.to_le_bytes());
    b.extend(0u32.to_le_bytes());
    let m = decode_file_search(&b).unwrap();
    assert_eq!(m.username, "a\u{fffd}");
    assert_eq!(m.token, 9);
    assert_eq!(m.query, "");
    assert!(matches!(decode_login(&[0]), Err(_)));
    let mut ok = vec![1u8];
    ok.extend(0u32.to_le_bytes());
    ok.extend(7u32.to_le_bytes());
    ok.extend(0u32.to_le_bytes());
    assert_eq!(
        decode_login(&ok).unwrap(),
        LoginResponse::Success { greet: "".into(), own_ip: 7, hash: "".into(), is_supporter: false }
    );
}

#[test]
fn login_form_refuses_empty_fields() {
    for (u, p) in [("", "pw"), ("alice", ""), ("", "")] {
        match login_form_attempt(u, p, true) {
            LoginAttempt::Refused { message } => {
                assert_eq!(message, "Please enter username and password")
            }
            other => panic!("expected a refusal, got {:?}", other),
        }
    }
}

#[test]
fn login_form_connects_and_saves_when_asked() {
    match login_form_attempt("alice", "secret", true) {
        LoginAttempt::Connect { username, password, status, save } => {
            assert_eq!(username, "alice");
            assert_eq!(password, "secret");
            assert_eq!(status, "Connecting...");
            let p = save.unwrap();
            assert_eq!((p.name.as_str(), p.username.as_str()), ("alice", "alice"));
            assert_eq!(p.password.as_deref(), Some("secret"));
        }
        other => panic!("expected a connection, got {:?}", other),
    }
    match login_form_attempt("bob", "pw", false) {
        LoginAttempt::Connect { save, .. } => assert!(save.is_none()),
        other => panic!("expected a connection, got {:?}", other),
    }
}

#[test]
fn saved_profile_login_uses_stored_password() {
    let profiles = vec![
        Profile { name: "A".into(), username: "alice".into(), password: Some("pw".into()) },
        Profile { name: "B".into(), username: "bob".into(), password: None },
    ];
    assert_eq!(
        saved_profile_login(&profiles, 0),
        Some(("alice".to_string(), "pw".to_string(), "Connecting as alice...".to_string()))
    );
    assert_eq!(
        saved_profile_login(&profiles, 1),
        Some(("bob".to_string(), String::new(), "Connecting as bob...".to_string()))
    );
    assert_eq!(saved_profile_login(&profiles, 2), None);
}

#[test]
fn file_icons_by_ending() {
    assert_eq!(file_kind("Music\\Song.MP3"), FileKind::Audio);
    assert_eq!(file_kind("a.flac").icon_name(), "audio-x-generic");
    assert_eq!(file_kind("film.mkv").icon_name(), "video-x-generic");
    assert_eq!(file_kind("cover.JPG").icon_name(), "image-x-generic");
    assert_eq!(file_kind("notes.txt").icon_name(), "text-x-generic");
    assert_eq!(file_kind("mp3").icon_name(), "text-x-generic");
}

#[test]
fn word_index_clone_searches_alike() {
    let mut index = WordIndex::new();
    index.add_file("pink floyd the wall.mp3".into(), 1);
    index.add_file("led zeppelin IV.flac".into(), 2);
    let copy = index.clone();
    assert_eq!(
        copy.search(&["pink".into()], &[], &[], 10),
        index.search(&["pink".into()], &[], &[], 10)
    );
    assert_eq!(copy.len(), 2);
}
