use ws_tunnel::gateway::{
    connection_uri, contains, is_websocket_upgrade, path_names_user, push_hex_of, route,
    split_hosts, Route,
};

#[test]
fn an_upgrade_header_is_matched_in_any_case() {
    assert!(is_websocket_upgrade(Some("websocket")));
    assert!(is_websocket_upgrade(Some("WebSocket")));
    assert!(is_websocket_upgrade(Some("WEBSOCKET")));
    assert!(!is_websocket_upgrade(Some("websockets")));
    assert!(!is_websocket_upgrade(Some("websocke")));
    assert!(!is_websocket_upgrade(Some(" websocket")));
    assert!(!is_websocket_upgrade(Some("h2c")));
    assert!(!is_websocket_upgrade(Some("")));
    assert!(!is_websocket_upgrade(Some("webſocket")));
    assert!(!is_websocket_upgrade(Some("w\u{45}bsock\u{25}t")));
    assert!(!is_websocket_upgrade(None));
}

#[test]
fn an_upgrade_is_always_a_tunnel() {
    for show_uri in [false, true] {
        for named in [false, true] {
            for fallback in [false, true] {
                assert_eq!(route(true, show_uri, named, fallback), Route::Tunnel);
            }
        }
    }
}

#[test]
fn a_plain_request_is_answered_or_passed_on() {
    assert_eq!(route(false, true, true, false), Route::ShowUri);
    assert_eq!(route(false, true, true, true), Route::ShowUri);
    assert_eq!(route(false, true, false, true), Route::Forward);
    assert_eq!(route(false, false, true, true), Route::Forward);
    assert_eq!(route(false, false, false, true), Route::Forward);
    assert_eq!(route(false, true, false, false), Route::Tunnel);
    assert_eq!(route(false, false, true, false), Route::Tunnel);
    assert_eq!(route(false, false, false, false), Route::Tunnel);
}

#[test]
fn hosts_are_separated_by_whitespace() {
    assert_eq!(split_hosts(""), Vec::<String>::new());
    assert_eq!(split_hosts("  \t\r\n "), Vec::<String>::new());
    assert_eq!(split_hosts("one"), vec!["one"]);
    assert_eq!(split_hosts("  one  "), vec!["one"]);
    assert_eq!(split_hosts("a.example b.example\tc.example\n1.2.3.4"), vec![
        "a.example",
        "b.example",
        "c.example",
        "1.2.3.4"
    ]);
    assert_eq!(split_hosts("a\x0Cb\rc"), vec!["a", "b", "c"]);
    // a space that is not ASCII does not separate
    assert_eq!(split_hosts("a\u{a0}b c"), vec!["a\u{a0}b", "c"]);
    assert_eq!(split_hosts("a\x0Bb"), vec!["a\x0Bb"]);
}

#[test]
fn hosts_agree_with_split_ascii_whitespace() {
    let texts = ["", " ", "a", " a", "a ", "a b", "a  b", "\ta\n\nb\r\nc ", "[::1] 10.0.0.1  x.y"];
    for text in texts {
        let expected: Vec<String> = text.split_ascii_whitespace().map(String::from).collect();
        assert_eq!(split_hosts(text), expected);
    }
}

#[test]
fn bytes_are_written_in_lower_case_hexadecimal() {
    let mut out = String::from("id=");
    push_hex_of(&mut out, &[0x00, 0x0f, 0xa0, 0xff, 0x12]);
    assert_eq!(out, "id=000fa0ff12");
    let mut none = String::new();
    push_hex_of(&mut none, &[]);
    assert_eq!(none, "");
}

#[test]
fn a_needle_is_found_wherever_it_stands() {
    assert!(contains(b"hello world", b"hello"));
    assert!(contains(b"hello world", b"world"));
    assert!(contains(b"hello world", b"o w"));
    assert!(contains(b"hello world", b""));
    assert!(contains(b"", b""));
    assert!(contains(b"aab", b"ab"));
    assert!(!contains(b"hello world", b"worlds"));
    assert!(!contains(b"hello", b"hello world"));
    assert!(!contains(b"", b"a"));
    assert!(!contains(b"abcabc", b"cb"));
}

#[test]
fn a_path_names_the_user_by_the_credential_in_hexadecimal() {
    let id = [0xd3u8, 0x42, 0xd1, 0x1e];
    assert!(path_names_user("/d342d11e", &id));
    assert!(path_names_user("/a/d342d11e/b", &id));
    assert!(!path_names_user("/D342D11E", &id));
    assert!(!path_names_user("/d342d11", &id));
    assert!(!path_names_user("/", &id));
    assert!(path_names_user("/", &[]));
}

#[test]
fn the_connection_uri_names_user_and_host() {
    assert_eq!(
        connection_uri(&[0xd3, 0x42, 0x00, 0xff], "relay.example"),
        "vless://d34200ff@relay.example:443?encryption=none&security=tls&sni=relay.example\
         &fp=chrome&type=ws&host=relay.example&path=ws#workers-tunnel"
    );
}
