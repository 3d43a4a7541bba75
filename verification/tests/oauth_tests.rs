use std::sync::Arc;

use spotdora::callback::{
    callback_pair, get_socket_address, handle_callback, parse_query, parse_redirect_url,
    pasted_code, redirect_lookup, socket_address_for, uri_writes_port, CallbackOutcome, IpAddress,
    OAuthError, ParsedUrl, SocketAddress, UrlHost,
};
use spotdora::oauth::{
    after_player_refresh, after_web_refresh, credentials_from_grants, login_requests,
    refresh_delay, refreshed_credentials, request_scopes, with_player_grant, Credentials,
    RefreshStep, SpotOauthClient, TokenGrant, PLAYER_CLIENT_ID, REDIRECT_URI, WEB_CLIENT_ID,
};

#[test]
fn get_socket_address_none() {
    let none = Vec::new();
    // No port
    assert_eq!(get_socket_address("http://127.0.0.1/foo", &none), None);
    assert_eq!(get_socket_address("http://127.0.0.1:/foo", &none), None);
    assert_eq!(get_socket_address("http://[::1]/foo", &none), None);
    // Not localhost
    assert_eq!(get_socket_address("http://56.0.0.1:1234/foo", &none), None);
    assert_eq!(
        get_socket_address("http://[3ffe:2a00:100:7031::1]:1234/foo", &none),
        None
    );
    // Not http
    assert_eq!(get_socket_address("https://127.0.0.1/foo", &none), None);
}

#[test]
fn get_socket_address_localhost() {
    let none = Vec::new();
    let localhost_v4 = SocketAddress { ip: IpAddress::V4([127, 0, 0, 1]), port: 1234 };
    let localhost_v6 = SocketAddress { ip: IpAddress::V6([0, 0, 0, 0, 0, 0, 0, 1]), port: 8888 };

    assert_eq!(
        get_socket_address("http://127.0.0.1:1234/foo", &none),
        Some(localhost_v4)
    );
    assert_eq!(
        get_socket_address("http://[0:0:0:0:0:0:0:1]:8888/foo", &none),
        Some(localhost_v6)
    );
    assert_eq!(
        get_socket_address("http://[::1]:8888/foo", &none),
        Some(localhost_v6)
    );
}

#[test]
fn written_default_port_counts() {
    let a = SocketAddress { ip: IpAddress::V4([127, 0, 0, 1]), port: 80 };
    assert_eq!(get_socket_address("http://127.0.0.1:80/login", &Vec::new()), Some(a));
    let b = SocketAddress { ip: IpAddress::V6([0, 0, 0, 0, 0, 0, 0, 1]), port: 80 };
    assert_eq!(get_socket_address("http://[::1]:80/login", &Vec::new()), Some(b));
}

#[test]
fn which_uris_write_a_port() {
    assert!(uri_writes_port("http://127.0.0.1:80/foo"));
    assert!(uri_writes_port("http://[::1]:8888"));
    assert!(uri_writes_port("http://user:pw@127.0.0.1:1/x"));
    assert!(!uri_writes_port("http://user:pw@127.0.0.1/x"));
    assert!(!uri_writes_port("http://127.0.0.1:/foo"));
    assert!(!uri_writes_port("http://[::1]/foo"));
    assert!(!uri_writes_port("http://127.0.0.1/a:b"));
    assert!(!uri_writes_port("no scheme"));
}

#[test]
fn listen_address_of_parsed_urls() {
    let v4 = ParsedUrl { scheme: "http".to_string(), host: Some(UrlHost::Ipv4([127, 0, 0, 2])), port: Some(7) };
    let a = SocketAddress { ip: IpAddress::V4([127, 0, 0, 2]), port: 7 };
    assert_eq!(socket_address_for(&v4, true, &Vec::new()), Some(a));
    assert_eq!(socket_address_for(&v4, false, &Vec::new()), None);
    let https = ParsedUrl { scheme: "https".to_string(), ..v4.clone() };
    assert_eq!(socket_address_for(&https, true, &Vec::new()), None);
    let domain = ParsedUrl { scheme: "http".to_string(), host: Some(UrlHost::Domain("localhost".to_string())), port: Some(7) };
    assert_eq!(socket_address_for(&domain, true, &vec![a]), Some(a));
    let none = ParsedUrl { scheme: "http".to_string(), host: None, port: Some(7) };
    assert_eq!(socket_address_for(&none, true, &vec![a]), None);
}

#[test]
fn redirect_uri_gives_the_listener_address() {
    let a = SocketAddress { ip: IpAddress::V4([127, 0, 0, 1]), port: 8898 };
    assert_eq!(get_socket_address(REDIRECT_URI, &Vec::new()), Some(a));
    assert_eq!(redirect_lookup(REDIRECT_URI), None);
}

#[test]
fn domain_hosts_use_the_last_resolved_address() {
    let uri = "http://localhost:8898/login";
    assert_eq!(redirect_lookup(uri), Some(("localhost".to_string(), 8898)));
    let v4 = SocketAddress { ip: IpAddress::V4([127, 0, 0, 1]), port: 8898 };
    let v6 = SocketAddress { ip: IpAddress::V6([0, 0, 0, 0, 0, 0, 0, 1]), port: 8898 };
    let outside = SocketAddress { ip: IpAddress::V4([10, 0, 0, 1]), port: 8898 };
    assert_eq!(get_socket_address(uri, &vec![v6, v4]), Some(v4));
    assert_eq!(get_socket_address(uri, &vec![v4, outside]), None);
    assert_eq!(get_socket_address(uri, &Vec::new()), None);
}

#[test]
fn query_of_a_callback() {
    let (state, code) = parse_query("GET /login?code=abc&state=xyz HTTP/1.1\r\n").unwrap();
    assert_eq!(state, "xyz");
    assert_eq!(code, "abc");
}

#[test]
fn query_values_are_decoded_and_last_wins() {
    let (state, code) =
        parse_query("GET /login?state=a&code=x%20y&state=b+c HTTP/1.1").unwrap();
    assert_eq!(state, "b c");
    assert_eq!(code, "x y");
}

#[test]
fn query_errors() {
    assert!(matches!(parse_query("GET"), Err(OAuthError::AuthCodeListenerParse)));
    assert!(matches!(parse_query("GET /login HTTP/1.1"), Err(OAuthError::AuthCodeListenerParse)));
    assert!(matches!(parse_query("GET /login?code=1 HTTP/1.1"), Err(OAuthError::CsrfTokenNotFound)));
    assert!(matches!(parse_query("GET /login?state=1 HTTP/1.1"), Err(OAuthError::AuthCodeNotFound)));
}

#[test]
fn callback_answers() {
    let line = "GET /login?code=abc&state=s1 HTTP/1.1";
    match handle_callback("GET /favicon.ico HTTP/1.1", "s1", None, "<p>ok</p>") {
        CallbackOutcome::Reject { response } => assert!(response.starts_with("HTTP/1.1 404 Not Found")),
        other => panic!("unexpected {other:?}"),
    }
    match handle_callback(line, "other", None, "<p>ok</p>") {
        CallbackOutcome::Reject { response } => assert!(response.starts_with("HTTP/1.1 400 Bad Request")),
        other => panic!("unexpected {other:?}"),
    }
    match handle_callback(line, "s1", None, "<p>é</p>") {
        CallbackOutcome::Accept { response, code } => {
            assert_eq!(code, "abc");
            assert_eq!(
                response,
                "HTTP/1.1 200 OK\r\nContent-Type: text/html; charset=utf-8\r\nContent-Length: 9\r\nConnection: close\r\n\r\n<p>é</p>"
            );
        }
        other => panic!("unexpected {other:?}"),
    }
    match handle_callback(line, "s1", Some("https://x/y"), "<p>ok</p>") {
        CallbackOutcome::Accept { response, .. } => {
            let page = format!(
                r#"<!DOCTYPE html><html><head><meta http-equiv="refresh" content="0;url={}"></head><body style="background:#121212;color:#ffffff;font-family:sans-serif;text-align:center;padding-top:60px;"><p>Connecting audio streaming engine...</p></body></html>"#,
                "https://x/y"
            );
            let expected = format!(
                "HTTP/1.1 200 OK\r\nContent-Type: text/html; charset=utf-8\r\nContent-Length: {}\r\nConnection: close\r\n\r\n{}",
                page.len(),
                page
            );
            assert_eq!(response, expected);
        }
        other => panic!("unexpected {other:?}"),
    }
}

#[test]
fn clients_of_the_application() {
    let client = SpotOauthClient::new(Arc::new(5u8));
    assert_eq!(client.web_client().client_id, WEB_CLIENT_ID);
    assert_eq!(client.player_client().client_id, PLAYER_CLIENT_ID);
    assert_eq!(client.web_client().auth_url, "https://accounts.spotify.com/authorize");
    assert_eq!(client.player_client().token_url, "https://accounts.spotify.com/api/token");
    assert_eq!(client.web_client().redirect_url, "http://127.0.0.1:8898/login");
    assert_eq!(**client.token_store(), 5u8);
}

#[test]
fn scopes_of_the_web_login() {
    let scopes = request_scopes();
    assert_eq!(scopes.len(), 11);
    assert_eq!(scopes[0], "user-read-private");
    assert_eq!(scopes[10], "user-modify-playback-state");
    assert_eq!(scopes.join(","), spotdora::oauth::SCOPES);
}

fn grant(access: &str, refresh: Option<&str>, expires_in: Option<u128>) -> TokenGrant {
    TokenGrant {
        access_token: access.to_string(),
        refresh_token: refresh.map(|r| r.to_string()),
        expires_in,
    }
}

#[test]
fn first_login_credentials() {
    let c = credentials_from_grants(
        &grant("wa", Some("wr"), Some(100)),
        &grant("pa", None, None),
        1_000,
        2_000,
    )
    .unwrap();
    assert_eq!(c.access_token, "wa");
    assert_eq!(c.refresh_token, "wr");
    assert_eq!(c.token_expiry_time, Some(1_100));
    assert_eq!(c.player_access_token, Some("pa".to_string()));
    assert_eq!(c.player_refresh_token, None);
    assert_eq!(c.player_token_expiry_time, Some(2_000 + 3_600_000_000_000));
    assert!(matches!(
        credentials_from_grants(&grant("wa", None, None), &grant("pa", None, None), 0, 0),
        Err(OAuthError::NoRefreshToken)
    ));
}

fn saved() -> Credentials {
    Credentials {
        access_token: "a0".to_string(),
        refresh_token: "r0".to_string(),
        token_expiry_time: Some(5),
        player_access_token: Some("pa0".to_string()),
        player_refresh_token: Some("pr0".to_string()),
        player_token_expiry_time: Some(6),
    }
}

#[test]
fn refreshing_keeps_what_was_not_granted() {
    let c = refreshed_credentials(saved(), Some(&grant("a1", None, Some(10))), 100).unwrap();
    assert_eq!(c.access_token, "a1");
    assert_eq!(c.refresh_token, "r0");
    assert_eq!(c.token_expiry_time, Some(110));
    assert_eq!(c.player_access_token, Some("pa0".to_string()));
    let c = refreshed_credentials(saved(), Some(&grant("a1", Some("r1"), None)), 100).unwrap();
    assert_eq!(c.refresh_token, "r1");
    assert_eq!(c.token_expiry_time, Some(100 + 3_600_000_000_000));
    assert!(matches!(refreshed_credentials(saved(), None, 100), Err(OAuthError::NoRefreshToken)));
}

#[test]
fn player_refresh_updates_player_tokens_only() {
    let c = with_player_grant(saved(), &grant("pa1", None, Some(7)), 50);
    assert_eq!(c.access_token, "a0");
    assert_eq!(c.player_access_token, Some("pa1".to_string()));
    assert_eq!(c.player_refresh_token, Some("pr0".to_string()));
    assert_eq!(c.player_token_expiry_time, Some(57));
    let c = with_player_grant(saved(), &grant("pa1", Some("pr1"), None), 50);
    assert_eq!(c.player_refresh_token, Some("pr1".to_string()));
}

#[test]
fn refresh_waits_until_shortly_before_expiry() {
    let s = 1_000_000_000u128;
    assert_eq!(refresh_delay(Some(100 * s), 40 * s), 50 * s);
    assert_eq!(refresh_delay(Some(45 * s), 40 * s), 0);
    assert_eq!(refresh_delay(Some(10 * s), 40 * s), 110 * s);
    assert_eq!(refresh_delay(None, 40 * s), 110 * s);
}

#[test]
fn pairs_of_a_query() {
    let p = |a: &str, b: &str| (a.to_string(), b.to_string());
    let (s, c) = callback_pair(&vec![p("code", "1"), p("state", "a"), p("code", "2")]).unwrap();
    assert_eq!((s.as_str(), c.as_str()), ("a", "2"));
    assert!(matches!(callback_pair(&vec![p("code", "1")]), Err(OAuthError::CsrfTokenNotFound)));
    assert!(matches!(callback_pair(&vec![p("state", "1")]), Err(OAuthError::AuthCodeNotFound)));
    assert!(matches!(callback_pair(&Vec::new()), Err(OAuthError::CsrfTokenNotFound)));
}

#[test]
fn redirect_url_entered_by_hand() {
    let (s, c) = parse_redirect_url("  http://127.0.0.1:8898/login?code=abc&state=xyz\n").unwrap();
    assert_eq!((s.as_str(), c.as_str()), ("xyz", "abc"));
    assert!(matches!(parse_redirect_url("http://127.0.0.1:8898/login"), Err(OAuthError::AuthCodeListenerParse)));
    assert_eq!(pasted_code("http://x/login?code=abc&state=xyz", "xyz").unwrap(), "abc");
    assert!(matches!(pasted_code("http://x/login?code=abc&state=xyz", "other"), Err(OAuthError::InvalidState)));
    assert!(matches!(pasted_code("http://x/login?state=xyz", "xyz"), Err(OAuthError::AuthCodeNotFound)));
}

#[test]
fn login_urls_keep_clients_and_scopes_apart() {
    let client = SpotOauthClient::new(Arc::new(()));
    let (web, player) = login_requests(&client).unwrap();
    let web_url = url::Url::parse(&web.url).unwrap();
    let player_url = url::Url::parse(&player.url).unwrap();
    let q = |u: &url::Url, k: &str| u.query_pairs().find(|(n, _)| n == k).map(|(_, v)| v.into_owned());
    assert!(web.url.starts_with("https://accounts.spotify.com/authorize?"));
    assert_eq!(q(&web_url, "client_id").unwrap(), WEB_CLIENT_ID);
    assert_eq!(q(&player_url, "client_id").unwrap(), PLAYER_CLIENT_ID);
    assert_eq!(q(&web_url, "state").unwrap(), web.state);
    assert_eq!(q(&player_url, "state").unwrap(), player.state);
    assert_ne!(web.state, player.state);
    for token in [&web.state, &player.state] {
        assert_eq!(token.len(), 22);
        assert!(token.chars().all(|c| c.is_ascii_alphanumeric() || c == '-' || c == '_'));
    }
    for verifier in [&web.pkce_verifier, &player.pkce_verifier] {
        assert_eq!(verifier.len(), 43);
        assert!(verifier.chars().all(|c| c.is_ascii_alphanumeric() || c == '-' || c == '_'));
    }
    assert_ne!(web.pkce_verifier, player.pkce_verifier);
    assert_eq!(q(&web_url, "redirect_uri").unwrap(), REDIRECT_URI);
    assert_eq!(q(&web_url, "scope").unwrap(), spotdora::oauth::SCOPES.replace(',', " "));
    assert_eq!(q(&player_url, "scope").unwrap(), "streaming");
    assert_eq!(q(&web_url, "code_challenge_method").unwrap(), "S256");
}

#[test]
fn refresh_steps() {
    let g = grant("a1", None, Some(10));
    match after_web_refresh(saved(), Some(&g), 100) {
        RefreshStep::RefreshPlayer { credentials, player_refresh_token } => {
            assert_eq!(player_refresh_token, "pr0");
            assert_eq!(credentials.access_token, "a1");
            assert_eq!(credentials.refresh_token, "r0");
        }
        other => panic!("unexpected {other:?}"),
    }
    let mut no_player = saved();
    no_player.player_refresh_token = None;
    assert!(matches!(after_web_refresh(no_player, Some(&g), 100), RefreshStep::Save(c) if c.access_token == "a1"));
    assert!(matches!(after_web_refresh(saved(), None, 100), RefreshStep::Clear(OAuthError::NoRefreshToken)));
    let kept = after_player_refresh(saved(), None, 100);
    assert_eq!(kept.player_access_token, Some("pa0".to_string()));
    let renewed = after_player_refresh(saved(), Some(&grant("pa1", None, Some(1))), 100);
    assert_eq!(renewed.player_access_token, Some("pa1".to_string()));
    assert_eq!(renewed.player_token_expiry_time, Some(101));
}
