use std::sync::Arc;
use rtsp_server::request::{Method, Version, Url, RtspRequest};
use rtsp_server::response::RtspResponse;
use rtsp_server::auth::{get_auth_type, parse_digest_header, validate_digest_auth,
    validate_digest_response, AuthType, DigestAuthenticator, BasicAuthenticator, generate};
use rtsp_server::router::Router;
use rtsp_server::session::{Session, Track};
use rtsp_server::parse::ParameterSet;
use rtsp_server::sdp::{SDP, MediaInfo, RtpMap, H264Fmtp, Fmtp};

fn param_get<'a>(params: &'a [(String, String)], key: &str) -> Option<&'a str> {
    params.iter().find(|(k, _)| k == key).map(|(_, v)| v.as_str())
}

fn test_session() -> Session {
    Session::new(
        "session",
        Some(Arc::new(String::from("test.h264"))),
        None,
        ParameterSet::H264 { sps: vec![0x67, 0x64, 0x00, 0x1E], pps: vec![0x68, 0xEE, 0x3C, 0x80] },
    )
    .unwrap()
}

fn basic_credentials() -> String {
    let encoded = base64::Engine::encode(&base64::engine::general_purpose::STANDARD, "admin:123456");
    format!("Basic {}", encoded)
}

#[test]
fn test_method_into() {
    let m: Method = "OPTIONS".into();
    assert_eq!(m, Method::Options);
}

#[test]
fn test_version_into() {
    let v: Version = "RTSP/1.0".into();
    assert_eq!(v, Version::V1_0);
}

#[test]
fn test_read_rtsp() {
    let s = String::from(
        "OPTIONS rtsp://10.15.112.58:5544 RTSP/1.0\r\nCSeq: 1\r\nUser-Agent: RealMedia Player Version 6.0.9.1235 (linux-2.0-libc6-i386-gcc2.95)\r\n\r\n",
    );
    let mut expected_header: Vec<(String, String)> = Vec::new();
    expected_header.push(("CSeq".into(), "1".into()));
    expected_header.push((
        "User-Agent".into(),
        "RealMedia Player Version 6.0.9.1235 (linux-2.0-libc6-i386-gcc2.95)".into(),
    ));

    println!("{:?}", expected_header);
    let req = RtspRequest::parse(&s).unwrap();
    assert_eq!(Method::Options, req.method);
    assert_eq!(Version::V1_0, req.version);
    assert_eq!(Url::Path("rtsp://10.15.112.58:5544".to_string()), req.url);
    assert_eq!(expected_header, req.headers);
}

#[test]
fn test_parse_digest_header() {
    let auth_header = "Digest username=\"admin\", realm=\"rust rtsp-server\", nonce=\"c4119e8b076a09c3\", uri=\"rtsp://192.168.3.27:5544/track1\", response=\"73dbd1c2c166a45b27f04345770cc3f7\", algorithm=\"MD5\"\r\n";
    let auth_params = parse_digest_header(auth_header).unwrap();
    println!("auth_params: {:#?}", auth_params);
    assert_eq!(param_get(&auth_params, "username").unwrap(), "admin");
    assert_eq!(param_get(&auth_params, "nonce").unwrap(), "c4119e8b076a09c3");
    assert_eq!(param_get(&auth_params, "uri").unwrap(), "rtsp://192.168.3.27:5544/track1");
    assert_eq!(
        param_get(&auth_params, "response").unwrap(),
        "73dbd1c2c166a45b27f04345770cc3f7"
    );
}

#[test]
fn test_response_struct_creation_200() {
    let response_actual = RtspResponse::new("200", None, Some("xxxx".into()));
    let response_expected = RtspResponse {
        version: "RTSP/1.0".to_string(),
        status_code: "200".to_string(),
        status_text: "OK".to_string(),
        headers: None,
        body: Some("xxxx".into()),
    };
    assert!(response_actual == response_expected);
}

#[test]
fn test_response_struct_creation_404() {
    let mut headers = linked_hash_map::LinkedHashMap::new();
    headers.insert("Content-Type".to_string(), "application/sdp".to_owned());
    let response_actual = RtspResponse::new("404", Some(headers), Some("xxxx".into()));
    let response_expected = RtspResponse {
        version: "RTSP/1.0".to_string(),
        status_code: "404".to_string(),
        status_text: "Not Found".to_string(),
        headers: {
            let mut h = linked_hash_map::LinkedHashMap::new();
            h.insert("Content-Type".to_string(), "application/sdp".to_owned());
            Some(h)
        },
        body: Some("xxxx".into()),
    };
    assert!(response_actual == response_expected);
}

#[test]
fn test_rtsp_response_creation() {
    let response_expected = RtspResponse {
        version: "RTSP/1.0".to_string(),
        status_code: "200".to_string(),
        status_text: "OK".to_string(),
        headers: {
            let mut h = linked_hash_map::LinkedHashMap::new();
            h.insert("Content-Type".to_string(), "application/sdp".to_owned());
            Some(h)
        },
        body: Some("xxxx".into()),
    };
    let rtsp_string: String = response_expected.serialize();
    let actual_string =
        "RTSP/1.0 200 OK\r\nContent-Type: application/sdp\r\nContent-Length: 4\r\n\r\nxxxx"
            .to_string();
    assert_eq!(rtsp_string, actual_string);
}

#[test]
fn test_response_reinserted_key_moves_back() {
    let mut h = linked_hash_map::LinkedHashMap::new();
    h.insert("A".to_string(), "1".to_string());
    h.insert("B".to_string(), "2".to_string());
    h.insert("A".to_string(), "3".to_string());
    let resp = RtspResponse::new("200", Some(h), None);
    assert_eq!(resp.serialize(), "RTSP/1.0 200 OK\r\nB: 2\r\nA: 3\r\n\r\n");
}

#[test]
fn test_generate_sdp() {
    let rtpmap = RtpMap {
        payload_type: 96,
        encoding_name: "H264".to_string(),
        clock_rate: 90000,
        encoding_param: String::from(""),
    };

    let fmtp = H264Fmtp {
        payload_type: 96,
        packetization_mode: 1,
        profile_level_id: vec![0x10, 0x42, 0x30],
        sps: vec![],
        pps: vec![],
    };

    let media_info = MediaInfo {
        media_type: "video".to_string(),
        port: 2007,
        protocol: "RTP/AVP".to_string(),
        fmts: vec![96],
        bandwidth: None,
        rtpmap,
        fmtp: Some(Fmtp::H264(fmtp)),
        attribute: vec![("control".to_string(), "track0".to_string())],
    };

    let sdp = SDP::new(
        "123455556".to_string(),
        "10.15.112.58".to_string(),
        vec![media_info],
        None,
    );

    let target = "v=0\r\no=- 123455556 0 IN IP4 10.15.112.58\r\ns=seminar\r\nc=IN IP4 10.15.112.58\r\nt=0 0\r\nm=video 2007 RTP/AVP 96\r\na=rtpmap:96 H264/90000\r\na=fmtp:96 packetization-mode=1; profile-level-id=104230; sprop-parameter-sets=,\r\na=control:track0\r\n";
    assert_eq!(sdp.to_sdp_string(), target);
}

#[test]
fn test_options_handshake() {
    let session = test_session();
    let req =
        RtspRequest::parse("OPTIONS rtsp://host:5544/ RTSP/1.0\r\nCSeq: 1\r\n\r\n").unwrap();
    let routed = Router::route(&req, &session, 0, "192.168.3.27:5544");
    assert!(routed.signal.is_none());
    let resp = routed.response.unwrap();
    assert_eq!(
        resp.serialize(),
        "RTSP/1.0 200 OK\r\nCSeq: 1\r\nUser-Agent: rtsp-server\r\nPublic: OPTIONS, DESCRIBE, SETUP, TEARDOWN, PLAY\r\n\r\n"
    );
}

#[test]
fn test_digest_challenge() {
    let session = test_session();
    let req = RtspRequest::parse("DESCRIBE rtsp://host/ RTSP/1.0\r\nCSeq: 2\r\n\r\n").unwrap();
    let routed = Router::route(&req, &session, 0, "192.168.3.27:5544");
    assert!(routed.signal.is_none());
    let text = routed.response.unwrap().serialize();
    assert!(text.starts_with(
        "RTSP/1.0 401 Not Found\r\nCSeq: 2\r\nWWW-Authenticate: Digest realm=\"rust rtsp-server\", nonce=\""
    ));
    assert!(text.contains("\", algorithm=\"MD5\""));
}

#[test]
fn test_describe_with_credentials() {
    let session = test_session();
    let req = RtspRequest::parse(&format!(
        "DESCRIBE rtsp://host/ RTSP/1.0\r\nCSeq: 3\r\nAuthorization: {}\r\n\r\n",
        basic_credentials()
    ))
    .unwrap();
    let routed = Router::route(&req, &session, 123455556, "192.168.3.27:5544");
    let text = routed.response.unwrap().serialize();
    assert!(text.contains("Content-Type: application/sdp"));
    assert!(text.contains("o=- 123455556 0 IN IP4 0.0.0.0\r\n"));
    assert!(text.contains("m=video 4 RTP/AVP/TCP 96\r\n"));
    assert!(text.contains("a=rtpmap:96 H264/90000\r\n"));
    assert!(text.contains("a=control:*\r\n"));
    assert!(text.contains("a=control:track1\r\n"));
    let sps_b64 =
        base64::Engine::encode(&base64::engine::general_purpose::STANDARD, [0x67, 0x64, 0x00, 0x1E]);
    let pps_b64 =
        base64::Engine::encode(&base64::engine::general_purpose::STANDARD, [0x68, 0xEE, 0x3C, 0x80]);
    assert!(text.contains(&format!("sprop-parameter-sets={},{}", sps_b64, pps_b64)));
    assert!(text.contains("profile-level-id=64001e"));
}

#[test]
fn test_play_and_teardown_signals() {
    let session = test_session();
    let setup = RtspRequest::parse(&format!(
        "SETUP rtsp://host/track1 RTSP/1.0\r\nCSeq: 4\r\nTransport: RTP/AVP/TCP;interleaved=0-1\r\nAuthorization: {}\r\n\r\n",
        basic_credentials()
    ))
    .unwrap();
    let routed = Router::route(&setup, &session, 0, "192.168.3.27:5544");
    assert!(routed.signal.is_none());
    let text = routed.response.unwrap().serialize();
    assert!(text.contains(&format!("Session: {};timeout=60\r\n", session.session_id)));
    assert!(text.contains("Transport: RTP/AVP/TCP;interleaved=0-1;ssrc=12345678\r\n"));

    let play = RtspRequest::parse(&format!(
        "PLAY rtsp://host/track1 RTSP/1.0\r\nCSeq: 5\r\nSession: {}\r\nAuthorization: {}\r\n\r\n",
        session.session_id,
        basic_credentials()
    ))
    .unwrap();
    let routed = Router::route(&play, &session, 0, "192.168.3.27:5544");
    assert_eq!(routed.signal, Some(true));
    let text = routed.response.unwrap().serialize();
    assert!(text.contains("RTP-Info: url=rtsp://192.168.3.27:5544/track0;seq=0;rtptime=0\r\n"));
    assert!(text.contains("Range: npt=0.000-\r\n"));
    assert!(text.contains("Scale: 1.000\r\n"));
    assert!(text.contains("Cache-Control: no-cache\r\n"));

    let teardown = RtspRequest::parse(&format!(
        "TEARDOWN rtsp://host/track1 RTSP/1.0\r\nCSeq: 6\r\nSession: {}\r\nAuthorization: {}\r\n\r\n",
        session.session_id,
        basic_credentials()
    ))
    .unwrap();
    let routed = Router::route(&teardown, &session, 0, "192.168.3.27:5544");
    assert_eq!(routed.signal, Some(false));
    assert!(routed.response.is_some());
}

#[test]
fn test_wrong_credentials_dropped() {
    let session = test_session();
    let bad =
        base64::Engine::encode(&base64::engine::general_purpose::STANDARD, "admin:wrong");
    let req = RtspRequest::parse(&format!(
        "DESCRIBE rtsp://host/ RTSP/1.0\r\nCSeq: 3\r\nAuthorization: Basic {}\r\n\r\n",
        bad
    ))
    .unwrap();
    let routed = Router::route(&req, &session, 0, "192.168.3.27:5544");
    assert!(routed.response.is_none());
    assert!(routed.signal.is_none());
}

#[test]
fn test_get_auth_type_basic() {
    match get_auth_type(&basic_credentials()) {
        Some(AuthType::Basic(Some((u, p)))) => {
            assert_eq!(u, "admin");
            assert_eq!(p, "123456");
        },
        _ => panic!("expected parsed Basic credentials"),
    }
    assert!(get_auth_type("Bearer zzz").is_none());
}

#[test]
fn test_validate_digest_auth() {
    let ha1 = format!("{:x}", md5::compute("alice:realm:secret"));
    let ha2 = format!("{:x}", md5::compute("DESCRIBE:rtsp://example.com/stream"));
    let expected = format!("{:x}", md5::compute(format!("{}:{}:{}", ha1, "abc123", ha2)));
    assert!(validate_digest_auth(
        "alice",
        "secret",
        "abc123",
        "DESCRIBE",
        "rtsp://example.com/stream",
        &expected
    ));
    assert!(!validate_digest_auth(
        "alice",
        "secret",
        "abc123",
        "DESCRIBE",
        "rtsp://example.com/stream",
        "0000"
    ));
}

#[test]
fn test_validate_digest_response() {
    let realm = "rust rtsp-server";
    let ha1 = format!("{:x}", md5::compute(format!("admin:{}:123456", realm)));
    let ha2 = format!("{:x}", md5::compute("SETUP:rtsp://h/track1"));
    let expected = format!("{:x}", md5::compute(format!("{}:{}:{}", ha1, "n0", ha2)));
    let params: Vec<(String, String)> = vec![
        ("username".into(), "admin".into()),
        ("nonce".into(), "n0".into()),
        ("uri".into(), "rtsp://h/track1".into()),
        ("response".into(), expected),
    ];
    assert!(validate_digest_response(&params, "SETUP", realm, "123456"));
    assert!(!validate_digest_response(&params, "PLAY", realm, "123456"));
    let missing: Vec<(String, String)> = vec![("username".into(), "admin".into())];
    assert!(!validate_digest_response(&missing, "SETUP", realm, "123456"));
}

#[test]
fn test_auth_generators() {
    let mut basic = BasicAuthenticator::new("rust rtsp-server");
    assert_eq!(generate(&mut basic), "Basic realm=\"rust rtsp-server\"");
    let mut digest = DigestAuthenticator::new("rust rtsp-server", Some("abc123".to_string()));
    assert_eq!(
        generate(&mut digest),
        "Digest realm=\"rust rtsp-server\", nonce=\"abc123\", algorithm=\"MD5\""
    );
}

#[test]
fn test_request_body_after_blank_line() {
    let req = RtspRequest::parse(
        "ANNOUNCE rtsp://h/ RTSP/1.0\r\nCSeq: 1\r\n\r\nv=0\r\no=- 1 2\r\nrest",
    )
    .unwrap();
    assert_eq!(req.method, Method::Announce);
    assert_eq!(req.headers, vec![("CSeq".to_string(), "1".to_string())]);
    // everything after the blank line is the body, colons and all
    assert_eq!(req.msg_body, "v=0\r\no=- 1 2\r\nrest");
}

#[test]
fn test_options_served_without_auth_check() {
    // OPTIONS is not intercepted: even bad credentials do not matter
    let session = test_session();
    let req = RtspRequest::parse(
        "OPTIONS rtsp://host/ RTSP/1.0\r\nCSeq: 9\r\nAuthorization: Basic !!!\r\n\r\n",
    )
    .unwrap();
    let routed = Router::route(&req, &session, 0, "192.168.3.27:5544");
    let text = routed.response.unwrap().serialize();
    assert!(text.starts_with("RTSP/1.0 200 OK\r\nCSeq: 9\r\n"));
}

#[test]
fn test_malformed_request_line() {
    assert!(RtspRequest::parse("RTSP/1.0\r\nCSeq: 1\r\n\r\n").is_none());
}

#[test]
fn test_session_requires_parameter_sets() {
    let r = Session::new(
        "session",
        Some(Arc::new(String::from("test.h264"))),
        None,
        ParameterSet::Other,
    );
    assert!(r.is_none());
    assert!(Session::new("session", None, None, ParameterSet::Other).is_none());
}

#[test]
fn test_session_id_digits() {
    let session = test_session();
    assert_eq!(session.session_id.len(), 10);
    assert!(session.session_id.chars().all(|c| c.is_ascii_digit()));
}

#[test]
fn test_track_conversions() {
    let t: Track = "video".into();
    assert_eq!(t, Track::Video);
    assert_eq!(Track::Audio.as_str(), "audio");
    assert_eq!(Track::parse("x"), Track::Uninitialized);
}

#[test]
fn test_response_round_trip() {
    let mut h = linked_hash_map::LinkedHashMap::new();
    h.insert("CSeq".to_string(), "9".to_string());
    h.insert("Session".to_string(), "42".to_string());
    let resp = RtspResponse::new("200", Some(h), Some("hello\r\nworld".to_string()));
    let text = resp.serialize();
    let parsed = rtsp_server::response::parse_response_str(&text).unwrap();
    assert_eq!(parsed.version, "RTSP/1.0");
    assert_eq!(parsed.status_code, "200");
    assert_eq!(parsed.status_text, "OK");
    assert_eq!(
        parsed.headers,
        vec![
            ("CSeq".to_string(), "9".to_string()),
            ("Session".to_string(), "42".to_string()),
            ("Content-Length".to_string(), "12".to_string()),
        ]
    );
    assert_eq!(parsed.body, "hello\r\nworld");
}

#[test]
fn test_response_round_trip_no_body() {
    let mut h = linked_hash_map::LinkedHashMap::new();
    h.insert("CSeq".to_string(), "3".to_string());
    let resp = RtspResponse::new("404", Some(h), None);
    let text = resp.serialize();
    assert_eq!(text, "RTSP/1.0 404 Not Found\r\nCSeq: 3\r\n\r\n");
    let parsed = rtsp_server::response::parse_response_str(&text).unwrap();
    assert_eq!(parsed.status_code, "404");
    assert_eq!(parsed.status_text, "Not Found");
    assert_eq!(parsed.headers, vec![("CSeq".to_string(), "3".to_string())]);
    assert_eq!(parsed.body, "");
}
