//! The request router: OPTIONS is always served; every other request
//! must carry credentials, is challenged with a digest where it has
//! none, and is dropped silently where they fail; what remains is
//! dispatched to its method's handler, PLAY and TEARDOWN also
//! signalling the streaming loop.

use vstd::prelude::*;

verus! {

use vstd::string::StrSliceExecFns;
use crate::request::{RtspRequest, Method, method_str, headers_lookup, headers_get};
use crate::response::RtspResponse;
use crate::response::lhm_new;
use crate::response::lhm_entries;
use crate::auth::{
    AuthType,
    get_auth_type,
    validate_digest_response,
    spec_basic_result,
    basic_pair_view,
    spec_digest_params,
    expected_digest,
    b64_decoded,
    utf8_decoded,
    DigestAuthenticator,
    AuthHeaderGenerator,
    generate,
    digest_header_text,
};
use crate::strutil::{str_eq, first_char_idx, hex_str};
use crate::session::Session;
use crate::handler::{
    OptionsHandler,
    DescribeHandler,
    SetupHandler,
    PlayHandler,
    TeardownHandler,
    options_response_ok,
    describe_response_ok,
    setup_response_ok,
    play_response_ok,
    teardown_response_ok,
    push_header,
};

/// What routing yields: a response to write, if any, and a play or stop
/// signal for the streaming loop, if one is due. No response means the
/// connection is closed silently.
pub struct Routed {
    pub response: Option<RtspResponse>,
    pub signal: Option<bool>,
}

/// The Basic credentials decode to the configured user and password.
pub open spec fn basic_auth_accepted(a: Seq<char>) -> bool {
    a.len() >= 6 && match b64_decoded(a.skip(6)) {
        Some(bytes) => match utf8_decoded(bytes) {
            Some(d) => {
                let i = first_char_idx(d, ':', 0);
                i < d.len() && d.subrange(0, i) == "admin"@ && d.skip(i + 1) == "123456"@
            },
            None => false,
        },
        None => false,
    }
}

/// The Digest parameters carry the digest owed for the configured realm
/// and password.
pub open spec fn digest_auth_accepted(a: Seq<char>, m: Method) -> bool {
    let hv = spec_digest_params(a);
    match (
        headers_lookup(hv, "username"@),
        headers_lookup(hv, "nonce"@),
        headers_lookup(hv, "uri"@),
        headers_lookup(hv, "response"@),
    ) {
        (Some(u), Some(n), Some(uri), Some(resp)) => expected_digest(
            u,
            "rust rtsp-server"@,
            "123456"@,
            method_str(m),
            uri,
            n,
        ) == resp,
        _ => false,
    }
}

/// The connection is dropped: no response, no signal.
pub open spec fn dropped(r: Routed) -> bool {
    r.response is None && r.signal is None
}

/// The 401 challenge: the request's `CSeq` and a digest
/// `WWW-Authenticate` header over a fresh nonce.
pub open spec fn unauthorized_ok(cseq: Seq<char>, resp: RtspResponse) -> bool {
    &&& resp.version@ == "RTSP/1.0"@
    &&& resp.status_code@ == "401"@
    &&& resp.headers_model().len() == 2
    &&& resp.headers_model()[0] == ("CSeq"@, cseq)
    &&& resp.headers_model()[1].0 == "WWW-Authenticate"@
    &&& exists|x: nat|
        x < 0x1_0000_0000_0000_0000 && resp.headers_model()[1].1 == digest_header_text(
            "rust rtsp-server"@,
            hex_str(x),
            "MD5"@,
            false,
        )
    &&& resp.body_model() is None
}

/// What dispatching an authorized request yields, per method.
pub open spec fn route_dispatch_ok(
    req: RtspRequest,
    session: Session,
    now_secs: u64,
    host: Seq<char>,
    r: Routed,
) -> bool {
    let hs = req.model().headers;
    match req.method {
        Method::Options => match headers_lookup(hs, "CSeq"@) {
            Some(c) => r.response matches Some(resp) && options_response_ok(c, resp) && r.signal
                is None,
            None => dropped(r),
        },
        Method::Describe => match headers_lookup(hs, "CSeq"@) {
            Some(c) => if session.spec_fmtp() is Some {
                &&& r.response matches Some(resp)
                &&& exists|sdp: crate::sdp::SDP|
                    session.session_sdp_ok(now_secs, sdp) && #[trigger] describe_response_ok(
                        c,
                        sdp,
                        resp,
                    )
                &&& r.signal is None
            } else {
                dropped(r)
            },
            None => dropped(r),
        },
        Method::Setup => match (headers_lookup(hs, "CSeq"@), headers_lookup(hs, "Transport"@)) {
            (Some(c), Some(t)) => r.response matches Some(resp) && setup_response_ok(
                c,
                match headers_lookup(hs, "session"@) {
                    Some(sv) => sv,
                    None => session.spec_session_id(),
                },
                t,
                resp,
            ) && r.signal is None,
            _ => dropped(r),
        },
        Method::Play => match (headers_lookup(hs, "CSeq"@), headers_lookup(hs, "Session"@)) {
            (Some(c), Some(sv)) => r.response matches Some(resp) && play_response_ok(
                c,
                sv,
                host,
                resp,
            ) && r.signal == Some(true),
            _ => dropped(r),
        },
        Method::Teardown => match headers_lookup(hs, "CSeq"@) {
            Some(c) => r.response matches Some(resp) && teardown_response_ok(
                c,
                session.spec_session_id(),
                resp,
            ) && r.signal == Some(false),
            None => dropped(r),
        },
        _ => dropped(r),
    }
}

/// Everything routing decides: OPTIONS is served without any check;
/// every other method is authenticated first, then dispatched.
pub open spec fn route_ok(
    req: RtspRequest,
    session: Session,
    now_secs: u64,
    host: Seq<char>,
    r: Routed,
) -> bool {
    let hs = req.model().headers;
    if req.method == Method::Options {
        route_dispatch_ok(req, session, now_secs, host, r)
    } else {
        match headers_lookup(hs, "Authorization"@) {
            Some(a) => if a.len() >= 6 && a.subrange(0, 6) == "Basic "@ {
                if basic_auth_accepted(a) {
                    route_dispatch_ok(req, session, now_secs, host, r)
                } else {
                    dropped(r)
                }
            } else if a.len() >= 7 && a.subrange(0, 7) == "Digest "@ {
                if digest_auth_accepted(a, req.method) {
                    route_dispatch_ok(req, session, now_secs, host, r)
                } else {
                    dropped(r)
                }
            } else {
                dropped(r)
            },
            None => match headers_lookup(hs, "CSeq"@) {
                Some(c) => r.response matches Some(resp) && unauthorized_ok(c, resp) && r.signal
                    is None,
                None => dropped(r),
            },
        }
    }
}

pub struct Router;

impl Router {
    /// The 401 challenge for a request that presented no credentials.
    fn unauthorized(req: &RtspRequest) -> (r: Option<RtspResponse>)
        ensures
            match headers_lookup(req.model().headers, "CSeq"@) {
                Some(c) => r matches Some(resp) && unauthorized_ok(c, resp),
                None => r is None,
            },
    {
        let seq_val = match headers_get(&req.headers, "CSeq") {
            Some(v) => v,
            None => {
                return None;
            },
        };
        let ghost v_cseq = seq_val@;
        let mut auth = DigestAuthenticator::new("rust rtsp-server", None);
        let challenge = generate(&mut auth);
        let ghost v_chal = challenge@;
        let mut headers = lhm_new();
        push_header(&mut headers, "CSeq", seq_val);
        let ghost e1: Seq<(Seq<char>, Seq<char>)> = seq![("CSeq"@, v_cseq)];
        proof {
            crate::handler::lemma_header_keys_distinct();
            assert(lhm_entries(headers) =~= e1);
            assert(e1.len() == 1);
            assert((lhm_entries(headers)[0]).0 == "CSeq"@);
            assert forall|t: int| 0 <= t < lhm_entries(headers).len() implies (#[trigger] lhm_entries(
                headers,
            )[t]).0 != "WWW-Authenticate"@ by {
                if t == 0 {
                    assert(lhm_entries(headers)[t] == lhm_entries(headers)[0]);
                }
            }
        }
        push_header(&mut headers, "WWW-Authenticate", challenge);
        let resp = RtspResponse::new("401", Some(headers), None);
        proof {
            assert(resp.headers_model() =~= seq![("CSeq"@, v_cseq), ("WWW-Authenticate"@, v_chal)]);
        }
        Some(resp)
    }

    /// Routes one request against the session: OPTIONS is served as it
    /// stands; any other method has its credentials validated, or their
    /// absence challenged, before its handler runs; PLAY answers with
    /// the track's RTP-Info under the given host, and PLAY and TEARDOWN
    /// raise the play or stop signal.
    #[verifier::rlimit(100)]
    pub fn route(req: &RtspRequest, session: &Session, now_secs: u64, host: &str) -> (r: Routed)
        ensures
            route_ok(*req, *session, now_secs, host@, r),
    {
        proof {
            reveal_strlit("Basic ");
            reveal_strlit("Digest ");
        }
        if !matches!(req.method, Method::Options) {
            match headers_get(&req.headers, "Authorization") {
                Some(a) => {
                    match get_auth_type(a.as_str()) {
                        Some(AuthType::Basic(Some((u, p)))) => {
                            let ok = str_eq("admin", u.as_str()) && str_eq("123456", p.as_str());
                            if !ok {
                                return Routed { response: None, signal: None };
                            }
                        },
                        Some(AuthType::Basic(None)) => {
                            return Routed { response: None, signal: None };
                        },
                        Some(AuthType::Digest(Some(params))) => {
                            let ok = validate_digest_response(
                                &params,
                                req.method.as_str(),
                                "rust rtsp-server",
                                "123456",
                            );
                            if !ok {
                                return Routed { response: None, signal: None };
                            }
                        },
                        Some(AuthType::Digest(None)) => {
                            return Routed { response: None, signal: None };
                        },
                        None => {
                            return Routed { response: None, signal: None };
                        },
                    }
                },
                None => {
                    let resp = Router::unauthorized(req);
                    return Routed { response: resp, signal: None };
                },
            }
        }
        match req.method {
            Method::Options => {
                let mut h = OptionsHandler;
                Routed { response: h.handle(req), signal: None }
            },
            Method::Describe => {
                match session.generare_sdp(now_secs) {
                    Some(sdp) => {
                        let ghost sdp_g = sdp;
                        let mut h = DescribeHandler::new(sdp);
                        let resp = h.handle(req);
                        proof {
                            let ghost resp_g = resp;
                            if let Some(rr) = resp_g {
                                if headers_lookup(req.model().headers, "CSeq"@) is Some {
                                    let c = headers_lookup(req.model().headers, "CSeq"@).unwrap();
                                    assert(session.session_sdp_ok(now_secs, sdp_g)
                                        && describe_response_ok(c, sdp_g, rr));
                                }
                            }
                        }
                        Routed { response: resp, signal: None }
                    },
                    None => Routed { response: None, signal: None },
                }
            },
            Method::Setup => {
                let mut h = SetupHandler::new(session);
                Routed { response: h.handle(req), signal: None }
            },
            Method::Play => {
                let mut h = PlayHandler::new(session, host);
                match h.handle(req) {
                    Some(resp) => Routed {
                        response: Some(resp),
                        signal: Some(session.play()),
                    },
                    None => Routed { response: None, signal: None },
                }
            },
            Method::Teardown => {
                let mut h = TeardownHandler::new(session);
                match h.handle(req) {
                    Some(resp) => Routed {
                        response: Some(resp),
                        signal: Some(session.teardown()),
                    },
                    None => Routed { response: None, signal: None },
                }
            },
            _ => Routed { response: None, signal: None },
        }
    }
}

} // verus!
