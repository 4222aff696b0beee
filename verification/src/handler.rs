//! One handler per RTSP method. Every success response echoes the
//! request's `CSeq`; a request missing a header the method needs is
//! fatal and yields no response.

use vstd::prelude::*;

verus! {

use vstd::string::StrSliceExecFns;
use vstd::string::StringExecFns;
use crate::request::{RtspRequest, headers_lookup, headers_get};
use crate::response::{RtspResponse, lhm_new, lhm_insert, lhm_entries, entries_remove_key};
use crate::sdp::SDP;
use crate::session::Session;

pub proof fn lemma_remove_key_absent(hs: Seq<(Seq<char>, Seq<char>)>, k: Seq<char>)
    requires
        forall|i: int| 0 <= i < hs.len() ==> (#[trigger] hs[i]).0 != k,
    ensures
        entries_remove_key(hs, k) == hs,
    decreases hs.len(),
{
    if hs.len() > 0 {
        let t = hs.skip(1);
        assert(forall|i: int| 0 <= i < t.len() ==> t[i] == hs[i + 1]);
        lemma_remove_key_absent(t, k);
        assert(seq![hs[0]] + t =~= hs);
    }
}

/// The header names the handlers use are pairwise distinct, so each
/// insertion appends a fresh entry.
pub proof fn lemma_header_keys_distinct()
    ensures
        "CSeq"@ != "User-Agent"@,
        "CSeq"@ != "Public"@,
        "CSeq"@ != "Content-Type"@,
        "CSeq"@ != "Session"@,
        "CSeq"@ != "Transport"@,
        "CSeq"@ != "RTP-Info"@,
        "CSeq"@ != "Range"@,
        "CSeq"@ != "Scale"@,
        "CSeq"@ != "Cache-Control"@,
        "CSeq"@ != "WWW-Authenticate"@,
        "User-Agent"@ != "Public"@,
        "User-Agent"@ != "Content-Type"@,
        "User-Agent"@ != "Session"@,
        "User-Agent"@ != "Transport"@,
        "User-Agent"@ != "RTP-Info"@,
        "User-Agent"@ != "Range"@,
        "User-Agent"@ != "Scale"@,
        "User-Agent"@ != "Cache-Control"@,
        "User-Agent"@ != "WWW-Authenticate"@,
        "Public"@ != "Content-Type"@,
        "Public"@ != "Session"@,
        "Public"@ != "Transport"@,
        "Public"@ != "RTP-Info"@,
        "Public"@ != "Range"@,
        "Public"@ != "Scale"@,
        "Public"@ != "Cache-Control"@,
        "Public"@ != "WWW-Authenticate"@,
        "Content-Type"@ != "Session"@,
        "Content-Type"@ != "Transport"@,
        "Content-Type"@ != "RTP-Info"@,
        "Content-Type"@ != "Range"@,
        "Content-Type"@ != "Scale"@,
        "Content-Type"@ != "Cache-Control"@,
        "Content-Type"@ != "WWW-Authenticate"@,
        "Session"@ != "Transport"@,
        "Session"@ != "RTP-Info"@,
        "Session"@ != "Range"@,
        "Session"@ != "Scale"@,
        "Session"@ != "Cache-Control"@,
        "Session"@ != "WWW-Authenticate"@,
        "Transport"@ != "RTP-Info"@,
        "Transport"@ != "Range"@,
        "Transport"@ != "Scale"@,
        "Transport"@ != "Cache-Control"@,
        "Transport"@ != "WWW-Authenticate"@,
        "RTP-Info"@ != "Range"@,
        "RTP-Info"@ != "Scale"@,
        "RTP-Info"@ != "Cache-Control"@,
        "RTP-Info"@ != "WWW-Authenticate"@,
        "Range"@ != "Scale"@,
        "Range"@ != "Cache-Control"@,
        "Range"@ != "WWW-Authenticate"@,
        "Scale"@ != "Cache-Control"@,
        "Scale"@ != "WWW-Authenticate"@,
        "Cache-Control"@ != "WWW-Authenticate"@,
{
    reveal_strlit("CSeq");
    reveal_strlit("User-Agent");
    reveal_strlit("Public");
    reveal_strlit("Content-Type");
    reveal_strlit("Session");
    reveal_strlit("Transport");
    reveal_strlit("RTP-Info");
    reveal_strlit("Range");
    reveal_strlit("Scale");
    reveal_strlit("Cache-Control");
    reveal_strlit("WWW-Authenticate");
    assert("CSeq"@.len() == 4);
    assert("User-Agent"@.len() == 10);
    assert("Public"@.len() == 6);
    assert("Content-Type"@.len() == 12);
    assert("Session"@.len() == 7);
    assert("Transport"@.len() == 9);
    assert("RTP-Info"@.len() == 8);
    assert("Range"@.len() == 5);
    assert("Scale"@.len() == 5);
    assert("Cache-Control"@.len() == 13);
    assert("WWW-Authenticate"@.len() == 16);
    assert("Range"@[0] == 'R');
    assert("Scale"@[0] == 'S');
    assert("Range"@ != "Scale"@);
}

/// Inserts a header known to be fresh: the entry is appended at the back.
pub(crate) fn push_header(m: &mut linked_hash_map::LinkedHashMap<String, String>, k: &str, v: String)
    requires
        forall|i: int|
            0 <= i < lhm_entries(*old(m)).len() ==> (#[trigger] lhm_entries(*old(m))[i]).0 != k@,
    ensures
        lhm_entries(*final(m)) == lhm_entries(*old(m)) + seq![(k@, v@)],
{
    proof {
        lemma_remove_key_absent(lhm_entries(*m), k@);
    }
    let _ = lhm_insert(m, k.to_owned(), v);
}

/// The `OPTIONS` response: the public method list.
pub open spec fn options_response_ok(cseq: Seq<char>, resp: RtspResponse) -> bool {
    &&& resp.version@ == "RTSP/1.0"@
    &&& resp.status_code@ == "200"@
    &&& resp.status_text@ == "OK"@
    &&& resp.headers_model() == seq![
        ("CSeq"@, cseq),
        ("User-Agent"@, "rtsp-server"@),
        ("Public"@, "OPTIONS, DESCRIBE, SETUP, TEARDOWN, PLAY"@),
    ]
    &&& resp.body_model() is None
}

pub struct OptionsHandler;

impl OptionsHandler {
    /// Answers `OPTIONS`; `None` where the request has no `CSeq`.
    pub fn handle(&mut self, req: &RtspRequest) -> (r: Option<RtspResponse>)
        ensures
            match headers_lookup(req.model().headers, "CSeq"@) {
                Some(cseq) => r matches Some(resp) && options_response_ok(cseq, resp),
                None => r is None,
            },
    {
        let seq_val = match headers_get(&req.headers, "CSeq") {
            Some(v) => v,
            None => {
                return None;
            },
        };
        let ghost v_cseq = seq_val@;
        let mut headers = lhm_new();
        push_header(&mut headers, "CSeq", seq_val);
        let ghost e1: Seq<(Seq<char>, Seq<char>)> = seq![("CSeq"@, v_cseq)];
        proof {
            lemma_header_keys_distinct();
            assert(lhm_entries(headers) =~= e1);
            assert(e1.len() == 1);
            assert(lhm_entries(headers).len() == 1);
            assert(e1[0] == ("CSeq"@, v_cseq));
            assert((lhm_entries(headers)[0]).0 == "CSeq"@);
            assert forall|t: int| 0 <= t < lhm_entries(headers).len() implies (#[trigger] lhm_entries(
                headers,
            )[t]).0 != "User-Agent"@ by {
                if t == 0 {
                    assert(lhm_entries(headers)[t] == lhm_entries(headers)[0]);
                }
            }
        }
        push_header(&mut headers, "User-Agent", String::from_str("rtsp-server"));
        let ghost e2: Seq<(Seq<char>, Seq<char>)> = seq![("CSeq"@, v_cseq), ("User-Agent"@, "rtsp-server"@)];
        proof {
            lemma_header_keys_distinct();
            assert(lhm_entries(headers) =~= e2);
            assert(e2.len() == 2);
            assert(lhm_entries(headers).len() == 2);
            assert(e2[0] == ("CSeq"@, v_cseq));
            assert(e2[1] == ("User-Agent"@, "rtsp-server"@));
            assert((lhm_entries(headers)[0]).0 == "CSeq"@);
            assert((lhm_entries(headers)[1]).0 == "User-Agent"@);
            assert forall|t: int| 0 <= t < lhm_entries(headers).len() implies (#[trigger] lhm_entries(
                headers,
            )[t]).0 != "Public"@ by {
                if t == 0 {
                    assert(lhm_entries(headers)[t] == lhm_entries(headers)[0]);
                }
                else if t == 1 {
                    assert(lhm_entries(headers)[t] == lhm_entries(headers)[1]);
                }
            }
        }
        push_header(&mut headers, "Public", String::from_str("OPTIONS, DESCRIBE, SETUP, TEARDOWN, PLAY"));
        let ghost e3: Seq<(Seq<char>, Seq<char>)> = seq![("CSeq"@, v_cseq), ("User-Agent"@, "rtsp-server"@), ("Public"@, "OPTIONS, DESCRIBE, SETUP, TEARDOWN, PLAY"@)];
        let resp = RtspResponse::new("200", Some(headers), None);
        proof {
            assert(resp.headers_model() =~= e3);
        }
        Some(resp)
    }
}

/// The `DESCRIBE` response: the session description as its body.
pub open spec fn describe_response_ok(cseq: Seq<char>, sdp: SDP, resp: RtspResponse) -> bool {
    &&& resp.version@ == "RTSP/1.0"@
    &&& resp.status_code@ == "200"@
    &&& resp.status_text@ == "OK"@
    &&& resp.headers_model() == seq![
        ("CSeq"@, cseq),
        ("User-Agent"@, "rtsp-server"@),
        ("Content-Type"@, "application/sdp"@),
    ]
    &&& resp.body_model() == Some(sdp.spec_text())
}

pub struct DescribeHandler {
    sdp: SDP,
}

impl DescribeHandler {
    pub closed spec fn spec_sdp(self) -> SDP {
        self.sdp
    }

    pub fn new(sdp: SDP) -> (r: DescribeHandler)
        ensures
            r.spec_sdp() == sdp,
    {
        DescribeHandler { sdp }
    }

    /// Answers `DESCRIBE`; `None` where the request has no `CSeq`.
    pub fn handle(&mut self, req: &RtspRequest) -> (r: Option<RtspResponse>)
        ensures
            match headers_lookup(req.model().headers, "CSeq"@) {
                Some(cseq) => r matches Some(resp) && describe_response_ok(
                    cseq,
                    old(self).spec_sdp(),
                    resp,
                ),
                None => r is None,
            },
            *final(self) == *old(self),
    {
        let seq_val = match headers_get(&req.headers, "CSeq") {
            Some(v) => v,
            None => {
                return None;
            },
        };
        let ghost v_cseq = seq_val@;
        let mut headers = lhm_new();
        push_header(&mut headers, "CSeq", seq_val);
        let ghost e1: Seq<(Seq<char>, Seq<char>)> = seq![("CSeq"@, v_cseq)];
        proof {
            lemma_header_keys_distinct();
            assert(lhm_entries(headers) =~= e1);
            assert(e1.len() == 1);
            assert(lhm_entries(headers).len() == 1);
            assert(e1[0] == ("CSeq"@, v_cseq));
            assert((lhm_entries(headers)[0]).0 == "CSeq"@);
            assert forall|t: int| 0 <= t < lhm_entries(headers).len() implies (#[trigger] lhm_entries(
                headers,
            )[t]).0 != "User-Agent"@ by {
                if t == 0 {
                    assert(lhm_entries(headers)[t] == lhm_entries(headers)[0]);
                }
            }
        }
        push_header(&mut headers, "User-Agent", String::from_str("rtsp-server"));
        let ghost e2: Seq<(Seq<char>, Seq<char>)> = seq![("CSeq"@, v_cseq), ("User-Agent"@, "rtsp-server"@)];
        proof {
            lemma_header_keys_distinct();
            assert(lhm_entries(headers) =~= e2);
            assert(e2.len() == 2);
            assert(lhm_entries(headers).len() == 2);
            assert(e2[0] == ("CSeq"@, v_cseq));
            assert(e2[1] == ("User-Agent"@, "rtsp-server"@));
            assert((lhm_entries(headers)[0]).0 == "CSeq"@);
            assert((lhm_entries(headers)[1]).0 == "User-Agent"@);
            assert forall|t: int| 0 <= t < lhm_entries(headers).len() implies (#[trigger] lhm_entries(
                headers,
            )[t]).0 != "Content-Type"@ by {
                if t == 0 {
                    assert(lhm_entries(headers)[t] == lhm_entries(headers)[0]);
                }
                else if t == 1 {
                    assert(lhm_entries(headers)[t] == lhm_entries(headers)[1]);
                }
            }
        }
        push_header(&mut headers, "Content-Type", String::from_str("application/sdp"));
        let ghost e3: Seq<(Seq<char>, Seq<char>)> = seq![("CSeq"@, v_cseq), ("User-Agent"@, "rtsp-server"@), ("Content-Type"@, "application/sdp"@)];
        let sdp_str = self.sdp.to_sdp_string();
        let resp = RtspResponse::new("200", Some(headers), Some(sdp_str));
        proof {
            assert(resp.headers_model() =~= e3);
        }
        Some(resp)
    }
}

/// The `SETUP` response: the session (the client's, or this server's,
/// with a timeout) and the client's transport with the SSRC appended.
pub open spec fn setup_response_ok(
    cseq: Seq<char>,
    session_value: Seq<char>,
    transport: Seq<char>,
    resp: RtspResponse,
) -> bool {
    &&& resp.version@ == "RTSP/1.0"@
    &&& resp.status_code@ == "200"@
    &&& resp.status_text@ == "OK"@
    &&& resp.headers_model() == seq![
        ("CSeq"@, cseq),
        ("User-Agent"@, "rtsp-server"@),
        ("Session"@, session_value + ";timeout=60"@),
        ("Transport"@, transport + ";ssrc=12345678"@),
    ]
    &&& resp.body_model() is None
}

pub struct SetupHandler {
    session_id: String,
}

impl SetupHandler {
    pub closed spec fn spec_session_id(self) -> Seq<char> {
        self.session_id@
    }

    pub fn new(session: &Session) -> (r: SetupHandler)
        ensures
            r.spec_session_id() == session.spec_session_id(),
    {
        SetupHandler { session_id: session.session_id.clone() }
    }

    /// Answers `SETUP`; `None` where the request has no `CSeq` or no
    /// `Transport`. A `session` header sent by the client is echoed;
    /// otherwise this server's session id is offered.
    pub fn handle(&mut self, req: &RtspRequest) -> (r: Option<RtspResponse>)
        ensures
            ({
                let hs = req.model().headers;
                match (headers_lookup(hs, "CSeq"@), headers_lookup(hs, "Transport"@)) {
                    (Some(cseq), Some(transport)) => r matches Some(resp) && setup_response_ok(
                        cseq,
                        match headers_lookup(hs, "session"@) {
                            Some(sv) => sv,
                            None => old(self).spec_session_id(),
                        },
                        transport,
                        resp,
                    ),
                    _ => r is None,
                }
            }),
            *final(self) == *old(self),
    {
        let seq_val = match headers_get(&req.headers, "CSeq") {
            Some(v) => v,
            None => {
                return None;
            },
        };
        let transport = match headers_get(&req.headers, "Transport") {
            Some(v) => v,
            None => {
                return None;
            },
        };
        let mut session_str = match headers_get(&req.headers, "session") {
            Some(v) => v,
            None => self.session_id.clone(),
        };
        session_str.append(";timeout=60");
        let mut transport_str = transport;
        transport_str.append(";ssrc=12345678");
        let ghost v_cseq = seq_val@;
        let ghost v_sess = session_str@;
        let ghost v_trans = transport_str@;
        let mut headers = lhm_new();
        push_header(&mut headers, "CSeq", seq_val);
        let ghost e1: Seq<(Seq<char>, Seq<char>)> = seq![("CSeq"@, v_cseq)];
        proof {
            lemma_header_keys_distinct();
            assert(lhm_entries(headers) =~= e1);
            assert(e1.len() == 1);
            assert(lhm_entries(headers).len() == 1);
            assert(e1[0] == ("CSeq"@, v_cseq));
            assert((lhm_entries(headers)[0]).0 == "CSeq"@);
            assert forall|t: int| 0 <= t < lhm_entries(headers).len() implies (#[trigger] lhm_entries(
                headers,
            )[t]).0 != "User-Agent"@ by {
                if t == 0 {
                    assert(lhm_entries(headers)[t] == lhm_entries(headers)[0]);
                }
            }
        }
        push_header(&mut headers, "User-Agent", String::from_str("rtsp-server"));
        let ghost e2: Seq<(Seq<char>, Seq<char>)> = seq![("CSeq"@, v_cseq), ("User-Agent"@, "rtsp-server"@)];
        proof {
            lemma_header_keys_distinct();
            assert(lhm_entries(headers) =~= e2);
            assert(e2.len() == 2);
            assert(lhm_entries(headers).len() == 2);
            assert(e2[0] == ("CSeq"@, v_cseq));
            assert(e2[1] == ("User-Agent"@, "rtsp-server"@));
            assert((lhm_entries(headers)[0]).0 == "CSeq"@);
            assert((lhm_entries(headers)[1]).0 == "User-Agent"@);
            assert forall|t: int| 0 <= t < lhm_entries(headers).len() implies (#[trigger] lhm_entries(
                headers,
            )[t]).0 != "Session"@ by {
                if t == 0 {
                    assert(lhm_entries(headers)[t] == lhm_entries(headers)[0]);
                }
                else if t == 1 {
                    assert(lhm_entries(headers)[t] == lhm_entries(headers)[1]);
                }
            }
        }
        push_header(&mut headers, "Session", session_str);
        let ghost e3: Seq<(Seq<char>, Seq<char>)> = seq![("CSeq"@, v_cseq), ("User-Agent"@, "rtsp-server"@), ("Session"@, v_sess)];
        proof {
            lemma_header_keys_distinct();
            assert(lhm_entries(headers) =~= e3);
            assert(e3.len() == 3);
            assert(lhm_entries(headers).len() == 3);
            assert(e3[0] == ("CSeq"@, v_cseq));
            assert(e3[1] == ("User-Agent"@, "rtsp-server"@));
            assert(e3[2] == ("Session"@, v_sess));
            assert((lhm_entries(headers)[0]).0 == "CSeq"@);
            assert((lhm_entries(headers)[1]).0 == "User-Agent"@);
            assert((lhm_entries(headers)[2]).0 == "Session"@);
            assert forall|t: int| 0 <= t < lhm_entries(headers).len() implies (#[trigger] lhm_entries(
                headers,
            )[t]).0 != "Transport"@ by {
                if t == 0 {
                    assert(lhm_entries(headers)[t] == lhm_entries(headers)[0]);
                }
                else if t == 1 {
                    assert(lhm_entries(headers)[t] == lhm_entries(headers)[1]);
                }
                else if t == 2 {
                    assert(lhm_entries(headers)[t] == lhm_entries(headers)[2]);
                }
            }
        }
        push_header(&mut headers, "Transport", transport_str);
        let ghost e4: Seq<(Seq<char>, Seq<char>)> = seq![("CSeq"@, v_cseq), ("User-Agent"@, "rtsp-server"@), ("Session"@, v_sess), ("Transport"@, v_trans)];
        let resp = RtspResponse::new("200", Some(headers), None);
        proof {
            assert(resp.headers_model() =~= e4);
        }
        Some(resp)
    }
}

/// The `PLAY` response: the client's session, the track's RTP-Info
/// under the connection's host, and the fixed range, scale and cache
/// headers.
pub open spec fn play_response_ok(
    cseq: Seq<char>,
    session_value: Seq<char>,
    host: Seq<char>,
    resp: RtspResponse,
) -> bool {
    &&& resp.version@ == "RTSP/1.0"@
    &&& resp.status_code@ == "200"@
    &&& resp.status_text@ == "OK"@
    &&& resp.headers_model() == seq![
        ("CSeq"@, cseq),
        ("User-Agent"@, "rtsp-server"@),
        ("Session"@, session_value),
        ("RTP-Info"@, ("url=rtsp://"@ + host + "/track0;seq=0;rtptime=0"@)),
        ("Range"@, "npt=0.000-"@),
        ("Scale"@, "1.000"@),
        ("Cache-Control"@, "no-cache"@),
    ]
    &&& resp.body_model() is None
}

pub struct PlayHandler {
    session_id: String,
    host: String,
}

impl PlayHandler {
    pub closed spec fn spec_session_id(self) -> Seq<char> {
        self.session_id@
    }

    pub closed spec fn spec_host(self) -> Seq<char> {
        self.host@
    }

    pub fn new(session: &Session, host: &str) -> (r: PlayHandler)
        ensures
            r.spec_session_id() == session.spec_session_id(),
            r.spec_host() == host@,
    {
        PlayHandler { session_id: session.session_id.clone(), host: host.to_owned() }
    }

    /// Answers `PLAY`; `None` where the request has no `CSeq` or no
    /// `Session`.
    #[verifier::rlimit(100)]
    pub fn handle(&mut self, req: &RtspRequest) -> (r: Option<RtspResponse>)
        ensures
            ({
                let hs = req.model().headers;
                match (headers_lookup(hs, "CSeq"@), headers_lookup(hs, "Session"@)) {
                    (Some(cseq), Some(sv)) => r matches Some(resp) && play_response_ok(
                        cseq,
                        sv,
                        old(self).spec_host(),
                        resp,
                    ),
                    _ => r is None,
                }
            }),
            *final(self) == *old(self),
    {
        let seq_val = match headers_get(&req.headers, "CSeq") {
            Some(v) => v,
            None => {
                return None;
            },
        };
        let session_val = match headers_get(&req.headers, "Session") {
            Some(v) => v,
            None => {
                return None;
            },
        };
        let mut rtp_info = String::new();
        rtp_info.append("url=rtsp://");
        rtp_info.append(self.host.as_str());
        rtp_info.append("/track0;seq=0;rtptime=0");
        let ghost v_cseq = seq_val@;
        let ghost v_sess = session_val@;
        let ghost v_rtpinfo = rtp_info@;
        proof {
            assert(v_rtpinfo =~= "url=rtsp://"@ + old(self).spec_host()
                + "/track0;seq=0;rtptime=0"@);
        }
        let mut headers = lhm_new();
        push_header(&mut headers, "CSeq", seq_val);
        let ghost e1: Seq<(Seq<char>, Seq<char>)> = seq![("CSeq"@, v_cseq)];
        proof {
            lemma_header_keys_distinct();
            assert(lhm_entries(headers) =~= e1);
            assert(e1.len() == 1);
            assert(lhm_entries(headers).len() == 1);
            assert(e1[0] == ("CSeq"@, v_cseq));
            assert((lhm_entries(headers)[0]).0 == "CSeq"@);
            assert forall|t: int| 0 <= t < lhm_entries(headers).len() implies (#[trigger] lhm_entries(
                headers,
            )[t]).0 != "User-Agent"@ by {
                if t == 0 {
                    assert(lhm_entries(headers)[t] == lhm_entries(headers)[0]);
                }
            }
        }
        push_header(&mut headers, "User-Agent", String::from_str("rtsp-server"));
        let ghost e2: Seq<(Seq<char>, Seq<char>)> = seq![("CSeq"@, v_cseq), ("User-Agent"@, "rtsp-server"@)];
        proof {
            lemma_header_keys_distinct();
            assert(lhm_entries(headers) =~= e2);
            assert(e2.len() == 2);
            assert(lhm_entries(headers).len() == 2);
            assert(e2[0] == ("CSeq"@, v_cseq));
            assert(e2[1] == ("User-Agent"@, "rtsp-server"@));
            assert((lhm_entries(headers)[0]).0 == "CSeq"@);
            assert((lhm_entries(headers)[1]).0 == "User-Agent"@);
            assert forall|t: int| 0 <= t < lhm_entries(headers).len() implies (#[trigger] lhm_entries(
                headers,
            )[t]).0 != "Session"@ by {
                if t == 0 {
                    assert(lhm_entries(headers)[t] == lhm_entries(headers)[0]);
                }
                else if t == 1 {
                    assert(lhm_entries(headers)[t] == lhm_entries(headers)[1]);
                }
            }
        }
        push_header(&mut headers, "Session", session_val);
        let ghost e3: Seq<(Seq<char>, Seq<char>)> = seq![("CSeq"@, v_cseq), ("User-Agent"@, "rtsp-server"@), ("Session"@, v_sess)];
        proof {
            lemma_header_keys_distinct();
            assert(lhm_entries(headers) =~= e3);
            assert(e3.len() == 3);
            assert(lhm_entries(headers).len() == 3);
            assert(e3[0] == ("CSeq"@, v_cseq));
            assert(e3[1] == ("User-Agent"@, "rtsp-server"@));
            assert(e3[2] == ("Session"@, v_sess));
            assert((lhm_entries(headers)[0]).0 == "CSeq"@);
            assert((lhm_entries(headers)[1]).0 == "User-Agent"@);
            assert((lhm_entries(headers)[2]).0 == "Session"@);
            assert forall|t: int| 0 <= t < lhm_entries(headers).len() implies (#[trigger] lhm_entries(
                headers,
            )[t]).0 != "RTP-Info"@ by {
                if t == 0 {
                    assert(lhm_entries(headers)[t] == lhm_entries(headers)[0]);
                }
                else if t == 1 {
                    assert(lhm_entries(headers)[t] == lhm_entries(headers)[1]);
                }
                else if t == 2 {
                    assert(lhm_entries(headers)[t] == lhm_entries(headers)[2]);
                }
            }
        }
        push_header(&mut headers, "RTP-Info", rtp_info);
        let ghost e4: Seq<(Seq<char>, Seq<char>)> = seq![("CSeq"@, v_cseq), ("User-Agent"@, "rtsp-server"@), ("Session"@, v_sess), ("RTP-Info"@, v_rtpinfo)];
        proof {
            lemma_header_keys_distinct();
            assert(lhm_entries(headers) =~= e4);
            assert(e4.len() == 4);
            assert(lhm_entries(headers).len() == 4);
            assert(e4[0] == ("CSeq"@, v_cseq));
            assert(e4[1] == ("User-Agent"@, "rtsp-server"@));
            assert(e4[2] == ("Session"@, v_sess));
            assert(e4[3] == ("RTP-Info"@, v_rtpinfo));
            assert((lhm_entries(headers)[0]).0 == "CSeq"@);
            assert((lhm_entries(headers)[1]).0 == "User-Agent"@);
            assert((lhm_entries(headers)[2]).0 == "Session"@);
            assert((lhm_entries(headers)[3]).0 == "RTP-Info"@);
            assert forall|t: int| 0 <= t < lhm_entries(headers).len() implies (#[trigger] lhm_entries(
                headers,
            )[t]).0 != "Range"@ by {
                if t == 0 {
                    assert(lhm_entries(headers)[t] == lhm_entries(headers)[0]);
                }
                else if t == 1 {
                    assert(lhm_entries(headers)[t] == lhm_entries(headers)[1]);
                }
                else if t == 2 {
                    assert(lhm_entries(headers)[t] == lhm_entries(headers)[2]);
                }
                else if t == 3 {
                    assert(lhm_entries(headers)[t] == lhm_entries(headers)[3]);
                }
            }
        }
        push_header(&mut headers, "Range", String::from_str("npt=0.000-"));
        let ghost e5: Seq<(Seq<char>, Seq<char>)> = seq![("CSeq"@, v_cseq), ("User-Agent"@, "rtsp-server"@), ("Session"@, v_sess), ("RTP-Info"@, v_rtpinfo), ("Range"@, "npt=0.000-"@)];
        proof {
            lemma_header_keys_distinct();
            assert(lhm_entries(headers) =~= e5);
            assert(e5.len() == 5);
            assert(lhm_entries(headers).len() == 5);
            assert(e5[0] == ("CSeq"@, v_cseq));
            assert(e5[1] == ("User-Agent"@, "rtsp-server"@));
            assert(e5[2] == ("Session"@, v_sess));
            assert(e5[3] == ("RTP-Info"@, v_rtpinfo));
            assert(e5[4] == ("Range"@, "npt=0.000-"@));
            assert((lhm_entries(headers)[0]).0 == "CSeq"@);
            assert((lhm_entries(headers)[1]).0 == "User-Agent"@);
            assert((lhm_entries(headers)[2]).0 == "Session"@);
            assert((lhm_entries(headers)[3]).0 == "RTP-Info"@);
            assert((lhm_entries(headers)[4]).0 == "Range"@);
            assert forall|t: int| 0 <= t < lhm_entries(headers).len() implies (#[trigger] lhm_entries(
                headers,
            )[t]).0 != "Scale"@ by {
                if t == 0 {
                    assert(lhm_entries(headers)[t] == lhm_entries(headers)[0]);
                }
                else if t == 1 {
                    assert(lhm_entries(headers)[t] == lhm_entries(headers)[1]);
                }
                else if t == 2 {
                    assert(lhm_entries(headers)[t] == lhm_entries(headers)[2]);
                }
                else if t == 3 {
                    assert(lhm_entries(headers)[t] == lhm_entries(headers)[3]);
                }
                else if t == 4 {
                    assert(lhm_entries(headers)[t] == lhm_entries(headers)[4]);
                }
            }
        }
        push_header(&mut headers, "Scale", String::from_str("1.000"));
        let ghost e6: Seq<(Seq<char>, Seq<char>)> = seq![("CSeq"@, v_cseq), ("User-Agent"@, "rtsp-server"@), ("Session"@, v_sess), ("RTP-Info"@, v_rtpinfo), ("Range"@, "npt=0.000-"@), ("Scale"@, "1.000"@)];
        proof {
            lemma_header_keys_distinct();
            assert(lhm_entries(headers) =~= e6);
            assert(e6.len() == 6);
            assert(lhm_entries(headers).len() == 6);
            assert(e6[0] == ("CSeq"@, v_cseq));
            assert(e6[1] == ("User-Agent"@, "rtsp-server"@));
            assert(e6[2] == ("Session"@, v_sess));
            assert(e6[3] == ("RTP-Info"@, v_rtpinfo));
            assert(e6[4] == ("Range"@, "npt=0.000-"@));
            assert(e6[5] == ("Scale"@, "1.000"@));
            assert((lhm_entries(headers)[0]).0 == "CSeq"@);
            assert((lhm_entries(headers)[1]).0 == "User-Agent"@);
            assert((lhm_entries(headers)[2]).0 == "Session"@);
            assert((lhm_entries(headers)[3]).0 == "RTP-Info"@);
            assert((lhm_entries(headers)[4]).0 == "Range"@);
            assert((lhm_entries(headers)[5]).0 == "Scale"@);
            assert forall|t: int| 0 <= t < lhm_entries(headers).len() implies (#[trigger] lhm_entries(
                headers,
            )[t]).0 != "Cache-Control"@ by {
                if t == 0 {
                    assert(lhm_entries(headers)[t] == lhm_entries(headers)[0]);
                }
                else if t == 1 {
                    assert(lhm_entries(headers)[t] == lhm_entries(headers)[1]);
                }
                else if t == 2 {
                    assert(lhm_entries(headers)[t] == lhm_entries(headers)[2]);
                }
                else if t == 3 {
                    assert(lhm_entries(headers)[t] == lhm_entries(headers)[3]);
                }
                else if t == 4 {
                    assert(lhm_entries(headers)[t] == lhm_entries(headers)[4]);
                }
                else if t == 5 {
                    assert(lhm_entries(headers)[t] == lhm_entries(headers)[5]);
                }
            }
        }
        push_header(&mut headers, "Cache-Control", String::from_str("no-cache"));
        let ghost e7: Seq<(Seq<char>, Seq<char>)> = seq![("CSeq"@, v_cseq), ("User-Agent"@, "rtsp-server"@), ("Session"@, v_sess), ("RTP-Info"@, v_rtpinfo), ("Range"@, "npt=0.000-"@), ("Scale"@, "1.000"@), ("Cache-Control"@, "no-cache"@)];
        let resp = RtspResponse::new("200", Some(headers), None);
        proof {
            assert(resp.headers_model() =~= e7);
        }
        Some(resp)
    }
}

/// The `TEARDOWN` response: this server's session id.
pub open spec fn teardown_response_ok(
    cseq: Seq<char>,
    session_id: Seq<char>,
    resp: RtspResponse,
) -> bool {
    &&& resp.version@ == "RTSP/1.0"@
    &&& resp.status_code@ == "200"@
    &&& resp.status_text@ == "OK"@
    &&& resp.headers_model() == seq![
        ("CSeq"@, cseq),
        ("User-Agent"@, "rtsp-server"@),
        ("Session"@, session_id),
    ]
    &&& resp.body_model() is None
}

pub struct TeardownHandler {
    session_id: String,
}

impl TeardownHandler {
    pub closed spec fn spec_session_id(self) -> Seq<char> {
        self.session_id@
    }

    pub fn new(session: &Session) -> (r: TeardownHandler)
        ensures
            r.spec_session_id() == session.spec_session_id(),
    {
        TeardownHandler { session_id: session.session_id.clone() }
    }

    /// Answers `TEARDOWN`; `None` where the request has no `CSeq`.
    pub fn handle(&mut self, req: &RtspRequest) -> (r: Option<RtspResponse>)
        ensures
            match headers_lookup(req.model().headers, "CSeq"@) {
                Some(cseq) => r matches Some(resp) && teardown_response_ok(
                    cseq,
                    old(self).spec_session_id(),
                    resp,
                ),
                None => r is None,
            },
            *final(self) == *old(self),
    {
        let seq_val = match headers_get(&req.headers, "CSeq") {
            Some(v) => v,
            None => {
                return None;
            },
        };
        let ghost v_cseq = seq_val@;
        let mut headers = lhm_new();
        push_header(&mut headers, "CSeq", seq_val);
        let ghost e1: Seq<(Seq<char>, Seq<char>)> = seq![("CSeq"@, v_cseq)];
        proof {
            lemma_header_keys_distinct();
            assert(lhm_entries(headers) =~= e1);
            assert(e1.len() == 1);
            assert(lhm_entries(headers).len() == 1);
            assert(e1[0] == ("CSeq"@, v_cseq));
            assert((lhm_entries(headers)[0]).0 == "CSeq"@);
            assert forall|t: int| 0 <= t < lhm_entries(headers).len() implies (#[trigger] lhm_entries(
                headers,
            )[t]).0 != "User-Agent"@ by {
                if t == 0 {
                    assert(lhm_entries(headers)[t] == lhm_entries(headers)[0]);
                }
            }
        }
        push_header(&mut headers, "User-Agent", String::from_str("rtsp-server"));
        let ghost e2: Seq<(Seq<char>, Seq<char>)> = seq![("CSeq"@, v_cseq), ("User-Agent"@, "rtsp-server"@)];
        proof {
            lemma_header_keys_distinct();
            assert(lhm_entries(headers) =~= e2);
            assert(e2.len() == 2);
            assert(lhm_entries(headers).len() == 2);
            assert(e2[0] == ("CSeq"@, v_cseq));
            assert(e2[1] == ("User-Agent"@, "rtsp-server"@));
            assert((lhm_entries(headers)[0]).0 == "CSeq"@);
            assert((lhm_entries(headers)[1]).0 == "User-Agent"@);
            assert forall|t: int| 0 <= t < lhm_entries(headers).len() implies (#[trigger] lhm_entries(
                headers,
            )[t]).0 != "Session"@ by {
                if t == 0 {
                    assert(lhm_entries(headers)[t] == lhm_entries(headers)[0]);
                }
                else if t == 1 {
                    assert(lhm_entries(headers)[t] == lhm_entries(headers)[1]);
                }
            }
        }
        push_header(&mut headers, "Session", self.session_id.clone());
        let ghost e3: Seq<(Seq<char>, Seq<char>)> = seq![("CSeq"@, v_cseq), ("User-Agent"@, "rtsp-server"@), ("Session"@, old(self).spec_session_id())];
        let resp = RtspResponse::new("200", Some(headers), None);
        proof {
            assert(resp.headers_model() =~= e3);
        }
        Some(resp)
    }
}

} // verus!
