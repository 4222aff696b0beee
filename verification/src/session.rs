//! The per-connection session: a random session id, the parameter sets
//! found in the source file, the packetizer for the stream's codec, and
//! the play/stop signals the streaming loop obeys.

use vstd::prelude::*;

verus! {

use std::sync::Arc;
use crate::parse::ParameterSet;
use crate::rtp_h264::{RtpSinkH264, h264_handle_req, h264_handle_post};
use crate::rtp_h265::{RtpSinkH265, h265_handle_req, h265_handle_post};
use crate::sdp::{Fmtp, H264Fmtp, H265Fmtp, MediaInfo, RtpMap, SDP, fmtp_views_equal};
use crate::strutil::{str_eq, dec_digit, dec_str, append_dec_u64};
use crate::request::headers_view;
use vstd::string::StrSliceExecFns;
use vstd::string::StringExecFns;
use vstd::slice::slice_subrange;

#[derive(Debug, PartialEq, Eq, Structural)]
pub enum Track {
    Audio,
    Video,
    Uninitialized,
}

pub open spec fn track_of(s: Seq<char>) -> Track {
    if s == "audio"@ {
        Track::Audio
    } else if s == "video"@ {
        Track::Video
    } else {
        Track::Uninitialized
    }
}

pub open spec fn track_str(t: Track) -> Seq<char> {
    match t {
        Track::Audio => "audio"@,
        Track::Video => "video"@,
        Track::Uninitialized => "uninitialized"@,
    }
}

impl Track {
    pub fn parse(s: &str) -> (t: Track)
        ensures
            t == track_of(s@),
    {
        if str_eq(s, "audio") {
            Track::Audio
        } else if str_eq(s, "video") {
            Track::Video
        } else {
            Track::Uninitialized
        }
    }

    pub fn as_str(&self) -> (r: &'static str)
        ensures
            r@ == track_str(*self),
    {
        match self {
            Track::Audio => "audio",
            Track::Video => "video",
            Track::Uninitialized => "uninitialized",
        }
    }
}

impl From<&str> for Track {
    fn from(s: &str) -> (t: Track) {
        Track::parse(s)
    }
}

impl vstd::std_specs::convert::FromSpecImpl<&str> for Track {
    open spec fn obeys_from_spec() -> bool {
        true
    }

    open spec fn from_spec(s: &str) -> Track {
        track_of(s@)
    }
}

/// The packetizer, tagged by codec: both variants share the framing and
/// packet-state discipline and differ in the fragmentation prefix.
pub enum RtpSink {
    H264(RtpSinkH264),
    H265(RtpSinkH265),
}

impl RtpSink {
    pub open spec fn wf(self) -> bool {
        match self {
            RtpSink::H264(s) => s.wf(),
            RtpSink::H265(s) => s.wf(),
        }
    }

    pub open spec fn handle_req(self, nalu: Seq<u8>) -> bool {
        match self {
            RtpSink::H264(s) => h264_handle_req(s, nalu),
            RtpSink::H265(s) => h265_handle_req(s, nalu),
        }
    }

    pub open spec fn handle_post(pre: RtpSink, post: RtpSink, nalu: Seq<u8>, frames: Seq<Vec<u8>>) -> bool {
        match (pre, post) {
            (RtpSink::H264(a), RtpSink::H264(b)) => h264_handle_post(a, b, nalu, frames),
            (RtpSink::H265(a), RtpSink::H265(b)) => h265_handle_post(a, b, nalu, frames),
            _ => false,
        }
    }

    /// Packetizes one NAL with the codec's packetizer.
    pub fn handle(&mut self, nalu: &[u8]) -> (frames: Vec<Vec<u8>>)
        requires
            old(self).handle_req(nalu@),
        ensures
            RtpSink::handle_post(*old(self), *final(self), nalu@, frames@),
    {
        match self {
            RtpSink::H264(s) => s.handle(nalu),
            RtpSink::H265(s) => s.handle(nalu),
        }
    }
}

/// Relies on `Arc::clone`: the clone refers to the same value.
#[verifier::external_body]
fn arc_clone_string(a: &Arc<String>) -> (r: Arc<String>)
    ensures
        r == *a,
{
    Arc::clone(a)
}

/// Relies on `rand::Rng::gen_range`: a value within the given range.
#[verifier::external_body]
fn random_below(n: usize) -> (r: usize)
    requires
        n >= 1,
    ensures
        r < n,
{
    rand::Rng::gen_range(&mut rand::thread_rng(), 0..n)
}

/// A decimal digit character.
pub open spec fn is_digit_char(c: char) -> bool {
    c == '0' || c == '1' || c == '2' || c == '3' || c == '4' || c == '5' || c == '6' || c == '7'
        || c == '8' || c == '9'
}

/// A 10-digit decimal session identifier, drawn at random.
fn generate_session_id() -> (r: String)
    ensures
        r@.len() == 10,
        forall|j: int| 0 <= j < r@.len() ==> is_digit_char(#[trigger] r@[j]),
{
    let mut s = String::new();
    let mut i: usize = 0;
    while i < 10
        invariant
            i <= 10,
            s@.len() == i,
            forall|j: int| 0 <= j < s@.len() ==> is_digit_char(#[trigger] s@[j]),
        decreases 10 - i,
    {
        let d = random_below(10);
        append_dec_u64(&mut s, d as u64);
        proof {
            assert(dec_str(d as nat).len() == 1);
            assert(dec_str(d as nat)[0] == dec_digit(d as nat));
            assert(is_digit_char(dec_digit(d as nat)));
        }
        i = i + 1;
    }
    s
}

pub struct Session {
    pub session_name: String,
    pub session_id: String,
    pub video_sink: Option<RtpSink>,
    pub fmtp: Option<Fmtp>,
    pub video_file: Option<Arc<String>>,
    pub audio_file: Option<Arc<String>>,
}

impl Session {
    pub open spec fn spec_fmtp(self) -> Option<Fmtp> {
        self.fmtp
    }

    pub open spec fn spec_sink(self) -> Option<RtpSink> {
        self.video_sink
    }

    pub open spec fn spec_name(self) -> Seq<char> {
        self.session_name@
    }

    pub open spec fn spec_session_id(self) -> Seq<char> {
        self.session_id@
    }

    pub open spec fn spec_video_file(self) -> Option<Seq<char>> {
        match self.video_file {
            Some(f) => Some(f@),
            None => None,
        }
    }

    pub open spec fn wf(self) -> bool {
        &&& self.spec_sink() matches Some(s) ==> s.wf()
        &&& self.spec_fmtp() is Some <==> self.spec_sink() is Some
    }

    /// Builds a session for the given parameter sets: `None` where no
    /// video file is given, the scan found no full parameter set, or an
    /// H.264 SPS is too short to carry a profile-level id. The sink
    /// streams at clock rate 90000 and 25 fps with SSRC 12345678,
    /// looping the file.
    pub fn new(
        session_name: &str,
        video_file: Option<Arc<String>>,
        audio_file: Option<Arc<String>>,
        params: ParameterSet,
    ) -> (r: Option<Session>)
        ensures
            match r {
                Some(s) => {
                    &&& s.wf()
                    &&& video_file matches Some(f) && s.spec_video_file() == Some(f@)
                    &&& s.spec_name() == session_name@
                    &&& s.spec_session_id().len() == 10
                    &&& forall|j: int| 0 <= j < 10 ==> is_digit_char(#[trigger] s.spec_session_id()[j])
                    &&& match params {
                        ParameterSet::H264 { sps, pps } => {
                            &&& sps@.len() >= 4
                            &&& s.spec_fmtp() matches Some(Fmtp::H264(f)) && f.payload_type == 96
                                && f.packetization_mode == 1 && f.profile_level_id@
                                == sps@.subrange(1, 4) && f.sps@ == sps@ && f.pps@ == pps@
                            &&& s.spec_sink() matches Some(RtpSink::H264(sk))
                                && sk.spec_payload_type() == 96 && sk.spec_clock_rate() == 90000
                                && sk.spec_fps() == 25 && sk.spec_ssrc() == 12345678
                                && sk.spec_infinite() && sk.spec_seq() == 0 && sk.spec_ts() == 0
                        },
                        ParameterSet::H265 { vps, sps, pps } => {
                            &&& s.spec_fmtp() matches Some(Fmtp::H265(f)) && f.payload_type == 96
                                && f.vps@ == vps@ && f.sps@ == sps@ && f.pps@ == pps@
                            &&& s.spec_sink() matches Some(RtpSink::H265(sk))
                                && sk.spec_payload_type() == 96 && sk.spec_clock_rate() == 90000
                                && sk.spec_fps() == 25 && sk.spec_ssrc() == 12345678
                                && sk.spec_infinite() && sk.spec_seq() == 0 && sk.spec_ts() == 0
                        },
                        ParameterSet::Other => false,
                    }
                },
                None => video_file is None || params is Other || (params matches ParameterSet::H264
                    { sps, .. } && sps@.len() < 4),
            },
    {
        let file = match video_file {
            Some(f) => f,
            None => {
                return None;
            },
        };
        let session_id = generate_session_id();
        let clock_rate: u32 = 90000;
        let fps: u32 = 25;
        let ssrc: u32 = 12345678;
        match params {
            ParameterSet::H264 { sps, pps } => {
                if sps.len() < 4 {
                    return None;
                }
                let plid = slice_to_vec_u8(slice_subrange(sps.as_slice(), 1, 4));
                let fmtp = H264Fmtp {
                    payload_type: 96,
                    packetization_mode: 1,
                    profile_level_id: plid,
                    sps,
                    pps,
                };
                let sink = RtpSinkH264::new(arc_clone_string(&file), 96, clock_rate, fps, ssrc, true);
                Some(
                    Session {
                        session_name: session_name.to_owned(),
                        session_id,
                        video_sink: Some(RtpSink::H264(sink)),
                        fmtp: Some(Fmtp::H264(fmtp)),
                        video_file: Some(file),
                        audio_file,
                    },
                )
            },
            ParameterSet::H265 { vps, sps, pps } => {
                let fmtp = H265Fmtp { payload_type: 96, vps, sps, pps };
                let sink = RtpSinkH265::new(arc_clone_string(&file), 96, clock_rate, fps, ssrc, true);
                Some(
                    Session {
                        session_name: session_name.to_owned(),
                        session_id,
                        video_sink: Some(RtpSink::H265(sink)),
                        fmtp: Some(Fmtp::H265(fmtp)),
                        video_file: Some(file),
                        audio_file,
                    },
                )
            },
            ParameterSet::Other => None,
        }
    }

    /// The video track's packetizer, to be driven by the streaming loop.
    pub fn get_rtp_sink(&mut self, track: Track) -> (r: Option<&mut RtpSink>)
        ensures
            match r {
                Some(sk) => {
                    &&& track == Track::Video
                    &&& old(self).spec_sink() == Some(*sk)
                    &&& final(self).spec_sink() == Some(*final(sk))
                    &&& final(self).spec_session_id() == old(self).spec_session_id()
                    &&& final(self).spec_fmtp() == old(self).spec_fmtp()
                    &&& final(self).spec_name() == old(self).spec_name()
                    &&& final(self).spec_video_file() == old(self).spec_video_file()
                },
                None => {
                    &&& (track != Track::Video || old(self).spec_sink() is None)
                    &&& *final(self) == *old(self)
                },
            },
    {
        match track {
            Track::Video => match &mut self.video_sink {
                Some(s) => Some(s),
                None => None,
            },
            _ => None,
        }
    }

    /// The description `generare_sdp` owes: one video section on port 4
    /// over `RTP/AVP/TCP`, payload type 96 at 90000 Hz, this session's
    /// fmtp and `control:track1`, under the epoch-second session id and
    /// address `0.0.0.0`.
    pub open spec fn session_sdp_ok(self, now_secs: u64, sdp: SDP) -> bool {
        &&& sdp.version == 0
        &&& sdp.origin@ == "- "@ + dec_str(now_secs as nat) + " 0 IN IP4 "@ + "0.0.0.0"@
        &&& sdp.session_name@ == "seminar"@
        &&& sdp.connection@ == "IN IP4 "@ + "0.0.0.0"@
        &&& sdp.time@ == "0 0"@
        &&& headers_view(sdp.attribute@) == seq![("control"@, "*"@)]
        &&& sdp.medias@.len() == 1
        &&& ({
            let m = sdp.medias@[0];
            &&& m.media_type@ == "video"@
            &&& m.port == 4
            &&& m.protocol@ == "RTP/AVP/TCP"@
            &&& m.fmts@ == seq![96u8]
            &&& m.bandwidth is None
            &&& m.rtpmap.payload_type == 96
            &&& m.rtpmap.encoding_name@ == (match self.spec_fmtp().unwrap() {
                Fmtp::H264(_) => "H264"@,
                Fmtp::H265(_) => "H265"@,
            })
            &&& m.rtpmap.clock_rate == 90000
            &&& m.rtpmap.encoding_param@ == Seq::<char>::empty()
            &&& m.fmtp matches Some(mf) && fmtp_views_equal(mf, self.spec_fmtp().unwrap())
            &&& headers_view(m.attribute@) == seq![("control"@, "track1"@)]
        })
    }

    /// The session description offered to DESCRIBE; `None` where the
    /// session holds no fmtp.
    pub fn generare_sdp(&self, now_secs: u64) -> (r: Option<SDP>)
        ensures
            r is Some <==> self.spec_fmtp() is Some,
            r matches Some(sdp) ==> self.session_sdp_ok(now_secs, sdp),
    {
        let fmtp = match &self.fmtp {
            Some(f) => f.clone_fmtp(),
            None => {
                return None;
            },
        };
        let encoding_name = match &fmtp {
            Fmtp::H264(_) => "H264",
            Fmtp::H265(_) => "H265",
        };
        let rtpmap = RtpMap {
            payload_type: 96,
            encoding_name: encoding_name.to_owned(),
            clock_rate: 90000,
            encoding_param: String::new(),
        };
        let mut fmts: Vec<u8> = Vec::new();
        fmts.push(96);
        let mut media_attrs: Vec<(String, String)> = Vec::new();
        media_attrs.push((String::from_str("control"), String::from_str("track1")));
        let media = MediaInfo {
            media_type: String::from_str("video"),
            port: 4,
            protocol: String::from_str("RTP/AVP/TCP"),
            fmts,
            bandwidth: None,
            rtpmap,
            fmtp: Some(fmtp),
            attribute: media_attrs,
        };
        let mut medias: Vec<MediaInfo> = Vec::new();
        medias.push(media);
        let mut attrs: Vec<(String, String)> = Vec::new();
        attrs.push((String::from_str("control"), String::from_str("*")));
        let mut session_id = String::new();
        append_dec_u64(&mut session_id, now_secs);
        proof {
            assert(session_id@ =~= dec_str(now_secs as nat));
            assert(headers_view(attrs@) =~= seq![("control"@, "*"@)]);
            assert(headers_view(medias@[0].attribute@) =~= seq![("control"@, "track1"@)]);
            assert(medias@[0].fmts@ =~= seq![96u8]);
        }
        let sdp = SDP::new(session_id, String::from_str("0.0.0.0"), medias, Some(attrs));
        Some(sdp)
    }

    /// The signal the PLAY handler sends to the streaming loop.
    pub fn play(&self) -> (r: bool)
        ensures
            r == true,
    {
        true
    }

    /// The signal the TEARDOWN handler sends to the streaming loop.
    pub fn teardown(&self) -> (r: bool)
        ensures
            r == false,
    {
        false
    }
}

impl Fmtp {
    /// A copy of the fmtp, field by field.
    pub fn clone_fmtp(&self) -> (r: Fmtp)
        ensures
            fmtp_views_equal(*self, r),
    {
        match self {
            Fmtp::H264(f) => Fmtp::H264(
                H264Fmtp {
                    payload_type: f.payload_type,
                    packetization_mode: f.packetization_mode,
                    profile_level_id: clone_bytes(&f.profile_level_id),
                    sps: clone_bytes(&f.sps),
                    pps: clone_bytes(&f.pps),
                },
            ),
            Fmtp::H265(f) => Fmtp::H265(
                H265Fmtp {
                    payload_type: f.payload_type,
                    vps: clone_bytes(&f.vps),
                    sps: clone_bytes(&f.sps),
                    pps: clone_bytes(&f.pps),
                },
            ),
        }
    }
}

/// A copy of a byte vector.
fn clone_bytes(v: &Vec<u8>) -> (r: Vec<u8>)
    ensures
        r@ == v@,
{
    slice_to_vec_u8(v.as_slice())
}

fn slice_to_vec_u8(s: &[u8]) -> (r: Vec<u8>)
    ensures
        r@ == s@,
{
    vstd::slice::slice_to_vec(s)
}

} // verus!
