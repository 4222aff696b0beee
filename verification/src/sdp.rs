//! SDP session descriptions: one video media section, its rtpmap and
//! fmtp lines, and the document's serialization.

use vstd::prelude::*;

verus! {

use vstd::string::StrSliceExecFns;
use vstd::string::StringExecFns;
use crate::strutil::{dec_str, append_dec_u64, hex2, append_hex_byte};
use crate::request::headers_view;

/// The base64 text of `data`, as the STANDARD engine encodes it.
pub uninterp spec fn b64_of(data: Seq<u8>) -> Seq<char>;

/// Relies on base64's STANDARD engine `encode`: the text is a function
/// of the bytes alone.
#[verifier::external_body]
pub(crate) fn b64_encode(data: &[u8]) -> (r: String)
    ensures
        r@ == b64_of(data@),
{
    base64::Engine::encode(&base64::engine::general_purpose::STANDARD, data)
}

#[derive(Debug, Clone)]
pub struct Bandwidth {
    pub modifier: String,
    pub value: u16,
}

impl Bandwidth {
    pub open spec fn spec_text(self) -> Seq<char> {
        self.modifier@ + ":"@ + dec_str(self.value as nat) + "\r\n"@
    }

    /// The bandwidth line's text: `modifier:value`.
    pub fn to_sdp_string(&self) -> (r: String)
        ensures
            r@ == self.spec_text(),
    {
        let mut out = String::new();
        out.append(self.modifier.as_str());
        out.append(":");
        append_dec_u64(&mut out, self.value as u64);
        out.append("\r\n");
        proof {
            assert(out@ =~= self.spec_text());
        }
        out
    }
}

#[derive(Debug, Clone)]
pub struct RtpMap {
    pub payload_type: u16,
    pub encoding_name: String,
    pub clock_rate: u32,
    pub encoding_param: String,
}

impl RtpMap {
    pub open spec fn spec_text(self) -> Seq<char> {
        dec_str(self.payload_type as nat) + " "@ + self.encoding_name@ + "/"@ + dec_str(
            self.clock_rate as nat,
        ) + (if self.encoding_param@.len() == 0 {
            Seq::<char>::empty()
        } else {
            "/"@ + self.encoding_param@
        }) + "\r\n"@
    }

    /// The rtpmap attribute's text: `payload-type name/clock-rate`, with
    /// an encoding parameter where one is set.
    pub fn to_sdp_string(&self) -> (r: String)
        ensures
            r@ == self.spec_text(),
    {
        let mut out = String::new();
        append_dec_u64(&mut out, self.payload_type as u64);
        out.append(" ");
        out.append(self.encoding_name.as_str());
        out.append("/");
        append_dec_u64(&mut out, self.clock_rate as u64);
        if !self.encoding_param.as_str().is_empty() {
            out.append("/");
            out.append(self.encoding_param.as_str());
        }
        out.append("\r\n");
        proof {
            assert(out@ =~= self.spec_text());
        }
        out
    }
}

/// The bytes rendered as two lowercase hexadecimal digits each.
pub open spec fn hex_bytes(bs: Seq<u8>) -> Seq<char>
    decreases bs.len(),
{
    if bs.len() == 0 {
        Seq::empty()
    } else {
        hex2(bs[0]) + hex_bytes(bs.skip(1))
    }
}

fn append_hex_bytes(out: &mut String, bs: &Vec<u8>)
    ensures
        final(out)@ == old(out)@ + hex_bytes(bs@),
{
    let n = bs.len();
    let mut i: usize = 0;
    proof {
        assert(bs@.skip(0) =~= bs@);
    }
    while i < n
        invariant
            n == bs@.len(),
            i <= n,
            out@ + hex_bytes(bs@.skip(i as int)) == old(out)@ + hex_bytes(bs@),
        decreases n - i,
    {
        proof {
            assert(bs@.skip(i as int)[0] == bs@[i as int]);
            assert(bs@.skip(i as int).skip(1) =~= bs@.skip(i + 1));
        }
        append_hex_byte(out, bs[i]);
        proof {
            assert(out@ + hex_bytes(bs@.skip(i + 1)) =~= old(out)@ + hex_bytes(bs@));
        }
        i = i + 1;
    }
    proof {
        assert(hex_bytes(bs@.skip(n as int)) =~= Seq::<char>::empty());
        assert(out@ =~= old(out)@ + hex_bytes(bs@));
    }
}

#[derive(Debug, Clone)]
#[verifier::ext_equal]
pub struct H264Fmtp {
    pub payload_type: u16,
    pub packetization_mode: u8,
    pub profile_level_id: Vec<u8>,
    pub sps: Vec<u8>,
    pub pps: Vec<u8>,
}

impl H264Fmtp {
    pub open spec fn spec_text(self) -> Seq<char> {
        dec_str(self.payload_type as nat) + " packetization-mode="@ + dec_str(
            self.packetization_mode as nat,
        ) + "; profile-level-id="@ + hex_bytes(self.profile_level_id@) + "; sprop-parameter-sets="@
            + b64_of(self.sps@) + ","@ + b64_of(self.pps@) + "\r\n"@
    }

    /// The H.264 fmtp attribute: packetization mode, profile-level-id in
    /// hexadecimal, and the base64 SPS and PPS.
    pub fn to_sdp_string(&self) -> (r: String)
        ensures
            r@ == self.spec_text(),
    {
        let mut out = String::new();
        append_dec_u64(&mut out, self.payload_type as u64);
        out.append(" packetization-mode=");
        append_dec_u64(&mut out, self.packetization_mode as u64);
        out.append("; profile-level-id=");
        append_hex_bytes(&mut out, &self.profile_level_id);
        out.append("; sprop-parameter-sets=");
        let sps_b64 = b64_encode(self.sps.as_slice());
        out.append(sps_b64.as_str());
        out.append(",");
        let pps_b64 = b64_encode(self.pps.as_slice());
        out.append(pps_b64.as_str());
        out.append("\r\n");
        proof {
            assert(out@ =~= self.spec_text());
        }
        out
    }
}

#[derive(Debug, Clone)]
#[verifier::ext_equal]
pub struct H265Fmtp {
    pub payload_type: u16,
    pub vps: Vec<u8>,
    pub sps: Vec<u8>,
    pub pps: Vec<u8>,
}

impl H265Fmtp {
    pub open spec fn spec_text(self) -> Seq<char> {
        dec_str(self.payload_type as nat) + " sprop-vps="@ + b64_of(self.vps@) + "; sprop-sps="@
            + b64_of(self.sps@) + "; sprop-pps="@ + b64_of(self.pps@) + "\r\n"@
    }

    /// The H.265 fmtp attribute: the base64 VPS, SPS and PPS.
    pub fn to_sdp_string(&self) -> (r: String)
        ensures
            r@ == self.spec_text(),
    {
        let mut out = String::new();
        append_dec_u64(&mut out, self.payload_type as u64);
        out.append(" sprop-vps=");
        let vps_b64 = b64_encode(self.vps.as_slice());
        out.append(vps_b64.as_str());
        out.append("; sprop-sps=");
        let sps_b64 = b64_encode(self.sps.as_slice());
        out.append(sps_b64.as_str());
        out.append("; sprop-pps=");
        let pps_b64 = b64_encode(self.pps.as_slice());
        out.append(pps_b64.as_str());
        out.append("\r\n");
        proof {
            assert(out@ =~= self.spec_text());
        }
        out
    }
}

#[derive(Debug, Clone)]
#[verifier::ext_equal]
pub enum Fmtp {
    H264(H264Fmtp),
    H265(H265Fmtp),
}

/// The two fmtps describe the same parameters, field by field.
pub open spec fn fmtp_views_equal(a: Fmtp, b: Fmtp) -> bool {
    match (a, b) {
        (Fmtp::H264(x), Fmtp::H264(y)) => x.payload_type == y.payload_type
            && x.packetization_mode == y.packetization_mode && x.profile_level_id@
            == y.profile_level_id@ && x.sps@ == y.sps@ && x.pps@ == y.pps@,
        (Fmtp::H265(x), Fmtp::H265(y)) => x.payload_type == y.payload_type && x.vps@ == y.vps@
            && x.sps@ == y.sps@ && x.pps@ == y.pps@,
        _ => false,
    }
}

impl Fmtp {
    pub open spec fn spec_text(self) -> Seq<char> {
        match self {
            Fmtp::H264(f) => f.spec_text(),
            Fmtp::H265(f) => f.spec_text(),
        }
    }

    pub fn to_sdp_string(&self) -> (r: String)
        ensures
            r@ == self.spec_text(),
    {
        match self {
            Fmtp::H264(f) => f.to_sdp_string(),
            Fmtp::H265(f) => f.to_sdp_string(),
        }
    }
}

/// The format numbers joined with single spaces.
pub open spec fn fmts_text(fs: Seq<u8>) -> Seq<char>
    decreases fs.len(),
{
    if fs.len() == 0 {
        Seq::empty()
    } else if fs.len() == 1 {
        dec_str(fs[0] as nat)
    } else {
        dec_str(fs[0] as nat) + " "@ + fmts_text(fs.skip(1))
    }
}

/// One `a=key:value` line per attribute.
pub open spec fn attrs_text(attrs: Seq<(Seq<char>, Seq<char>)>) -> Seq<char>
    decreases attrs.len(),
{
    if attrs.len() == 0 {
        Seq::empty()
    } else {
        "a="@ + attrs[0].0 + ":"@ + attrs[0].1 + "\r\n"@ + attrs_text(attrs.skip(1))
    }
}

fn append_attrs(out: &mut String, attrs: &Vec<(String, String)>)
    ensures
        final(out)@ == old(out)@ + attrs_text(headers_view(attrs@)),
{
    let ghost av = headers_view(attrs@);
    let n = attrs.len();
    let mut i: usize = 0;
    proof {
        assert(av.skip(0) =~= av);
    }
    while i < n
        invariant
            n == attrs@.len(),
            av == headers_view(attrs@),
            i <= n,
            out@ + attrs_text(av.skip(i as int)) == old(out)@ + attrs_text(av),
        decreases n - i,
    {
        proof {
            assert(av.skip(i as int)[0] == av[i as int]);
            assert(av.skip(i as int).skip(1) =~= av.skip(i + 1));
        }
        out.append("a=");
        out.append(attrs[i].0.as_str());
        out.append(":");
        out.append(attrs[i].1.as_str());
        out.append("\r\n");
        proof {
            assert(out@ + attrs_text(av.skip(i + 1)) =~= old(out)@ + attrs_text(av));
        }
        i = i + 1;
    }
    proof {
        assert(attrs_text(av.skip(n as int)) =~= Seq::<char>::empty());
        assert(out@ =~= old(out)@ + attrs_text(av));
    }
}

#[derive(Debug, Clone)]
pub struct MediaInfo {
    pub media_type: String,
    pub port: usize,
    pub protocol: String,
    pub fmts: Vec<u8>,
    pub bandwidth: Option<Bandwidth>,
    pub rtpmap: RtpMap,
    pub fmtp: Option<Fmtp>,
    pub attribute: Vec<(String, String)>,
}

impl MediaInfo {
    pub open spec fn spec_text(self) -> Seq<char> {
        "m="@ + self.media_type@ + " "@ + dec_str(self.port as nat) + " "@ + self.protocol@ + " "@
            + fmts_text(self.fmts@) + "\r\n"@ + (match self.bandwidth {
            Some(b) => "b="@ + b.spec_text(),
            None => Seq::<char>::empty(),
        }) + "a=rtpmap:"@ + self.rtpmap.spec_text() + (match self.fmtp {
            Some(f) => "a=fmtp:"@ + f.spec_text(),
            None => Seq::<char>::empty(),
        }) + attrs_text(headers_view(self.attribute@))
    }

    /// The whole media section: the `m=` line, bandwidth if any, rtpmap,
    /// fmtp if any, and the other attributes.
    pub fn to_sdp_string(&self) -> (r: String)
        ensures
            r@ == self.spec_text(),
    {
        let mut out = String::new();
        out.append("m=");
        out.append(self.media_type.as_str());
        out.append(" ");
        append_dec_u64(&mut out, self.port as u64);
        out.append(" ");
        out.append(self.protocol.as_str());
        out.append(" ");
        let n = self.fmts.len();
        let mut i: usize = 0;
        let ghost mid = out@;
        proof {
            assert(self.fmts@.skip(0) =~= self.fmts@);
        }
        while i < n
            invariant
                n == self.fmts@.len(),
                i <= n,
                out@ + fmts_text(self.fmts@.skip(i as int)) == mid + fmts_text(self.fmts@),
            decreases n - i,
        {
            proof {
                assert(self.fmts@.skip(i as int)[0] == self.fmts@[i as int]);
                assert(self.fmts@.skip(i as int).skip(1) =~= self.fmts@.skip(i + 1));
            }
            append_dec_u64(&mut out, self.fmts[i] as u64);
            if i + 1 < n {
                out.append(" ");
            }
            proof {
                assert(out@ + fmts_text(self.fmts@.skip(i + 1)) =~= mid + fmts_text(self.fmts@));
            }
            i = i + 1;
        }
        proof {
            assert(fmts_text(self.fmts@.skip(n as int)) =~= Seq::<char>::empty());
            assert(out@ =~= mid + fmts_text(self.fmts@));
        }
        out.append("\r\n");
        match &self.bandwidth {
            Some(b) => {
                out.append("b=");
                let bt = b.to_sdp_string();
                out.append(bt.as_str());
            },
            None => {},
        }
        out.append("a=rtpmap:");
        let rt = self.rtpmap.to_sdp_string();
        out.append(rt.as_str());
        match &self.fmtp {
            Some(f) => {
                out.append("a=fmtp:");
                let ft = f.to_sdp_string();
                out.append(ft.as_str());
            },
            None => {},
        }
        append_attrs(&mut out, &self.attribute);
        proof {
            assert(out@ =~= self.spec_text());
        }
        out
    }
}

/// The media sections, in order.
pub open spec fn medias_text(ms: Seq<MediaInfo>) -> Seq<char>
    decreases ms.len(),
{
    if ms.len() == 0 {
        Seq::empty()
    } else {
        ms[0].spec_text() + medias_text(ms.skip(1))
    }
}

#[derive(Debug, Clone)]
pub struct SDP {
    pub version: u16,
    pub origin: String,
    pub session_name: String,
    pub connection: String,
    pub time: String,
    pub medias: Vec<MediaInfo>,
    pub attribute: Vec<(String, String)>,
}

impl SDP {
    pub open spec fn spec_text(self) -> Seq<char> {
        "v="@ + dec_str(self.version as nat) + "\r\no="@ + self.origin@ + "\r\ns="@
            + self.session_name@ + "\r\nc="@ + self.connection@ + "\r\nt="@ + self.time@ + "\r\n"@
            + attrs_text(headers_view(self.attribute@)) + medias_text(self.medias@)
    }

    /// A description with origin `- <session-id> 0 IN IP4 <ip>`, session
    /// name `seminar`, the given connection address, unbounded time, the
    /// given media sections and session attributes.
    pub fn new(
        session_id: String,
        ip: String,
        media_info: Vec<MediaInfo>,
        attribute: Option<Vec<(String, String)>>,
    ) -> (r: SDP)
        ensures
            r.version == 0,
            r.origin@ == "- "@ + session_id@ + " 0 IN IP4 "@ + ip@,
            r.session_name@ == "seminar"@,
            r.connection@ == "IN IP4 "@ + ip@,
            r.time@ == "0 0"@,
            r.medias == media_info,
            headers_view(r.attribute@) == match attribute {
                Some(a) => headers_view(a@),
                None => Seq::<(Seq<char>, Seq<char>)>::empty(),
            },
    {
        let mut origin = String::new();
        origin.append("- ");
        origin.append(session_id.as_str());
        origin.append(" 0 IN IP4 ");
        origin.append(ip.as_str());
        let mut connection = String::new();
        connection.append("IN IP4 ");
        connection.append(ip.as_str());
        let attrs = match attribute {
            Some(a) => a,
            None => Vec::new(),
        };
        proof {
            assert(headers_view(Seq::<(String, String)>::empty()) =~= Seq::<
                (Seq<char>, Seq<char>),
            >::empty());
        }
        SDP {
            version: 0,
            origin,
            session_name: String::from_str("seminar"),
            connection,
            time: String::from_str("0 0"),
            medias: media_info,
            attribute: attrs,
        }
    }

    /// The whole document: the five fixed lines, the session attributes,
    /// and the media sections.
    pub fn to_sdp_string(&self) -> (r: String)
        ensures
            r@ == self.spec_text(),
    {
        let mut out = String::new();
        out.append("v=");
        append_dec_u64(&mut out, self.version as u64);
        out.append("\r\no=");
        out.append(self.origin.as_str());
        out.append("\r\ns=");
        out.append(self.session_name.as_str());
        out.append("\r\nc=");
        out.append(self.connection.as_str());
        out.append("\r\nt=");
        out.append(self.time.as_str());
        out.append("\r\n");
        append_attrs(&mut out, &self.attribute);
        let ghost mid = out@;
        let n = self.medias.len();
        let mut i: usize = 0;
        proof {
            assert(self.medias@.skip(0) =~= self.medias@);
        }
        while i < n
            invariant
                n == self.medias@.len(),
                i <= n,
                out@ + medias_text(self.medias@.skip(i as int)) == mid + medias_text(self.medias@),
            decreases n - i,
        {
            proof {
                assert(self.medias@.skip(i as int)[0] == self.medias@[i as int]);
                assert(self.medias@.skip(i as int).skip(1) =~= self.medias@.skip(i + 1));
            }
            let mt = self.medias[i].to_sdp_string();
            out.append(mt.as_str());
            proof {
                assert(out@ + medias_text(self.medias@.skip(i + 1)) =~= mid + medias_text(
                    self.medias@,
                ));
            }
            i = i + 1;
        }
        proof {
            assert(medias_text(self.medias@.skip(n as int)) =~= Seq::<char>::empty());
            assert(out@ =~= self.spec_text());
        }
        out
    }
}

} // verus!
