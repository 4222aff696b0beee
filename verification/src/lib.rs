//! A verified RTSP 1.0 streaming server core: Annex-B NAL unit
//! scanning, Exp-Golomb and SPS decoding, H.264 and H.265 RTP
//! packetization over the interleaved transport, SDP composition, RTSP
//! message parsing and serialization, Basic and Digest authentication,
//! and the per-session routing that ties them together.

pub mod bitstream;
pub mod rtp_packet;
pub mod rtp_h264;
pub mod rtp_h265;
pub mod parse;
pub mod h264_sps;
pub mod strutil;
pub mod request;
pub mod response;
pub mod sdp;
pub mod auth;
pub mod session;
pub mod handler;
pub mod router;
