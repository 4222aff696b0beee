//! H.265 RTP packetizer (RFC 7798): single-NAL mode for units of at most
//! 1400 bytes, FU fragmentation (payload type 49) for larger ones, framed
//! for the RTSP interleaved transport.

use vstd::prelude::*;

verus! {

use crate::rtp_packet::{
    RtpPacket,
    RTP_MAX_PACKET_SIZE,
    rtp_packet_bytes,
    interleaved_frame,
    emit_frame,
    push_bytes,
};
use crate::rtp_h264::{wrap16, wrap32};
use vstd::slice::slice_subrange;
use std::sync::Arc;

/// An H.265 NAL header is two bytes.
const NALU_HEADER_SIZE: usize = 2;

pub open spec fn h265_nal_type(b: u8) -> u8 {
    (b & 0x7E) >> 1u8
}

/// VPS, SPS and PPS NAL units share an access unit with the coming
/// picture, so they do not advance the timestamp.
pub open spec fn h265_is_param_set(b: u8) -> bool {
    h265_nal_type(b) == 32 || h265_nal_type(b) == 33 || h265_nal_type(b) == 34
}

/// Number of FU fragments for a NAL of `n` bytes: one per full 1400-byte
/// slice, and a trailing fragment only where the remainder exceeds the
/// two-byte NAL header.
pub open spec fn h265_frag_count(n: int) -> int {
    n / 1400 + if n % 1400 > 2 {
        1int
    } else {
        0int
    }
}

/// Number of RTP packets emitted for a NAL of `n` bytes.
pub open spec fn h265_packet_count(n: int) -> int {
    if n <= 1400 {
        1int
    } else {
        h265_frag_count(n)
    }
}

/// FU payload of fragment `i`: the payload header byte
/// `(nalu[0] & 0x81) | (49 << 1)` — the FU type 49 in bits 1 to 6 —
/// then the second NAL header byte, the FU header carrying the
/// original type with S on the first and E on the last fragment, then
/// the fragment's slice of the NAL body.
pub open spec fn h265_fragment_payload(nalu: Seq<u8>, i: int) -> Seq<u8> {
    let n = nalu.len() as int;
    let q = n / 1400;
    let c = h265_frag_count(n);
    let hi = (nalu[0] & 0x81) | 0x62;
    let lo = nalu[1];
    let fu = ((nalu[0] & 0x7E) >> 1u8) | (if i == 0 {
        0x80u8
    } else {
        0x00u8
    }) | (if i == c - 1 {
        0x40u8
    } else {
        0x00u8
    });
    let body = if i < q {
        nalu.subrange(2 + 1400 * i, 2 + 1400 * (i + 1))
    } else {
        nalu.subrange(2 + 1400 * q, n)
    };
    seq![hi, lo, fu] + body
}

/// Payload of the `i`-th RTP packet emitted for a NAL: the NAL itself in
/// single-NAL mode, a FU fragment otherwise.
pub open spec fn h265_packet_payload(nalu: Seq<u8>, i: int) -> Seq<u8> {
    if nalu.len() <= 1400 {
        nalu
    } else {
        h265_fragment_payload(nalu, i)
    }
}

/// The marker bit is set exactly on the last packet of the NAL.
pub open spec fn h265_packet_marker(n: int, i: int) -> bool {
    i == h265_packet_count(n) - 1
}

/// Concatenation of the bodies of the first `upto` FU fragments, with
/// their three-byte FU prefixes stripped.
pub open spec fn h265_reassembled(nalu: Seq<u8>, upto: int) -> Seq<u8>
    decreases upto,
{
    if upto <= 0 {
        Seq::empty()
    } else {
        h265_reassembled(nalu, upto - 1) + h265_fragment_payload(nalu, upto - 1).skip(3)
    }
}

proof fn lemma_h265_reassemble_prefix(nalu: Seq<u8>, i: int)
    requires
        nalu.len() > 1400,
        nalu.len() % 1400 >= 2,
        0 <= i <= nalu.len() as int / 1400,
    ensures
        h265_reassembled(nalu, i) == nalu.subrange(2, 2 + 1400 * i),
    decreases i,
{
    let n = nalu.len() as int;
    let q = n / 1400;
    assert(1400 * q <= n - 2) by (nonlinear_arith)
        requires
            q == n / 1400,
            n % 1400 >= 2,
            n > 1400,
    ;
    assert(1400 * i <= 1400 * q) by (nonlinear_arith)
        requires
            i <= q,
    ;
    if i <= 0 {
        assert(h265_reassembled(nalu, 0) =~= nalu.subrange(2, 2));
    } else {
        lemma_h265_reassemble_prefix(nalu, i - 1);
        assert(1400 * (i - 1) + 1400 == 1400 * i);
        let frag = h265_fragment_payload(nalu, i - 1);
        assert(frag.skip(3) =~= nalu.subrange(2 + 1400 * (i - 1), 2 + 1400 * i));
        assert(nalu.subrange(2, 2 + 1400 * (i - 1)) + nalu.subrange(2 + 1400 * (i - 1), 2 + 1400
            * i) =~= nalu.subrange(2, 2 + 1400 * i));
    }
}

/// Fragmentation discipline for an H.265 NAL that yields at least two
/// fragments: the first FU header carries `S` and not `E` and no marker,
/// the last carries `E` and the marker and not `S`, every fragment between
/// carries neither; and the fragment bodies, prefixes stripped, reassemble
/// exactly the NAL unit after its two-byte header.
pub proof fn lemma_h265_fragmentation(nalu: Seq<u8>)
    requires
        nalu.len() > 1402,
        nalu.len() % 1400 >= 2,
    ensures
        ({
            let n = nalu.len() as int;
            let c = h265_packet_count(n);
            &&& c >= 2
            &&& h265_fragment_payload(nalu, 0)[2] & 0x80 == 0x80
            &&& h265_fragment_payload(nalu, 0)[2] & 0x40 == 0x00
            &&& !h265_packet_marker(n, 0)
            &&& h265_fragment_payload(nalu, c - 1)[2] & 0x80 == 0x00
            &&& h265_fragment_payload(nalu, c - 1)[2] & 0x40 == 0x40
            &&& h265_packet_marker(n, c - 1)
            &&& forall|i: int|
                0 < i < c - 1 ==> (#[trigger] h265_fragment_payload(nalu, i))[2] & 0xC0 == 0x00
                    && !h265_packet_marker(n, i)
            &&& h265_reassembled(nalu, c) == nalu.skip(2)
            &&& h265_reassembled(nalu, c).len() == n - 2
        }),
{
    let n = nalu.len() as int;
    let q = n / 1400;
    let r = n % 1400;
    let c = h265_packet_count(n);
    let t = nalu[0];
    assert(q >= 1 && (q == 1 ==> r >= 3)) by (nonlinear_arith)
        requires
            q == n / 1400,
            r == n % 1400,
            n > 1402,
            r >= 2,
    ;
    assert(c >= 2);
    assert((((t & 0x7E) >> 1u8) | 0x80 | 0x00) & 0x80 == 0x80) by (bit_vector);
    assert((((t & 0x7E) >> 1u8) | 0x80 | 0x00) & 0x40 == 0x00) by (bit_vector);
    assert((((t & 0x7E) >> 1u8) | 0x00 | 0x40) & 0x80 == 0x00) by (bit_vector);
    assert((((t & 0x7E) >> 1u8) | 0x00 | 0x40) & 0x40 == 0x40) by (bit_vector);
    assert((((t & 0x7E) >> 1u8) | 0x00 | 0x00) & 0xC0 == 0x00) by (bit_vector);
    assert(1400 * q <= n - 2) by (nonlinear_arith)
        requires
            q == n / 1400,
            r == n % 1400,
            r >= 2,
            n > 1400,
    ;
    lemma_h265_reassemble_prefix(nalu, q);
    if r > 2 {
        assert(h265_fragment_payload(nalu, q).skip(3) =~= nalu.subrange(2 + 1400 * q, n));
        assert(nalu.subrange(2, 2 + 1400 * q) + nalu.subrange(2 + 1400 * q, n) =~= nalu.skip(2));
    } else {
        assert(1400 * q == n - 2) by (nonlinear_arith)
            requires
                q == n / 1400,
                r == n % 1400,
                r == 2,
        ;
        assert(nalu.subrange(2, 2 + 1400 * q) =~= nalu.skip(2));
    }
}


/// What `handle` asks of its caller. For a fragmented NAL the
/// remainder `len % 1400` must be at least the two-byte NAL header:
/// with a smaller remainder the partition into full 1400-byte
/// fragments would need more body bytes than the NAL holds.
pub open spec fn h265_handle_req(pre: RtpSinkH265, nalu: Seq<u8>) -> bool {
    &&& pre.wf()
    &&& nalu.len() >= 2
    &&& nalu.len() > 1400 ==> nalu.len() % 1400 >= 2
}

/// Everything `handle` guarantees: the frames emitted for the NAL and
/// the packet state carried to the next one.
pub open spec fn h265_handle_post(
    pre: RtpSinkH265,
    post: RtpSinkH265,
    nalu: Seq<u8>,
    frames: Seq<Vec<u8>>,
) -> bool {
    &&& post.wf()
    &&& frames.len() == h265_packet_count(nalu.len() as int)
    &&& forall|i: int|
        0 <= i < frames.len() ==> frames[i]@ == interleaved_frame(
            rtp_packet_bytes(
                pre.spec_payload_type(),
                h265_packet_marker(nalu.len() as int, i),
                wrap16(pre.spec_seq() + i),
                pre.spec_ts(),
                pre.spec_ssrc(),
                h265_packet_payload(nalu, i),
            ),
        )
    &&& post.spec_seq() == wrap16(pre.spec_seq() + h265_packet_count(nalu.len() as int))
    &&& post.spec_ts() == if nalu.len() <= 1400 && h265_is_param_set(nalu[0]) {
        pre.spec_ts()
    } else {
        wrap32(pre.spec_ts() + pre.ts_step())
    }
    &&& post.spec_payload_type() == pre.spec_payload_type()
    &&& post.spec_clock_rate() == pre.spec_clock_rate()
    &&& post.spec_fps() == pre.spec_fps()
    &&& post.spec_ssrc() == pre.spec_ssrc()
    &&& post.spec_filename() == pre.spec_filename()
    &&& post.spec_infinite() == pre.spec_infinite()
}

pub struct RtpSinkH265 {
    payload_type: u8,
    clock_rate: u32,
    fps: u32,
    packet: RtpPacket,
    ssrc: u32,
    filename: Arc<String>,
    infinite: bool,
}

impl RtpSinkH265 {
    pub closed spec fn spec_payload_type(self) -> u8 {
        self.payload_type
    }

    pub closed spec fn spec_clock_rate(self) -> u32 {
        self.clock_rate
    }

    pub closed spec fn spec_fps(self) -> u32 {
        self.fps
    }

    pub closed spec fn spec_ssrc(self) -> u32 {
        self.ssrc
    }

    pub closed spec fn spec_seq(self) -> u16 {
        self.packet.sequence_number
    }

    pub closed spec fn spec_ts(self) -> u32 {
        self.packet.timestamp
    }

    pub closed spec fn spec_filename(self) -> Seq<char> {
        self.filename@
    }

    pub closed spec fn spec_infinite(self) -> bool {
        self.infinite
    }

    /// Timestamp step per access unit.
    pub open spec fn ts_step(self) -> int {
        self.spec_clock_rate() as int / self.spec_fps() as int
    }

    pub closed spec fn wf(self) -> bool {
        &&& self.fps > 0
        &&& self.packet.payload@.len() == 0
        &&& !self.packet.marker
        &&& self.packet.payload_type == self.payload_type
        &&& self.packet.ssrc == self.ssrc
    }

    pub fn new(
        filename: Arc<String>,
        payload_type: u8,
        clock_rate: u32,
        fps: u32,
        ssrc: u32,
        infinite: bool,
    ) -> (r: Self)
        requires
            fps > 0,
        ensures
            r.wf(),
            r.spec_payload_type() == payload_type,
            r.spec_clock_rate() == clock_rate,
            r.spec_fps() == fps,
            r.spec_ssrc() == ssrc,
            r.spec_filename() == filename@,
            r.spec_infinite() == infinite,
            r.spec_seq() == 0,
            r.spec_ts() == 0,
    {
        let sequence_number: u16 = 0;
        let timestamp: u32 = 0;
        let packet = RtpPacket::new(payload_type, sequence_number, timestamp, ssrc, false);
        RtpSinkH265 { payload_type, clock_rate, fps, packet, ssrc, filename, infinite }
    }

    /// Packetizes one NAL unit: returns the interleaved RTP frames to be
    /// written to the transport, in order, and advances the packet state.
    #[verifier::rlimit(100)]
    pub fn handle(&mut self, nalu: &[u8]) -> (frames: Vec<Vec<u8>>)
        requires
            h265_handle_req(*old(self), nalu@),
        ensures
            h265_handle_post(*old(self), *final(self), nalu@, frames@),
    {
        let ghost seq0 = old(self).spec_seq() as int;
        let n = nalu.len();
        let mut frames: Vec<Vec<u8>> = Vec::new();
        let nalu_type: u8 = (nalu[0] & 0x7E) >> 1u8;
        if n <= RTP_MAX_PACKET_SIZE {
            let f = emit_frame(
                self.payload_type,
                true,
                self.packet.sequence_number,
                self.packet.timestamp,
                self.ssrc,
                nalu,
            );
            frames.push(f);
            self.packet.sequence_number = self.packet.sequence_number.wrapping_add(1);
            if nalu_type == 32 || nalu_type == 33 || nalu_type == 34 {
                return frames;
            }
        } else {
            let q = n / RTP_MAX_PACKET_SIZE;
            let r = n % RTP_MAX_PACKET_SIZE;
            let c = q + (if r > NALU_HEADER_SIZE {
                1usize
            } else {
                0usize
            });
            let hi: u8 = (nalu[0] & 0x81) | 0x62;
            let lo: u8 = nalu[1];
            let mut pos: usize = NALU_HEADER_SIZE;
            let mut i: usize = 0;
            proof {
                assert(1400 * (q as int) <= n as int) by (nonlinear_arith)
                    requires
                        q == n as int / 1400,
                        n as int >= 0,
                ;
            }
            while i < q
                invariant
                    old(self).wf(),
                    self.wf(),
                    nalu@.len() == n,
                    n > 1400,
                    n % 1400 >= 2,
                    q == n as int / 1400,
                    r == n as int % 1400,
                    c == h265_frag_count(n as int),
                    1400 * (q as int) <= n as int,
                    hi == (nalu@[0] & 0x81) | 0x62,
                    lo == nalu@[1],
                    nalu_type == (nalu@[0] & 0x7E) >> 1u8,
                    i <= q,
                    pos == 2 + 1400 * i,
                    seq0 == old(self).spec_seq() as int,
                    self.packet.sequence_number == wrap16(seq0 + i),
                    self.packet.timestamp == old(self).spec_ts(),
                    self.payload_type == old(self).spec_payload_type(),
                    self.clock_rate == old(self).spec_clock_rate(),
                    self.fps == old(self).spec_fps(),
                    self.ssrc == old(self).spec_ssrc(),
                    self.filename@ == old(self).spec_filename(),
                    self.infinite == old(self).spec_infinite(),
                    frames@.len() == i,
                    forall|k: int|
                        0 <= k < i ==> frames@[k]@ == interleaved_frame(
                            rtp_packet_bytes(
                                old(self).spec_payload_type(),
                                h265_packet_marker(n as int, k),
                                wrap16(seq0 + k),
                                old(self).spec_ts(),
                                old(self).spec_ssrc(),
                                h265_packet_payload(nalu@, k),
                            ),
                        ),
                decreases q - i,
            {
                let s_bit: u8 = if i == 0 {
                    0x80u8
                } else {
                    0x00u8
                };
                let e_bit: u8 = if i == c - 1 {
                    0x40u8
                } else {
                    0x00u8
                };
                let fu: u8 = nalu_type | s_bit | e_bit;
                let marker = i == c - 1;
                let mut payload: Vec<u8> = Vec::new();
                payload.push(hi);
                payload.push(lo);
                payload.push(fu);
                proof {
                    assert(pos + 1400 <= n as int) by (nonlinear_arith)
                        requires
                            pos == 2 + 1400 * (i as int),
                            i < q,
                            q == n as int / 1400,
                            n as int % 1400 >= 2,
                            n as int >= 0,
                    ;
                }
                let body = slice_subrange(nalu, pos, pos + RTP_MAX_PACKET_SIZE);
                push_bytes(&mut payload, body);
                proof {
                    assert(payload@ =~= h265_fragment_payload(nalu@, i as int));
                }
                let f = emit_frame(
                    self.payload_type,
                    marker,
                    self.packet.sequence_number,
                    self.packet.timestamp,
                    self.ssrc,
                    payload.as_slice(),
                );
                frames.push(f);
                self.packet.sequence_number = self.packet.sequence_number.wrapping_add(1);
                pos = pos + RTP_MAX_PACKET_SIZE;
                i = i + 1;
            }
            if r > NALU_HEADER_SIZE {
                let fu: u8 = nalu_type | 0x00 | 0x40;
                let mut payload: Vec<u8> = Vec::new();
                payload.push(hi);
                payload.push(lo);
                payload.push(fu);
                proof {
                    assert(pos + (r - 2) == n as int) by (nonlinear_arith)
                        requires
                            pos == 2 + 1400 * (q as int),
                            q == n as int / 1400,
                            r == n as int % 1400,
                            n as int >= 0,
                    ;
                    assert(q >= 1) by (nonlinear_arith)
                        requires
                            q == n as int / 1400,
                            n as int > 1400,
                    ;
                    assert(c - 1 == q && c - 1 != 0);
                }
                let body = slice_subrange(nalu, pos, pos + (r - NALU_HEADER_SIZE));
                push_bytes(&mut payload, body);
                proof {
                    assert(payload@ =~= h265_fragment_payload(nalu@, c - 1));
                }
                let f = emit_frame(
                    self.payload_type,
                    true,
                    self.packet.sequence_number,
                    self.packet.timestamp,
                    self.ssrc,
                    payload.as_slice(),
                );
                frames.push(f);
                self.packet.sequence_number = self.packet.sequence_number.wrapping_add(1);
            }
        }
        let step = self.clock_rate / self.fps;
        self.packet.timestamp = self.packet.timestamp.wrapping_add(step);
        frames
    }
}

} // verus!
