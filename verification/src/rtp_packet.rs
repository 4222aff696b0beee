//! RTP packet layout: a fixed 12-byte header followed by the payload,
//! serialized in network byte order.

use vstd::prelude::*;

verus! {

/// Largest NAL unit carried in a single RTP packet; larger ones are fragmented.
pub const RTP_MAX_PACKET_SIZE: usize = 1400;

/// Big-endian bytes of a 16-bit value.
pub open spec fn be16(x: u16) -> Seq<u8> {
    seq![(x / 256) as u8, (x % 256) as u8]
}

/// Big-endian bytes of a 32-bit value.
pub open spec fn be32(x: u32) -> Seq<u8> {
    seq![
        (x / 0x100_0000) as u8,
        ((x / 0x1_0000) % 256) as u8,
        ((x / 256) % 256) as u8,
        (x % 256) as u8,
    ]
}

/// The wire form of an RTP packet: `V=2, P=0, X=0, CC=0`, then the marker
/// bit and payload type, sequence number, timestamp, SSRC, payload.
pub open spec fn rtp_packet_bytes(
    payload_type: u8,
    marker: bool,
    sequence_number: u16,
    timestamp: u32,
    ssrc: u32,
    payload: Seq<u8>,
) -> Seq<u8> {
    seq![
        0x80u8,
        (if marker {
            0x80u8
        } else {
            0x00u8
        }) | payload_type,
    ] + be16(sequence_number) + be32(timestamp) + be32(ssrc) + payload
}

pub struct RtpPacket {
    pub marker: bool,
    pub payload_type: u8,
    pub sequence_number: u16,
    pub timestamp: u32,
    pub ssrc: u32,
    pub payload: Vec<u8>,
}

impl RtpPacket {
    pub open spec fn spec_bytes(self) -> Seq<u8> {
        rtp_packet_bytes(
            self.payload_type,
            self.marker,
            self.sequence_number,
            self.timestamp,
            self.ssrc,
            self.payload@,
        )
    }

    pub fn new(
        payload_type: u8,
        sequence_number: u16,
        timestamp: u32,
        ssrc: u32,
        marker: bool,
    ) -> (r: RtpPacket)
        ensures
            r.payload_type == payload_type,
            r.sequence_number == sequence_number,
            r.timestamp == timestamp,
            r.ssrc == ssrc,
            r.marker == marker,
            r.payload@ == Seq::<u8>::empty(),
    {
        RtpPacket {
            marker,
            payload_type,
            sequence_number,
            timestamp,
            ssrc,
            payload: Vec::new(),
        }
    }

    pub fn to_bytes(&self) -> (r: Vec<u8>)
        ensures
            r@ == self.spec_bytes(),
            r@.len() == 12 + self.payload@.len(),
    {
        let mut bytes: Vec<u8> = Vec::new();
        bytes.push(0x80u8);
        let second: u8 = (if self.marker {
            0x80u8
        } else {
            0x00u8
        }) | self.payload_type;
        bytes.push(second);
        push_be16(&mut bytes, self.sequence_number);
        push_be32(&mut bytes, self.timestamp);
        push_be32(&mut bytes, self.ssrc);
        push_bytes(&mut bytes, self.payload.as_slice());
        proof {
            assert(bytes@ =~= self.spec_bytes());
        }
        bytes
    }
}

/// RTSP interleaved framing: `$`, channel 0, and the 16-bit length of the
/// RTP packet that follows.
pub open spec fn interleaved_frame(p: Seq<u8>) -> Seq<u8> {
    seq![0x24u8, 0u8, (p.len() as int / 256) as u8, (p.len() as int % 256) as u8] + p
}

/// Builds one interleaved frame holding one RTP packet.
pub fn emit_frame(
    payload_type: u8,
    marker: bool,
    sequence_number: u16,
    timestamp: u32,
    ssrc: u32,
    payload: &[u8],
) -> (r: Vec<u8>)
    requires
        payload@.len() + 12 < 65536,
    ensures
        r@ == interleaved_frame(
            rtp_packet_bytes(payload_type, marker, sequence_number, timestamp, ssrc, payload@),
        ),
{
    let len: usize = payload.len() + 12;
    let mut out: Vec<u8> = Vec::new();
    out.push(0x24u8);
    out.push(0u8);
    out.push((len / 256) as u8);
    out.push((len % 256) as u8);
    out.push(0x80u8);
    out.push(
        (if marker {
            0x80u8
        } else {
            0x00u8
        }) | payload_type,
    );
    push_be16(&mut out, sequence_number);
    push_be32(&mut out, timestamp);
    push_be32(&mut out, ssrc);
    push_bytes(&mut out, payload);
    proof {
        assert(out@ =~= interleaved_frame(
            rtp_packet_bytes(payload_type, marker, sequence_number, timestamp, ssrc, payload@),
        ));
    }
    out
}

/// Appends all of `src` to `dst`.
pub fn push_bytes(dst: &mut Vec<u8>, src: &[u8])
    ensures
        final(dst)@ == old(dst)@ + src@,
{
    let mut j: usize = 0;
    while j < src.len()
        invariant
            j <= src.len(),
            dst@ == old(dst)@ + src@.subrange(0, j as int),
        decreases src.len() - j,
    {
        dst.push(src[j]);
        proof {
            assert(old(dst)@ + src@.subrange(0, j + 1) =~= (old(dst)@ + src@.subrange(
                0,
                j as int,
            )).push(src@[j as int]));
        }
        j = j + 1;
    }
    proof {
        assert(src@.subrange(0, src@.len() as int) =~= src@);
    }
}

/// Appends a 16-bit value, big-endian.
pub fn push_be16(dst: &mut Vec<u8>, x: u16)
    ensures
        final(dst)@ == old(dst)@ + be16(x),
{
    dst.push((x / 256) as u8);
    dst.push((x % 256) as u8);
    proof {
        assert(dst@ =~= old(dst)@ + be16(x));
    }
}

/// Appends a 32-bit value, big-endian.
pub fn push_be32(dst: &mut Vec<u8>, x: u32)
    ensures
        final(dst)@ == old(dst)@ + be32(x),
{
    dst.push((x / 0x100_0000) as u8);
    dst.push(((x / 0x1_0000) % 256) as u8);
    dst.push(((x / 256) % 256) as u8);
    dst.push((x % 256) as u8);
    proof {
        assert(dst@ =~= old(dst)@ + be32(x));
    }
}

} // verus!
