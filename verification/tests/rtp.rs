use std::sync::Arc;
use rtsp_server::rtp_packet::RtpPacket;
use rtsp_server::rtp_h264::RtpSinkH264;
use rtsp_server::rtp_h265::RtpSinkH265;

fn file_name() -> Arc<String> {
    Arc::new(String::from("stream.h264"))
}

#[test]
fn test_rtp_packet_to_bytes() {
    let mut p = RtpPacket::new(96, 0x0102, 0x01020304, 0x00BC614E, true);
    p.payload.push(0xAA);
    p.payload.push(0xBB);
    let bytes = p.to_bytes();
    assert_eq!(
        bytes,
        vec![0x80, 0xE0, 0x01, 0x02, 0x01, 0x02, 0x03, 0x04, 0x00, 0xBC, 0x61, 0x4E, 0xAA, 0xBB]
    );
}

#[test]
fn test_single_nal_frame() {
    let mut sink = RtpSinkH264::new(file_name(), 96, 90000, 25, 12345678, true);
    assert_eq!(sink.ssrc(), 12345678);
    // a 20-byte SPS: one packet, marker set, interleaved length 32
    let mut nalu = vec![0x67u8];
    for i in 0..19u8 {
        nalu.push(i);
    }
    let frames = sink.handle(&nalu);
    assert_eq!(frames.len(), 1);
    let f = &frames[0];
    assert_eq!(&f[0..4], &[0x24, 0x00, 0x00, 0x20]);
    assert_eq!(f[4], 0x80);
    assert_eq!(f[5], 0x80 | 96); // marker and payload type
    assert_eq!(&f[6..8], &[0, 0]); // sequence 0
    assert_eq!(&f[8..12], &[0, 0, 0, 0]); // timestamp 0
    assert_eq!(&f[12..16], &[0x00, 0xBC, 0x61, 0x4E]);
    assert_eq!(&f[16..], &nalu[..]);

    // an SPS does not advance the timestamp, but does take a sequence number
    let frames2 = sink.handle(&nalu);
    let f2 = &frames2[0];
    assert_eq!(&f2[6..8], &[0, 1]);
    assert_eq!(&f2[8..12], &[0, 0, 0, 0]);
}

#[test]
fn test_fu_a_fragmentation() {
    let mut sink = RtpSinkH264::new(file_name(), 96, 90000, 25, 12345678, true);
    // a 3000-byte IDR: two full fragments and a 199-byte trailing one
    let mut nalu = vec![0x65u8];
    for i in 0..2999u32 {
        nalu.push((i % 251) as u8);
    }
    let frames = sink.handle(&nalu);
    assert_eq!(frames.len(), 3);

    // FU indicator keeps F/NRI and sets type 28
    let ind = (0x65 & 0xE0) | 28;
    assert_eq!(ind, 0x7C);

    // first: S=1, E=0, no marker
    assert_eq!(frames[0][16], 0x7C);
    assert_eq!(frames[0][17], 0x85);
    assert_eq!(frames[0][5], 96);
    // middle: S=0, E=0, no marker
    assert_eq!(frames[1][16], 0x7C);
    assert_eq!(frames[1][17], 0x05);
    assert_eq!(frames[1][5], 96);
    // last: S=0, E=1, marker
    assert_eq!(frames[2][16], 0x7C);
    assert_eq!(frames[2][17], 0x45);
    assert_eq!(frames[2][5], 0x80 | 96);

    // sequence numbers strictly increase
    assert_eq!(&frames[0][6..8], &[0, 0]);
    assert_eq!(&frames[1][6..8], &[0, 1]);
    assert_eq!(&frames[2][6..8], &[0, 2]);

    // the fragment bodies reassemble the NAL unit after its header
    let mut rebuilt: Vec<u8> = Vec::new();
    for f in &frames {
        rebuilt.extend_from_slice(&f[18..]);
    }
    assert_eq!(rebuilt.len(), nalu.len() - 1);
    assert_eq!(&rebuilt[..], &nalu[1..]);
}

#[test]
fn test_timestamp_advances_once_per_picture() {
    let mut sink = RtpSinkH264::new(file_name(), 96, 90000, 25, 12345678, true);
    let mut idr = vec![0x65u8];
    for _ in 0..2999u32 {
        idr.push(7);
    }
    let frames = sink.handle(&idr);
    // all fragments of one access unit carry the same timestamp
    for f in &frames {
        assert_eq!(&f[8..12], &[0, 0, 0, 0]);
    }
    // the next picture's timestamp moved by 90000 / 25 = 3600
    let slice = vec![0x41u8, 1, 2, 3];
    let frames2 = sink.handle(&slice);
    assert_eq!(&frames2[0][8..12], &[0x00, 0x00, 0x0E, 0x10]);
}

#[test]
fn test_h265_frames() {
    let mut sink = RtpSinkH265::new(file_name(), 96, 90000, 25, 12345678, true);
    // a VPS (type 32): single packet, timestamp not advanced
    let vps = vec![0x40u8, 0x01, 0x0C];
    let frames = sink.handle(&vps);
    assert_eq!(frames.len(), 1);
    assert_eq!(frames[0][5], 0x80 | 96);
    assert_eq!(&frames[0][16..], &vps[..]);

    // a large type-1 NAL: FU fragments with payload header type 49
    let mut nalu = vec![0x02u8, 0x01];
    for i in 0..3000u32 {
        nalu.push((i % 249) as u8);
    }
    let frames2 = sink.handle(&nalu);
    assert_eq!(frames2.len(), 3);
    // timestamp still 0: the VPS did not advance it
    assert_eq!(&frames2[0][8..12], &[0, 0, 0, 0]);
    let hi = (0x02 & 0x81) | (49 << 1);
    assert_eq!(frames2[0][16], hi);
    assert_eq!(frames2[0][17], 0x01);
    assert_eq!(frames2[0][18], 0x80 | 1); // S with the original type
    assert_eq!(frames2[2][18], 0x40 | 1); // E on the last
    assert_eq!(frames2[2][5], 0x80 | 96);

    let mut rebuilt: Vec<u8> = Vec::new();
    for f in &frames2 {
        rebuilt.extend_from_slice(&f[19..]);
    }
    assert_eq!(&rebuilt[..], &nalu[2..]);
}
