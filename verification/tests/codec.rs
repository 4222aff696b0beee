use rtsp_server::bitstream::BitStream;
use rtsp_server::h264_sps::Sps;
use rtsp_server::parse::{find_nalu, H264ParamScan, H265ParamScan, ParameterSet};

#[test]
fn it_works() {
    let bytes = bytes::Bytes::from_static(&[0x10, 0x42, 0x30, 0xd0]);
    let mut bs = BitStream::new(bytes);
    assert_eq!(bs.read_byte(), 0x10);
    assert_eq!(bs.read_u1().unwrap(), 0);
    assert_eq!(bs.read_u1().unwrap(), 0);
    assert_eq!(bs.read_u1().unwrap(), 0);
    assert_eq!(bs.read_u1().unwrap(), 1);
    assert_eq!(bs.read_u1().unwrap(), 0);
    assert_eq!(bs.read_u1().unwrap(), 0);
    assert_eq!(bs.read_u1().unwrap(), 0);
    assert_eq!(bs.read_u1().unwrap(), 0);

    assert_eq!(bs.read_byte(), 0x42);
    assert_eq!(bs.read_u1().unwrap(), 0);
    assert_eq!(bs.read_u1().unwrap(), 1);
    assert_eq!(bs.read_u1().unwrap(), 0);
    assert_eq!(bs.read_u1().unwrap(), 0);
    assert_eq!(bs.read_u1().unwrap(), 0);
    assert_eq!(bs.read_u1().unwrap(), 0);
    assert_eq!(bs.read_u1().unwrap(), 1);
    assert_eq!(bs.read_u1().unwrap(), 0);

    assert_eq!(bs.read_byte(), 0x30);
    assert_eq!(bs.read_ue().unwrap(), 0x5);

    // the remaining bits are 000 1101 0000: the unsigned code is 12,
    // whose signed value is -6
    assert_eq!(bs.read_se().unwrap(), -6);
}

#[test]
fn test_exp_golomb_values() {
    // 0x30 = 0011 0000 encodes 5
    let mut bs = BitStream::new(bytes::Bytes::from_static(&[0x30]));
    assert_eq!(bs.read_ue().unwrap(), 5);

    // 0x38 = 0011 1000 encodes 6
    let mut bs = BitStream::new(bytes::Bytes::from_static(&[0x38]));
    assert_eq!(bs.read_ue().unwrap(), 6);

    // 0x28 = 0010 1000 encodes 4, whose signed value is -2
    let mut bs = BitStream::new(bytes::Bytes::from_static(&[0x28]));
    assert_eq!(bs.read_se().unwrap(), -2);
}

#[test]
fn test_read_u_msb_first() {
    let mut bs = BitStream::new(bytes::Bytes::from_static(&[0xA5, 0x3C]));
    assert_eq!(bs.read_u(8).unwrap(), 0xA5);
    assert_eq!(bs.read_u(4).unwrap(), 0x3);
    assert_eq!(bs.read_u(4).unwrap(), 0xC);
    assert!(bs.read_u(1).is_none());
}

#[test]
fn test_read_ue_underrun() {
    // all zero bits: no one bit ever comes
    let mut bs = BitStream::new(bytes::Bytes::from_static(&[0x00]));
    assert!(bs.read_ue().is_none());
}

#[test]
fn test_find_nalu_basic() {
    let data: &[u8] = &[0, 0, 1, 0x67, 1, 2, 3, 0, 0, 1, 0x68, 9, 9, 9, 9];
    let nalu = find_nalu(data).unwrap();
    assert_eq!(nalu, &[0x67, 1, 2, 3]);
}

#[test]
fn test_find_nalu_four_byte_start_code() {
    let data: &[u8] = &[0, 0, 0, 1, 0x41, 5, 6, 7, 8, 9];
    let nalu = find_nalu(data).unwrap();
    // no start code follows, so the NAL runs to the end of the chunk
    assert_eq!(nalu, &[0x41, 5, 6, 7, 8, 9]);
}

#[test]
fn test_find_nalu_trailing_start_code() {
    // a start code in the last three bytes is still recognized
    let data: &[u8] = &[9, 9, 0, 0, 1];
    let nalu = find_nalu(data).unwrap();
    assert_eq!(nalu, &[] as &[u8]);
    // and one ending a NAL bounds it
    let data2: &[u8] = &[0, 0, 1, 0x41, 7, 0, 0, 1];
    assert_eq!(find_nalu(data2).unwrap(), &[0x41, 7]);
}

#[test]
fn test_find_nalu_none() {
    assert!(find_nalu(&[0, 1, 2, 3, 4, 5]).is_none());
    assert!(find_nalu(&[]).is_none());
}

#[test]
fn test_sps_parse_dimensions() {
    // baseline profile, level 30, 40x30 macroblocks, no cropping
    let sps_payload: &[u8] = &[0x42, 0x00, 0x1e, 0xf8, 0x14, 0x07, 0xb0];
    let mut bs = BitStream::new(bytes::Bytes::copy_from_slice(sps_payload));
    let sps = Sps::parse(&mut bs).unwrap();
    assert_eq!(sps.profile_idc, 66);
    assert_eq!(sps.level_idc, 30);
    assert_eq!(sps.pic_width_in_mbs_minus1, 39);
    assert_eq!(sps.pic_height_in_map_units_minus1, 29);
    assert_eq!(sps.frame_mbs_only_flag, 1);
    let (w, h) = sps.parse_width_height();
    assert_eq!((w, h), (640, 480));
}

#[test]
fn test_sps_parse_underrun() {
    let mut bs = BitStream::new(bytes::Bytes::from_static(&[0x42]));
    assert!(Sps::parse(&mut bs).is_none());
}

#[test]
fn test_h264_param_scan() {
    let mut scan = H264ParamScan::new();
    assert!(!scan.complete());
    scan.feed(&[0x65, 1, 2]);
    assert!(!scan.complete());
    scan.feed(&[0x67, 0x42, 0x00, 0x1e]);
    scan.feed(&[0x68, 0xee]);
    assert!(scan.complete());
    match scan.finish() {
        ParameterSet::H264 { sps, pps } => {
            assert_eq!(sps, vec![0x67, 0x42, 0x00, 0x1e]);
            assert_eq!(pps, vec![0x68, 0xee]);
        },
        _ => panic!("expected an H264 parameter set"),
    }
}

#[test]
fn test_h264_param_scan_incomplete() {
    let mut scan = H264ParamScan::new();
    scan.feed(&[0x67, 0x42]);
    assert!(!scan.complete());
    match scan.finish() {
        ParameterSet::Other => {},
        _ => panic!("expected Other"),
    }
}

#[test]
fn test_h265_param_scan() {
    let mut scan = H265ParamScan::new();
    scan.feed(&[0x40, 0x01, 1]); // type 32: VPS
    scan.feed(&[0x42, 0x01, 2]); // type 33: SPS
    scan.feed(&[0x44, 0x01, 3]); // type 34: PPS
    assert!(scan.complete());
    match scan.finish() {
        ParameterSet::H265 { vps, sps, pps } => {
            assert_eq!(vps, vec![0x40, 0x01, 1]);
            assert_eq!(sps, vec![0x42, 0x01, 2]);
            assert_eq!(pps, vec![0x44, 0x01, 3]);
        },
        _ => panic!("expected an H265 parameter set"),
    }
}
