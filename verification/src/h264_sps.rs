//! H.264 sequence parameter set decoding (ITU-T H.264 section 7.3.2.1),
//! for the fields that the SDP description and the picture dimensions
//! need. Scaling-list payloads are not decoded; only their presence
//! flags are consumed.

use vstd::prelude::*;

verus! {

use crate::bitstream::{BitStream, bits_val, ue_parse, se_val};
use vstd::arithmetic::power2::lemma2_to64;

/// Ghost mirror of a decoded SPS, with sequences for the two list fields.
pub ghost struct SpsModel {
    pub profile_idc: u8,
    pub flag: u8,
    pub level_idc: u8,
    pub seq_parameter_set_id: u32,
    pub chroma_format_idc: u32,
    pub separate_colour_plane_flag: u8,
    pub bit_depth_luma_minus8: u32,
    pub bit_depth_chroma_minus8: u32,
    pub qpprime_y_zero_transform_bypass_flag: u8,
    pub seq_scaling_matrix_present_flag: u8,
    pub seq_scaling_list_present_flag: Seq<u8>,
    pub log2_max_frame_num_minus4: u32,
    pub pic_order_cnt_type: u32,
    pub log2_max_pic_order_cnt_lsb_minus4: u32,
    pub delta_pic_order_always_zero_flag: u8,
    pub offset_for_non_ref_pic: i32,
    pub offset_for_top_to_bottom_field: i32,
    pub num_ref_frames_in_pic_order_cnt_cycle: u32,
    pub offset_for_ref_frame: Seq<i32>,
    pub max_num_ref_frames: u32,
    pub gaps_in_frame_num_value_allowed_flag: u8,
    pub pic_width_in_mbs_minus1: u32,
    pub pic_height_in_map_units_minus1: u32,
    pub frame_mbs_only_flag: u8,
    pub mb_adaptive_frame_field_flag: u8,
    pub direct_8x8_inference_flag: u8,
    pub frame_cropping_flag: u8,
    pub frame_crop_left_offset: u32,
    pub frame_crop_right_offset: u32,
    pub frame_crop_top_offset: u32,
    pub frame_crop_bottom_offset: u32,
    pub vui_parameters_present_flag: u8,
}

pub open spec fn sps_model_default() -> SpsModel {
    SpsModel {
        profile_idc: 0,
        flag: 0,
        level_idc: 0,
        seq_parameter_set_id: 0,
        chroma_format_idc: 0,
        separate_colour_plane_flag: 0,
        bit_depth_luma_minus8: 0,
        bit_depth_chroma_minus8: 0,
        qpprime_y_zero_transform_bypass_flag: 0,
        seq_scaling_matrix_present_flag: 0,
        seq_scaling_list_present_flag: Seq::empty(),
        log2_max_frame_num_minus4: 0,
        pic_order_cnt_type: 0,
        log2_max_pic_order_cnt_lsb_minus4: 0,
        delta_pic_order_always_zero_flag: 0,
        offset_for_non_ref_pic: 0,
        offset_for_top_to_bottom_field: 0,
        num_ref_frames_in_pic_order_cnt_cycle: 0,
        offset_for_ref_frame: Seq::empty(),
        max_num_ref_frames: 0,
        gaps_in_frame_num_value_allowed_flag: 0,
        pic_width_in_mbs_minus1: 0,
        pic_height_in_map_units_minus1: 0,
        frame_mbs_only_flag: 0,
        mb_adaptive_frame_field_flag: 0,
        direct_8x8_inference_flag: 0,
        frame_cropping_flag: 0,
        frame_crop_left_offset: 0,
        frame_crop_right_offset: 0,
        frame_crop_top_offset: 0,
        frame_crop_bottom_offset: 0,
        vui_parameters_present_flag: 0,
    }
}

/// One bit read at position `p`.
pub open spec fn s_u1p(bits: Seq<bool>, p: int) -> Option<(u8, int)> {
    if 0 <= p < bits.len() {
        Some(
            (
                if bits[p] {
                    1u8
                } else {
                    0u8
                },
                p + 1,
            ),
        )
    } else {
        None
    }
}

/// Eight bits read at position `p`, MSB first.
pub open spec fn s_u8p(bits: Seq<bool>, p: int) -> Option<(u8, int)> {
    if 0 <= p && p + 8 <= bits.len() {
        Some((bits_val(bits.subrange(p, p + 8)) as u8, p + 8))
    } else {
        None
    }
}

/// One unsigned Exp-Golomb code read at position `p`.
pub open spec fn s_uep(bits: Seq<bool>, p: int) -> Option<(u32, int)> {
    if 0 <= p <= bits.len() {
        match ue_parse(bits.skip(p)) {
            None => None,
            Some((v, c)) => Some((v, p + c)),
        }
    } else {
        None
    }
}

/// One signed Exp-Golomb code read at position `p`.
pub open spec fn s_sep(bits: Seq<bool>, p: int) -> Option<(i32, int)> {
    match s_uep(bits, p) {
        None => None,
        Some((v, p2)) => Some((se_val(v) as i32, p2)),
    }
}

/// `cnt` single-bit flags read at position `p`.
pub open spec fn s_flagsp(bits: Seq<bool>, p: int, cnt: int) -> Option<(Seq<u8>, int)>
    decreases cnt,
{
    if cnt <= 0 {
        Some((Seq::empty(), p))
    } else {
        match s_u1p(bits, p) {
            None => None,
            Some((b, p2)) => match s_flagsp(bits, p2, cnt - 1) {
                None => None,
                Some((rest, p3)) => Some((seq![b] + rest, p3)),
            },
        }
    }
}

/// `cnt` signed Exp-Golomb codes read at position `p`.
pub open spec fn s_sesp(bits: Seq<bool>, p: int, cnt: int) -> Option<(Seq<i32>, int)>
    decreases cnt,
{
    if cnt <= 0 {
        Some((Seq::empty(), p))
    } else {
        match s_sep(bits, p) {
            None => None,
            Some((v, p2)) => match s_sesp(bits, p2, cnt - 1) {
                None => None,
                Some((rest, p3)) => Some((seq![v] + rest, p3)),
            },
        }
    }
}

/// Profiles whose SPS carries the chroma format and bit-depth block.
pub open spec fn is_high_profile(profile_idc: u8) -> bool {
    profile_idc == 100 || profile_idc == 110 || profile_idc == 122 || profile_idc == 244
        || profile_idc == 44 || profile_idc == 83 || profile_idc == 86 || profile_idc == 118
        || profile_idc == 128
}

/// The chroma/bit-depth/scaling-presence block, read only for the high
/// profiles; eight presence flags, or twelve when `chroma_format_idc` is 3.
pub open spec fn s_chroma(bits: Seq<bool>, p: int, profile_idc: u8, m: SpsModel) -> Option<
    (SpsModel, int),
> {
    if !is_high_profile(profile_idc) {
        Some((m, p))
    } else {
        match s_uep(bits, p) {
            None => None,
            Some((cf, p1)) => {
                let sep_r = if cf == 3 {
                    s_u1p(bits, p1)
                } else {
                    Some((0u8, p1))
                };
                match sep_r {
                    None => None,
                    Some((sep, p2)) => match s_uep(bits, p2) {
                        None => None,
                        Some((bdl, p3)) => match s_uep(bits, p3) {
                            None => None,
                            Some((bdc, p4)) => match s_u1p(bits, p4) {
                                None => None,
                                Some((qp, p5)) => match s_u1p(bits, p5) {
                                    None => None,
                                    Some((smp, p6)) => {
                                        let cnt = if smp > 0 {
                                            if cf != 3 {
                                                8int
                                            } else {
                                                12int
                                            }
                                        } else {
                                            0int
                                        };
                                        match s_flagsp(bits, p6, cnt) {
                                            None => None,
                                            Some((flags, p7)) => Some(
                                                (
                                                    SpsModel {
                                                        chroma_format_idc: cf,
                                                        separate_colour_plane_flag: sep,
                                                        bit_depth_luma_minus8: bdl,
                                                        bit_depth_chroma_minus8: bdc,
                                                        qpprime_y_zero_transform_bypass_flag: qp,
                                                        seq_scaling_matrix_present_flag: smp,
                                                        seq_scaling_list_present_flag: flags,
                                                        ..m
                                                    },
                                                    p7,
                                                ),
                                            ),
                                        }
                                    },
                                },
                            },
                        },
                    },
                }
            },
        }
    }
}

/// The picture-order-count block for types 0 and 1.
pub open spec fn s_poc(bits: Seq<bool>, p: int, poc_type: u32, m: SpsModel) -> Option<
    (SpsModel, int),
> {
    if poc_type == 0 {
        match s_uep(bits, p) {
            None => None,
            Some((lsb, p1)) => Some((SpsModel { log2_max_pic_order_cnt_lsb_minus4: lsb, ..m }, p1)),
        }
    } else if poc_type == 1 {
        match s_u1p(bits, p) {
            None => None,
            Some((dz, p1)) => match s_sep(bits, p1) {
                None => None,
                Some((onr, p2)) => match s_sep(bits, p2) {
                    None => None,
                    Some((ott, p3)) => match s_uep(bits, p3) {
                        None => None,
                        Some((cnt, p4)) => match s_sesp(bits, p4, cnt as int) {
                            None => None,
                            Some((offs, p5)) => Some(
                                (
                                    SpsModel {
                                        delta_pic_order_always_zero_flag: dz,
                                        offset_for_non_ref_pic: onr,
                                        offset_for_top_to_bottom_field: ott,
                                        num_ref_frames_in_pic_order_cnt_cycle: cnt,
                                        offset_for_ref_frame: offs,
                                        ..m
                                    },
                                    p5,
                                ),
                            ),
                        },
                    },
                },
            },
        }
    } else {
        Some((m, p))
    }
}

/// The frame-cropping block, read only when the cropping flag is set.
pub open spec fn s_crop(bits: Seq<bool>, p: int, cropping: u8, m: SpsModel) -> Option<
    (SpsModel, int),
> {
    if cropping == 0 {
        Some((m, p))
    } else {
        match s_uep(bits, p) {
            None => None,
            Some((l, p1)) => match s_uep(bits, p1) {
                None => None,
                Some((r, p2)) => match s_uep(bits, p2) {
                    None => None,
                    Some((t, p3)) => match s_uep(bits, p3) {
                        None => None,
                        Some((b, p4)) => Some(
                            (
                                SpsModel {
                                    frame_crop_left_offset: l,
                                    frame_crop_right_offset: r,
                                    frame_crop_top_offset: t,
                                    frame_crop_bottom_offset: b,
                                    ..m
                                },
                                p4,
                            ),
                        ),
                    },
                },
            },
        }
    }
}

/// The whole SPS grammar, from position `p`: the value decoded and the
/// position after it, or `None` on buffer underrun.
pub open spec fn sps_parse(bits: Seq<bool>, p: int) -> Option<(SpsModel, int)> {
    match s_u8p(bits, p) {
        None => None,
        Some((profile, p1)) => match s_u8p(bits, p1) {
            None => None,
            Some((flag, p2)) => match s_u8p(bits, p2) {
                None => None,
                Some((level, p3)) => match s_uep(bits, p3) {
                    None => None,
                    Some((spsid, p4)) => {
                        let m4 = SpsModel {
                            profile_idc: profile,
                            flag: flag,
                            level_idc: level,
                            seq_parameter_set_id: spsid,
                            ..sps_model_default()
                        };
                        match s_chroma(bits, p4, profile, m4) {
                            None => None,
                            Some((m5, p5)) => match s_uep(bits, p5) {
                                None => None,
                                Some((l2m, p6)) => match s_uep(bits, p6) {
                                    None => None,
                                    Some((poct, p7)) => {
                                        let m7 = SpsModel {
                                            log2_max_frame_num_minus4: l2m,
                                            pic_order_cnt_type: poct,
                                            ..m5
                                        };
                                        match s_poc(bits, p7, poct, m7) {
                                            None => None,
                                            Some((m8, p8)) => sps_parse_tail(bits, p8, m8),
                                        }
                                    },
                                },
                            },
                        }
                    },
                },
            },
        },
    }
}

/// The SPS fields after the picture-order-count block.
pub open spec fn sps_parse_tail(bits: Seq<bool>, p: int, m: SpsModel) -> Option<(SpsModel, int)> {
    match s_uep(bits, p) {
        None => None,
        Some((mnrf, p1)) => match s_u1p(bits, p1) {
            None => None,
            Some((gaps, p2)) => match s_uep(bits, p2) {
                None => None,
                Some((pw, p3)) => match s_uep(bits, p3) {
                    None => None,
                    Some((ph, p4)) => match s_u1p(bits, p4) {
                        None => None,
                        Some((fmo, p5)) => {
                            let mbaff_r = if fmo == 0 {
                                s_u1p(bits, p5)
                            } else {
                                Some((0u8, p5))
                            };
                            match mbaff_r {
                                None => None,
                                Some((mbaff, p6)) => match s_u1p(bits, p6) {
                                    None => None,
                                    Some((d8, p7)) => match s_u1p(bits, p7) {
                                        None => None,
                                        Some((fcf, p8)) => {
                                            let m8 = SpsModel {
                                                max_num_ref_frames: mnrf,
                                                gaps_in_frame_num_value_allowed_flag: gaps,
                                                pic_width_in_mbs_minus1: pw,
                                                pic_height_in_map_units_minus1: ph,
                                                frame_mbs_only_flag: fmo,
                                                mb_adaptive_frame_field_flag: mbaff,
                                                direct_8x8_inference_flag: d8,
                                                frame_cropping_flag: fcf,
                                                ..m
                                            };
                                            match s_crop(bits, p8, fcf, m8) {
                                                None => None,
                                                Some((m9, p9)) => match s_u1p(bits, p9) {
                                                    None => None,
                                                    Some((vui, p10)) => Some(
                                                        (
                                                            SpsModel {
                                                                vui_parameters_present_flag: vui,
                                                                ..m9
                                                            },
                                                            p10,
                                                        ),
                                                    ),
                                                },
                                            }
                                        },
                                    },
                                },
                            }
                        },
                    },
                },
            },
        },
    }
}

/// A decoded sequence parameter set.
pub struct Sps {
    pub profile_idc: u8,
    pub flag: u8,
    pub level_idc: u8,
    pub seq_parameter_set_id: u32,
    pub chroma_format_idc: u32,
    pub separate_colour_plane_flag: u8,
    pub bit_depth_luma_minus8: u32,
    pub bit_depth_chroma_minus8: u32,
    pub qpprime_y_zero_transform_bypass_flag: u8,
    pub seq_scaling_matrix_present_flag: u8,
    pub seq_scaling_list_present_flag: Vec<u8>,
    pub log2_max_frame_num_minus4: u32,
    pub pic_order_cnt_type: u32,
    pub log2_max_pic_order_cnt_lsb_minus4: u32,
    pub delta_pic_order_always_zero_flag: u8,
    pub offset_for_non_ref_pic: i32,
    pub offset_for_top_to_bottom_field: i32,
    pub num_ref_frames_in_pic_order_cnt_cycle: u32,
    pub offset_for_ref_frame: Vec<i32>,
    pub max_num_ref_frames: u32,
    pub gaps_in_frame_num_value_allowed_flag: u8,
    pub pic_width_in_mbs_minus1: u32,
    pub pic_height_in_map_units_minus1: u32,
    pub frame_mbs_only_flag: u8,
    pub mb_adaptive_frame_field_flag: u8,
    pub direct_8x8_inference_flag: u8,
    pub frame_cropping_flag: u8,
    pub frame_crop_left_offset: u32,
    pub frame_crop_right_offset: u32,
    pub frame_crop_top_offset: u32,
    pub frame_crop_bottom_offset: u32,
    pub vui_parameters_present_flag: u8,
}

impl Sps {
    pub open spec fn model(self) -> SpsModel {
        SpsModel {
            profile_idc: self.profile_idc,
            flag: self.flag,
            level_idc: self.level_idc,
            seq_parameter_set_id: self.seq_parameter_set_id,
            chroma_format_idc: self.chroma_format_idc,
            separate_colour_plane_flag: self.separate_colour_plane_flag,
            bit_depth_luma_minus8: self.bit_depth_luma_minus8,
            bit_depth_chroma_minus8: self.bit_depth_chroma_minus8,
            qpprime_y_zero_transform_bypass_flag: self.qpprime_y_zero_transform_bypass_flag,
            seq_scaling_matrix_present_flag: self.seq_scaling_matrix_present_flag,
            seq_scaling_list_present_flag: self.seq_scaling_list_present_flag@,
            log2_max_frame_num_minus4: self.log2_max_frame_num_minus4,
            pic_order_cnt_type: self.pic_order_cnt_type,
            log2_max_pic_order_cnt_lsb_minus4: self.log2_max_pic_order_cnt_lsb_minus4,
            delta_pic_order_always_zero_flag: self.delta_pic_order_always_zero_flag,
            offset_for_non_ref_pic: self.offset_for_non_ref_pic,
            offset_for_top_to_bottom_field: self.offset_for_top_to_bottom_field,
            num_ref_frames_in_pic_order_cnt_cycle: self.num_ref_frames_in_pic_order_cnt_cycle,
            offset_for_ref_frame: self.offset_for_ref_frame@,
            max_num_ref_frames: self.max_num_ref_frames,
            gaps_in_frame_num_value_allowed_flag: self.gaps_in_frame_num_value_allowed_flag,
            pic_width_in_mbs_minus1: self.pic_width_in_mbs_minus1,
            pic_height_in_map_units_minus1: self.pic_height_in_map_units_minus1,
            frame_mbs_only_flag: self.frame_mbs_only_flag,
            mb_adaptive_frame_field_flag: self.mb_adaptive_frame_field_flag,
            direct_8x8_inference_flag: self.direct_8x8_inference_flag,
            frame_cropping_flag: self.frame_cropping_flag,
            frame_crop_left_offset: self.frame_crop_left_offset,
            frame_crop_right_offset: self.frame_crop_right_offset,
            frame_crop_top_offset: self.frame_crop_top_offset,
            frame_crop_bottom_offset: self.frame_crop_bottom_offset,
            vui_parameters_present_flag: self.vui_parameters_present_flag,
        }
    }

    fn empty() -> (r: Sps)
        ensures
            r.model() == sps_model_default(),
    {
        let r = Sps {
            profile_idc: 0,
            flag: 0,
            level_idc: 0,
            seq_parameter_set_id: 0,
            chroma_format_idc: 0,
            separate_colour_plane_flag: 0,
            bit_depth_luma_minus8: 0,
            bit_depth_chroma_minus8: 0,
            qpprime_y_zero_transform_bypass_flag: 0,
            seq_scaling_matrix_present_flag: 0,
            seq_scaling_list_present_flag: Vec::new(),
            log2_max_frame_num_minus4: 0,
            pic_order_cnt_type: 0,
            log2_max_pic_order_cnt_lsb_minus4: 0,
            delta_pic_order_always_zero_flag: 0,
            offset_for_non_ref_pic: 0,
            offset_for_top_to_bottom_field: 0,
            num_ref_frames_in_pic_order_cnt_cycle: 0,
            offset_for_ref_frame: Vec::new(),
            max_num_ref_frames: 0,
            gaps_in_frame_num_value_allowed_flag: 0,
            pic_width_in_mbs_minus1: 0,
            pic_height_in_map_units_minus1: 0,
            frame_mbs_only_flag: 0,
            mb_adaptive_frame_field_flag: 0,
            direct_8x8_inference_flag: 0,
            frame_cropping_flag: 0,
            frame_crop_left_offset: 0,
            frame_crop_right_offset: 0,
            frame_crop_top_offset: 0,
            frame_crop_bottom_offset: 0,
            vui_parameters_present_flag: 0,
        };
        proof {
            assert(r.model() =~= sps_model_default());
        }
        r
    }

    /// Derived picture dimensions:
    /// `width  = (pic_width_in_mbs_minus1 + 1) * 16 - 2 * (crop_left + crop_right)` and
    /// `height = (2 - frame_mbs_only_flag) * (pic_height_in_map_units_minus1 + 1) * 16
    ///           - 2 * (crop_top + crop_bottom)`.
    pub fn parse_width_height(&self) -> (r: (u32, u32))
        requires
            self.frame_mbs_only_flag <= 1,
            16 * (self.pic_width_in_mbs_minus1 + 1) <= u32::MAX,
            2 * self.frame_crop_left_offset + 2 * self.frame_crop_right_offset <= 16 * (
            self.pic_width_in_mbs_minus1 + 1),
            (2 - self.frame_mbs_only_flag) * 16 * (self.pic_height_in_map_units_minus1 + 1)
                <= u32::MAX,
            2 * self.frame_crop_top_offset + 2 * self.frame_crop_bottom_offset <= (2
                - self.frame_mbs_only_flag) * 16 * (self.pic_height_in_map_units_minus1 + 1),
        ensures
            r.0 == 16 * (self.pic_width_in_mbs_minus1 + 1) - 2 * self.frame_crop_left_offset - 2
                * self.frame_crop_right_offset,
            r.1 == (2 - self.frame_mbs_only_flag) * 16 * (self.pic_height_in_map_units_minus1 + 1)
                - 2 * self.frame_crop_top_offset - 2 * self.frame_crop_bottom_offset,
    {
        let width = (self.pic_width_in_mbs_minus1 + 1) * 16 - self.frame_crop_left_offset * 2
            - self.frame_crop_right_offset * 2;
        proof {
            let f = self.frame_mbs_only_flag as int;
            let h = self.pic_height_in_map_units_minus1 as int;
            assert((2 - f) * (h + 1) * 16 == (2 - f) * 16 * (h + 1) && (h + 1) <= (2 - f) * (h + 1)
                * 16 && (2 - f) * (h + 1) <= (2 - f) * (h + 1) * 16) by (nonlinear_arith)
                requires
                    0 <= f <= 1,
                    h >= 0,
            ;
        }
        let hb: u32 = (2 - self.frame_mbs_only_flag as u32) * (self.pic_height_in_map_units_minus1
            + 1) * 16;
        let height = hb - self.frame_crop_top_offset * 2 - self.frame_crop_bottom_offset * 2;
        (width, height)
    }
}

#[verifier::rlimit(100)]
fn read_flags(bs: &mut BitStream, cnt: usize) -> (r: Option<Vec<u8>>)
    requires
        old(bs).wf(),
    ensures
        final(bs).wf(),
        final(bs).buf() == old(bs).buf(),
        match r {
            Some(v) => s_flagsp(old(bs).bits(), old(bs).pos(), cnt as int) == Some(
                (v@, final(bs).pos()),
            ),
            None => s_flagsp(old(bs).bits(), old(bs).pos(), cnt as int) is None,
        },
{
    let ghost bits = old(bs).bits();
    let ghost p0 = old(bs).pos();
    let mut acc: Vec<u8> = Vec::new();
    let mut j: usize = 0;
    while j < cnt
        invariant
            bs.wf(),
            bs.buf() == old(bs).buf(),
            bits == old(bs).bits(),
            p0 == old(bs).pos(),
            j <= cnt,
            s_flagsp(bits, p0, cnt as int) == (match s_flagsp(bs.bits(), bs.pos(), cnt - j) {
                None => None::<(Seq<u8>, int)>,
                Some((rest, pe)) => Some((acc@ + rest, pe)),
            }),
        decreases cnt - j,
    {
        let ghost pj = bs.pos();
        proof {
            bs.lemma_pos_bounds();
        }
        match bs.read_u1() {
            None => {
                return None;
            },
            Some(b) => {
                proof {
                    assert(s_u1p(bits, pj) == Some((b, pj + 1)));
                    if let Some((rest2, pe2)) = s_flagsp(bits, pj + 1, cnt - j - 1) {
                        assert(s_flagsp(bits, pj, cnt - j) == Some((seq![b] + rest2, pe2)));
                        assert(acc@ + (seq![b] + rest2) =~= (acc@ + seq![b]) + rest2);
                        assert(acc@.push(b) =~= acc@ + seq![b]);
                    } else {
                        assert(s_flagsp(bits, pj, cnt - j) is None);
                    }
                }
                acc.push(b);
                j = j + 1;
            },
        }
    }
    proof {
        assert(acc@ + Seq::<u8>::empty() =~= acc@);
    }
    Some(acc)
}

#[verifier::rlimit(100)]
fn read_ses(bs: &mut BitStream, cnt: u32) -> (r: Option<Vec<i32>>)
    requires
        old(bs).wf(),
    ensures
        final(bs).wf(),
        final(bs).buf() == old(bs).buf(),
        match r {
            Some(v) => s_sesp(old(bs).bits(), old(bs).pos(), cnt as int) == Some(
                (v@, final(bs).pos()),
            ),
            None => s_sesp(old(bs).bits(), old(bs).pos(), cnt as int) is None,
        },
{
    let ghost bits = old(bs).bits();
    let ghost p0 = old(bs).pos();
    let mut acc: Vec<i32> = Vec::new();
    let mut j: u32 = 0;
    while j < cnt
        invariant
            bs.wf(),
            bs.buf() == old(bs).buf(),
            bits == old(bs).bits(),
            p0 == old(bs).pos(),
            j <= cnt,
            s_sesp(bits, p0, cnt as int) == (match s_sesp(bs.bits(), bs.pos(), cnt - j) {
                None => None::<(Seq<i32>, int)>,
                Some((rest, pe)) => Some((acc@ + rest, pe)),
            }),
        decreases cnt - j,
    {
        let ghost pj = bs.pos();
        proof {
            bs.lemma_pos_bounds();
        }
        match bs.read_se() {
            None => {
                return None;
            },
            Some(v) => {
                proof {
                    assert(s_sep(bits, pj) == Some((v, bs.pos())));
                    if let Some((rest2, pe2)) = s_sesp(bits, bs.pos(), cnt - j - 1) {
                        assert(s_sesp(bits, pj, cnt - j) == Some((seq![v] + rest2, pe2)));
                        assert(acc@ + (seq![v] + rest2) =~= (acc@ + seq![v]) + rest2);
                        assert(acc@.push(v) =~= acc@ + seq![v]);
                    } else {
                        assert(s_sesp(bits, pj, cnt - j) is None);
                    }
                }
                acc.push(v);
                j = j + 1;
            },
        }
    }
    proof {
        assert(acc@ + Seq::<i32>::empty() =~= acc@);
    }
    Some(acc)
}

#[verifier::rlimit(100)]
fn parse_chroma(bs: &mut BitStream, sps: &mut Sps) -> (ok: bool)
    requires
        old(bs).wf(),
    ensures
        final(bs).wf(),
        final(bs).buf() == old(bs).buf(),
        match s_chroma(old(bs).bits(), old(bs).pos(), old(sps).profile_idc, old(sps).model()) {
            Some(pr) => ok && final(sps).model() == pr.0 && final(bs).pos() == pr.1,
            None => !ok,
        },
{
    let p = sps.profile_idc;
    let high = p == 100 || p == 110 || p == 122 || p == 244 || p == 44 || p == 83 || p == 86 || p
        == 118 || p == 128;
    if !high {
        return true;
    }
    proof {
        bs.lemma_pos_bounds();
    }
    let cf = match bs.read_ue() {
        Some(v) => v,
        None => {
            return false;
        },
    };
    let mut sep: u8 = 0;
    if cf == 3 {
        sep = match bs.read_u1() {
            Some(v) => v,
            None => {
                return false;
            },
        };
    }
    sps.separate_colour_plane_flag = sep;
    proof {
        bs.lemma_pos_bounds();
    }
    let bdl = match bs.read_ue() {
        Some(v) => v,
        None => {
            return false;
        },
    };
    proof {
        bs.lemma_pos_bounds();
    }
    let bdc = match bs.read_ue() {
        Some(v) => v,
        None => {
            return false;
        },
    };
    let qp = match bs.read_u1() {
        Some(v) => v,
        None => {
            return false;
        },
    };
    let smp = match bs.read_u1() {
        Some(v) => v,
        None => {
            return false;
        },
    };
    sps.chroma_format_idc = cf;
    sps.bit_depth_luma_minus8 = bdl;
    sps.bit_depth_chroma_minus8 = bdc;
    sps.qpprime_y_zero_transform_bypass_flag = qp;
    sps.seq_scaling_matrix_present_flag = smp;
    if smp > 0 {
        let dim: usize = if cf != 3 {
            8
        } else {
            12
        };
        let flags = match read_flags(bs, dim) {
            Some(v) => v,
            None => {
                return false;
            },
        };
        sps.seq_scaling_list_present_flag = flags;
    } else {
        proof {
            assert(s_flagsp(old(bs).bits(), bs.pos(), 0) == Some(
                (Seq::<u8>::empty(), bs.pos()),
            ));
        }
        sps.seq_scaling_list_present_flag = Vec::new();
    }
    proof {
        if let Some(pr) = s_chroma(
            old(bs).bits(),
            old(bs).pos(),
            old(sps).profile_idc,
            old(sps).model(),
        ) {
            assert(sps.model() =~= pr.0);
        }
    }
    true
}

#[verifier::rlimit(100)]
fn parse_poc(bs: &mut BitStream, sps: &mut Sps) -> (ok: bool)
    requires
        old(bs).wf(),
    ensures
        final(bs).wf(),
        final(bs).buf() == old(bs).buf(),
        match s_poc(old(bs).bits(), old(bs).pos(), old(sps).pic_order_cnt_type, old(sps).model()) {
            Some(pr) => ok && final(sps).model() == pr.0 && final(bs).pos() == pr.1,
            None => !ok,
        },
{
    proof {
        bs.lemma_pos_bounds();
    }
    if sps.pic_order_cnt_type == 0 {
        let lsb = match bs.read_ue() {
            Some(v) => v,
            None => {
                return false;
            },
        };
        sps.log2_max_pic_order_cnt_lsb_minus4 = lsb;
        proof {
            if let Some(pr) = s_poc(
                old(bs).bits(),
                old(bs).pos(),
                old(sps).pic_order_cnt_type,
                old(sps).model(),
            ) {
                assert(sps.model() =~= pr.0);
            }
        }
        true
    } else if sps.pic_order_cnt_type == 1 {
        let dz = match bs.read_u1() {
            Some(v) => v,
            None => {
                return false;
            },
        };
        proof {
            bs.lemma_pos_bounds();
        }
        let onr = match bs.read_se() {
            Some(v) => v,
            None => {
                return false;
            },
        };
        proof {
            bs.lemma_pos_bounds();
        }
        let ott = match bs.read_se() {
            Some(v) => v,
            None => {
                return false;
            },
        };
        proof {
            bs.lemma_pos_bounds();
        }
        let cnt = match bs.read_ue() {
            Some(v) => v,
            None => {
                return false;
            },
        };
        let offs = match read_ses(bs, cnt) {
            Some(v) => v,
            None => {
                return false;
            },
        };
        sps.delta_pic_order_always_zero_flag = dz;
        sps.offset_for_non_ref_pic = onr;
        sps.offset_for_top_to_bottom_field = ott;
        sps.num_ref_frames_in_pic_order_cnt_cycle = cnt;
        sps.offset_for_ref_frame = offs;
        proof {
            if let Some(pr) = s_poc(
                old(bs).bits(),
                old(bs).pos(),
                old(sps).pic_order_cnt_type,
                old(sps).model(),
            ) {
                assert(sps.model() =~= pr.0);
            }
        }
        true
    } else {
        true
    }
}

#[verifier::rlimit(100)]
fn parse_tail(bs: &mut BitStream, sps: &mut Sps) -> (ok: bool)
    requires
        old(bs).wf(),
    ensures
        final(bs).wf(),
        final(bs).buf() == old(bs).buf(),
        match sps_parse_tail(old(bs).bits(), old(bs).pos(), old(sps).model()) {
            Some(pr) => ok && final(sps).model() == pr.0 && final(bs).pos() == pr.1,
            None => !ok,
        },
{
    proof {
        bs.lemma_pos_bounds();
    }
    let mnrf = match bs.read_ue() {
        Some(v) => v,
        None => {
            return false;
        },
    };
    let gaps = match bs.read_u1() {
        Some(v) => v,
        None => {
            return false;
        },
    };
    proof {
        bs.lemma_pos_bounds();
    }
    let pw = match bs.read_ue() {
        Some(v) => v,
        None => {
            return false;
        },
    };
    proof {
        bs.lemma_pos_bounds();
    }
    let ph = match bs.read_ue() {
        Some(v) => v,
        None => {
            return false;
        },
    };
    let fmo = match bs.read_u1() {
        Some(v) => v,
        None => {
            return false;
        },
    };
    let mut mbaff: u8 = 0;
    if fmo == 0 {
        mbaff = match bs.read_u1() {
            Some(v) => v,
            None => {
                return false;
            },
        };
    }
    let d8 = match bs.read_u1() {
        Some(v) => v,
        None => {
            return false;
        },
    };
    let fcf = match bs.read_u1() {
        Some(v) => v,
        None => {
            return false;
        },
    };
    sps.max_num_ref_frames = mnrf;
    sps.gaps_in_frame_num_value_allowed_flag = gaps;
    sps.pic_width_in_mbs_minus1 = pw;
    sps.pic_height_in_map_units_minus1 = ph;
    sps.frame_mbs_only_flag = fmo;
    sps.mb_adaptive_frame_field_flag = mbaff;
    sps.direct_8x8_inference_flag = d8;
    sps.frame_cropping_flag = fcf;
    if fcf > 0 {
        proof {
            bs.lemma_pos_bounds();
        }
        let cl = match bs.read_ue() {
            Some(v) => v,
            None => {
                return false;
            },
        };
        proof {
            bs.lemma_pos_bounds();
        }
        let cr = match bs.read_ue() {
            Some(v) => v,
            None => {
                return false;
            },
        };
        proof {
            bs.lemma_pos_bounds();
        }
        let ct = match bs.read_ue() {
            Some(v) => v,
            None => {
                return false;
            },
        };
        proof {
            bs.lemma_pos_bounds();
        }
        let cb = match bs.read_ue() {
            Some(v) => v,
            None => {
                return false;
            },
        };
        sps.frame_crop_left_offset = cl;
        sps.frame_crop_right_offset = cr;
        sps.frame_crop_top_offset = ct;
        sps.frame_crop_bottom_offset = cb;
    }
    let vui = match bs.read_u1() {
        Some(v) => v,
        None => {
            return false;
        },
    };
    sps.vui_parameters_present_flag = vui;
    proof {
        if let Some(pr) = sps_parse_tail(old(bs).bits(), old(bs).pos(), old(sps).model()) {
            assert(sps.model() =~= pr.0);
        }
    }
    true
}

impl Sps {
    /// Decodes a sequence parameter set from the bit stream; `None` on
    /// buffer underrun, which ends the session's construction.
    #[verifier::rlimit(100)]
    pub fn parse(bs: &mut BitStream) -> (r: Option<Sps>)
        requires
            old(bs).wf(),
        ensures
            final(bs).wf(),
            final(bs).buf() == old(bs).buf(),
            match r {
                Some(sps) => sps_parse(old(bs).bits(), old(bs).pos()) matches Some(pr)
                    && sps.model() == pr.0 && final(bs).pos() == pr.1,
                None => sps_parse(old(bs).bits(), old(bs).pos()) is None,
            },
    {
        let mut sps = Sps::empty();
        proof {
            bs.lemma_pos_bounds();
            lemma2_to64();
        }
        let profile = match bs.read_u(8) {
            Some(v) => v,
            None => {
                return None;
            },
        };
        let flag = match bs.read_u(8) {
            Some(v) => v,
            None => {
                return None;
            },
        };
        let level = match bs.read_u(8) {
            Some(v) => v,
            None => {
                return None;
            },
        };
        proof {
            bs.lemma_pos_bounds();
        }
        let spsid = match bs.read_ue() {
            Some(v) => v,
            None => {
                return None;
            },
        };
        sps.profile_idc = profile as u8;
        sps.flag = flag as u8;
        sps.level_idc = level as u8;
        sps.seq_parameter_set_id = spsid;
        proof {
            assert(sps.model() =~= SpsModel {
                profile_idc: sps.profile_idc,
                flag: sps.flag,
                level_idc: sps.level_idc,
                seq_parameter_set_id: sps.seq_parameter_set_id,
                ..sps_model_default()
            });
        }
        if !parse_chroma(bs, &mut sps) {
            return None;
        }
        proof {
            bs.lemma_pos_bounds();
        }
        let l2m = match bs.read_ue() {
            Some(v) => v,
            None => {
                return None;
            },
        };
        proof {
            bs.lemma_pos_bounds();
        }
        let poct = match bs.read_ue() {
            Some(v) => v,
            None => {
                return None;
            },
        };
        sps.log2_max_frame_num_minus4 = l2m;
        sps.pic_order_cnt_type = poct;
        if !parse_poc(bs, &mut sps) {
            return None;
        }
        if !parse_tail(bs, &mut sps) {
            return None;
        }
        Some(sps)
    }
}

} // verus!
