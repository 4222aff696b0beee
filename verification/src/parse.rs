//! Annex-B NAL unit scanning: locating `00 00 01` / `00 00 00 01` start
//! codes in a chunk, and collecting the parameter-set NAL units that the
//! session needs (SPS/PPS for H.264, VPS/SPS/PPS for H.265).

use vstd::prelude::*;

verus! {

use vstd::slice::{slice_subrange, slice_to_vec};
use crate::rtp_h264::h264_nal_type;
use crate::rtp_h265::h265_nal_type;

/// A three-byte start code `00 00 01` stands at `i`.
pub open spec fn sc3_at(d: Seq<u8>, i: int) -> bool {
    0 <= i && i + 3 <= d.len() && d[i] == 0 && d[i + 1] == 0 && d[i + 2] == 1
}

/// A four-byte start code `00 00 00 01` stands at `i`.
pub open spec fn sc4_at(d: Seq<u8>, i: int) -> bool {
    0 <= i && i + 4 <= d.len() && d[i] == 0 && d[i + 1] == 0 && d[i + 2] == 0 && d[i + 3] == 1
}

/// A start code stands at `i`.
pub open spec fn sc_at(d: Seq<u8>, i: int) -> bool {
    sc3_at(d, i) || sc4_at(d, i)
}

/// Where the NAL unit begins, after the start code found at `s`.
pub open spec fn nalu_start_from(d: Seq<u8>, s: int) -> int {
    if sc3_at(d, s) {
        s + 3
    } else {
        s + 4
    }
}

/// `e` is where the NAL unit beginning at `ns` ends: at the next start
/// code, or at the end of the chunk, whichever comes first.
pub open spec fn nal_end_ok(d: Seq<u8>, ns: int, e: int) -> bool {
    &&& ns <= e <= d.len()
    &&& forall|j: int| ns <= j < e ==> !sc_at(d, j)
    &&& e < d.len() ==> sc_at(d, e)
}

/// Finds the first NAL unit in the chunk: the bytes after the first
/// start code, up to the next start code or to the end of the chunk,
/// whichever comes first.
pub fn find_nalu(data: &[u8]) -> (r: Option<&[u8]>)
    ensures
        match r {
            None => forall|s: int| !sc_at(data@, s),
            Some(nalu) => exists|s: int, e: int|
                #![trigger sc_at(data@, s), nal_end_ok(data@, nalu_start_from(data@, s), e)]
                {
                    &&& sc_at(data@, s)
                    &&& forall|j: int| 0 <= j < s ==> !sc_at(data@, j)
                    &&& nal_end_ok(data@, nalu_start_from(data@, s), e)
                    &&& nalu@ == data@.subrange(nalu_start_from(data@, s), e)
                },
        },
{
    let len = data.len();
    let mut start: usize = 0;
    while len >= 3 && start <= len - 3
        invariant
            len == data@.len(),
            start <= len,
            forall|j: int| 0 <= j < start ==> !sc_at(data@, j),
        decreases len - start,
    {
        let sc3 = data[start] == 0 && data[start + 1] == 0 && data[start + 2] == 1;
        let sc4 = len - start >= 4 && data[start] == 0 && data[start + 1] == 0 && data[start + 2]
            == 0 && data[start + 3] == 1;
        if sc3 || sc4 {
            let nalu_start = if sc3 {
                start + 3
            } else {
                start + 4
            };
            let mut end: usize = nalu_start;
            while end <= len - 3 && !(data[end] == 0 && data[end + 1] == 0 && (data[end + 2] == 1
                || (len - end >= 4 && data[end + 2] == 0 && data[end + 3] == 1)))
                invariant
                    len == data@.len(),
                    len >= 3,
                    nalu_start <= end <= len,
                    forall|j: int| nalu_start <= j < end ==> !sc_at(data@, j),
                decreases len - end,
            {
                end = end + 1;
            }
            let stop = if end > len - 3 {
                len
            } else {
                end
            };
            proof {
                assert forall|j: int| nalu_start <= j < stop implies !sc_at(data@, j) by {
                    if j >= end {
                        assert(j + 3 > len);
                    }
                }
                assert(nal_end_ok(data@, nalu_start as int, stop as int));
            }
            let nalu = slice_subrange(data, nalu_start, stop);
            proof {
                let s_w = start as int;
                let e_w = stop as int;
                assert(sc_at(data@, s_w));
                assert(nalu_start_from(data@, s_w) == nalu_start as int);
            }
            return Some(nalu);
        }
        start = start + 1;
    }
    proof {
        assert forall|s: int| !sc_at(data@, s) by {
            if s >= start {
                assert(s + 3 > len);
            }
        }
    }
    None
}

/// The parameter-set NAL units found in a stream, deciding its codec.
pub enum ParameterSet {
    H264 { sps: Vec<u8>, pps: Vec<u8> },
    H265 { vps: Vec<u8>, sps: Vec<u8>, pps: Vec<u8> },
    Other,
}

/// Collects SPS and PPS NAL units while scanning a stream as H.264.
pub struct H264ParamScan {
    sps: Option<Vec<u8>>,
    pps: Option<Vec<u8>>,
}

impl H264ParamScan {
    pub closed spec fn spec_sps(self) -> Option<Seq<u8>> {
        match self.sps {
            Some(v) => Some(v@),
            None => None,
        }
    }

    pub closed spec fn spec_pps(self) -> Option<Seq<u8>> {
        match self.pps {
            Some(v) => Some(v@),
            None => None,
        }
    }

    pub fn new() -> (r: H264ParamScan)
        ensures
            r.spec_sps() is None,
            r.spec_pps() is None,
    {
        H264ParamScan { sps: None, pps: None }
    }

    /// Classifies one NAL unit by the low five bits of its first byte:
    /// type 7 is kept as the SPS, type 8 as the PPS, all else is ignored.
    pub fn feed(&mut self, nalu: &[u8])
        ensures
            final(self).spec_sps() == if nalu@.len() >= 1 && h264_nal_type(nalu@[0]) == 7 {
                Some(nalu@)
            } else {
                old(self).spec_sps()
            },
            final(self).spec_pps() == if nalu@.len() >= 1 && h264_nal_type(nalu@[0]) == 8 {
                Some(nalu@)
            } else {
                old(self).spec_pps()
            },
    {
        if nalu.len() >= 1 {
            let t = nalu[0] & 0x1F;
            if t == 7 {
                self.sps = Some(slice_to_vec(nalu));
            } else if t == 8 {
                self.pps = Some(slice_to_vec(nalu));
            }
        }
    }

    /// Both parameter sets have been seen.
    pub fn complete(&self) -> (r: bool)
        ensures
            r == (self.spec_sps() is Some && self.spec_pps() is Some),
    {
        self.sps.is_some() && self.pps.is_some()
    }

    /// What the scan found: `H264` with the two parameter sets where
    /// both were seen, `Other` where not.
    pub fn finish(self) -> (r: ParameterSet)
        ensures
            match r {
                ParameterSet::H264 { sps, pps } => self.spec_sps() == Some(sps@) && self.spec_pps()
                    == Some(pps@),
                ParameterSet::Other => self.spec_sps() is None || self.spec_pps() is None,
                _ => false,
            },
    {
        match (self.sps, self.pps) {
            (Some(sps), Some(pps)) => ParameterSet::H264 { sps, pps },
            _ => ParameterSet::Other,
        }
    }
}

/// Collects VPS, SPS and PPS NAL units while scanning a stream as H.265.
pub struct H265ParamScan {
    vps: Option<Vec<u8>>,
    sps: Option<Vec<u8>>,
    pps: Option<Vec<u8>>,
}

impl H265ParamScan {
    pub closed spec fn spec_vps(self) -> Option<Seq<u8>> {
        match self.vps {
            Some(v) => Some(v@),
            None => None,
        }
    }

    pub closed spec fn spec_sps(self) -> Option<Seq<u8>> {
        match self.sps {
            Some(v) => Some(v@),
            None => None,
        }
    }

    pub closed spec fn spec_pps(self) -> Option<Seq<u8>> {
        match self.pps {
            Some(v) => Some(v@),
            None => None,
        }
    }

    pub fn new() -> (r: H265ParamScan)
        ensures
            r.spec_vps() is None,
            r.spec_sps() is None,
            r.spec_pps() is None,
    {
        H265ParamScan { vps: None, sps: None, pps: None }
    }

    /// Classifies one NAL unit by bits 1 to 6 of its first byte: type 32
    /// is kept as the VPS, 33 as the SPS, 34 as the PPS.
    pub fn feed(&mut self, nalu: &[u8])
        ensures
            final(self).spec_vps() == if nalu@.len() >= 1 && h265_nal_type(nalu@[0]) == 32 {
                Some(nalu@)
            } else {
                old(self).spec_vps()
            },
            final(self).spec_sps() == if nalu@.len() >= 1 && h265_nal_type(nalu@[0]) == 33 {
                Some(nalu@)
            } else {
                old(self).spec_sps()
            },
            final(self).spec_pps() == if nalu@.len() >= 1 && h265_nal_type(nalu@[0]) == 34 {
                Some(nalu@)
            } else {
                old(self).spec_pps()
            },
    {
        if nalu.len() >= 1 {
            let t = (nalu[0] & 0x7E) >> 1u8;
            if t == 32 {
                self.vps = Some(slice_to_vec(nalu));
            } else if t == 33 {
                self.sps = Some(slice_to_vec(nalu));
            } else if t == 34 {
                self.pps = Some(slice_to_vec(nalu));
            }
        }
    }

    /// All three parameter sets have been seen.
    pub fn complete(&self) -> (r: bool)
        ensures
            r == (self.spec_vps() is Some && self.spec_sps() is Some && self.spec_pps() is Some),
    {
        self.vps.is_some() && self.sps.is_some() && self.pps.is_some()
    }

    /// What the scan found: `H265` with the three parameter sets where
    /// all were seen, `Other` where not.
    pub fn finish(self) -> (r: ParameterSet)
        ensures
            match r {
                ParameterSet::H265 { vps, sps, pps } => self.spec_vps() == Some(vps@)
                    && self.spec_sps() == Some(sps@) && self.spec_pps() == Some(pps@),
                ParameterSet::Other => self.spec_vps() is None || self.spec_sps() is None
                    || self.spec_pps() is None,
                _ => false,
            },
    {
        match (self.vps, self.sps, self.pps) {
            (Some(vps), Some(sps), Some(pps)) => ParameterSet::H265 { vps, sps, pps },
            _ => ParameterSet::Other,
        }
    }
}

} // verus!
