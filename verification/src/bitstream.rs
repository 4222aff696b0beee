//! Forward-only bit reader over an immutable byte buffer, with the
//! Exp-Golomb codes used by H.264/H.265 parameter-set syntax.

use vstd::prelude::*;

verus! {

use vstd::arithmetic::power2::{pow2, lemma_pow2_unfold, lemma_pow2_strictly_increases, lemma2_to64};
use vstd::bits::lemma_u32_shl_is_mul;

/// The bytes held by a `bytes::Bytes` buffer.
pub uninterp spec fn bytes_seq(b: bytes::Bytes) -> Seq<u8>;

#[verifier::external_type_specification]
#[verifier::external_body]
pub struct ExBytes(bytes::Bytes);

/// Relies on `bytes::Bytes::len`: the number of bytes in the buffer.
#[verifier::external_body]
pub(crate) fn bytes_len(b: &bytes::Bytes) -> (n: usize)
    ensures
        n == bytes_seq(*b).len(),
{
    b.len()
}

/// Relies on the slice indexing `bytes::Bytes` offers through `Deref<Target = [u8]>`.
#[verifier::external_body]
pub(crate) fn bytes_get(b: &bytes::Bytes, i: usize) -> (r: u8)
    requires
        i < bytes_seq(*b).len(),
    ensures
        r == bytes_seq(*b)[i as int],
{
    b[i]
}

/// Relies on `From<Vec<u8>> for bytes::Bytes`: the buffer holds exactly the vector's bytes.
#[verifier::external_body]
pub(crate) fn bytes_from_vec(v: Vec<u8>) -> (b: bytes::Bytes)
    ensures
        bytes_seq(b) == v@,
{
    bytes::Bytes::from(v)
}

/// Bit `k` (most significant first) of byte `b`.
pub open spec fn bit_of_byte(b: u8, k: int) -> bool
    recommends
        0 <= k < 8,
{
    (b >> (7 - k) as u8) & 1 == 1
}

/// All bits of `data`, most significant bit of each byte first.
pub open spec fn data_bits(data: Seq<u8>) -> Seq<bool> {
    Seq::new(data.len() * 8, |i: int| bit_of_byte(data[i / 8], i % 8))
}

proof fn lemma_div8(c: int, r: int)
    requires
        0 <= r < 8,
        0 <= c,
    ensures
        (8 * c + r) / 8 == c,
        (8 * c + r) % 8 == r,
{
    assert((8 * c + r) / 8 == c && (8 * c + r) % 8 == r) by (nonlinear_arith)
        requires
            0 <= r < 8,
            0 <= c,
    ;
}

/// Value of a bit string read most-significant-bit first.
pub open spec fn bits_val(s: Seq<bool>) -> nat
    decreases s.len(),
{
    if s.len() == 0 {
        0
    } else {
        2 * bits_val(s.drop_last()) + (if s.last() {
            1nat
        } else {
            0nat
        })
    }
}

/// Number of zero bits before the first one bit, if any one bit comes.
pub open spec fn leading_zeros(s: Seq<bool>) -> Option<nat>
    decreases s.len(),
{
    if s.len() == 0 {
        None
    } else if s[0] {
        Some(0nat)
    } else {
        match leading_zeros(s.skip(1)) {
            None => None,
            Some(k) => Some((k + 1) as nat),
        }
    }
}

pub proof fn lemma_leading_zeros_some(s: Seq<bool>, k: nat)
    requires
        leading_zeros(s) == Some(k),
    ensures
        k < s.len(),
        s[k as int],
        forall|j: int| 0 <= j < k ==> !s[j],
    decreases s.len(),
{
    if s.len() == 0 {
    } else if s[0] {
    } else {
        let t = s.skip(1);
        lemma_leading_zeros_some(t, (k - 1) as nat);
        assert forall|j: int| 0 <= j < k implies !s[j] by {
            if j >= 1 {
                assert(!t[j - 1]);
            }
        }
    }
}

pub proof fn lemma_leading_zeros_of_prefix(s: Seq<bool>, k: nat)
    requires
        k < s.len(),
        s[k as int],
        forall|j: int| 0 <= j < k ==> !s[j],
    ensures
        leading_zeros(s) == Some(k),
    decreases k,
{
    if k == 0 {
    } else {
        let t = s.skip(1);
        assert(forall|j: int| 0 <= j < k - 1 ==> t[j] == s[j + 1]);
        assert(t[k - 1] == s[k as int]);
        lemma_leading_zeros_of_prefix(t, (k - 1) as nat);
    }
}

pub proof fn lemma_leading_zeros_all_false(s: Seq<bool>)
    requires
        forall|j: int| 0 <= j < s.len() ==> !s[j],
    ensures
        leading_zeros(s) is None,
    decreases s.len(),
{
    if s.len() > 0 {
        let t = s.skip(1);
        assert(forall|j: int| 0 <= j < t.len() ==> t[j] == s[j + 1]);
        lemma_leading_zeros_all_false(t);
    }
}

/// The unsigned Exp-Golomb grammar: `k` zero bits, a one bit, then `k`
/// suffix bits; the value is `2^k - 1` plus the suffix. Yields the value
/// and the number of bits consumed; `None` on underrun or `k > 31`.
pub open spec fn ue_parse(s: Seq<bool>) -> Option<(u32, int)> {
    match leading_zeros(s) {
        None => None,
        Some(k) => if k > 31 || s.len() < 2 * k + 1 {
            None
        } else {
            Some(
                (
                    ((pow2(k) - 1) + bits_val(s.subrange(k as int + 1, 2 * (k as int) + 1))) as u32,
                    2 * k + 1 as int,
                ),
            )
        },
    }
}

/// The signed Exp-Golomb mapping: 0, +1, -1, +2, -2, ... over the unsigned code.
pub open spec fn se_val(ue: u32) -> int {
    if ue % 2 == 1 {
        (ue + 1) / 2
    } else {
        -((ue / 2) as int)
    }
}

/// A forward-only cursor over the bits of a byte buffer.
pub struct BitStream {
    bs: bytes::Bytes,
    cursor: usize,
    bits_left: u8,
}

impl BitStream {
    /// The underlying bytes.
    pub closed spec fn buf(self) -> Seq<u8> {
        bytes_seq(self.bs)
    }

    /// Index of the next bit to be read, within `self.bits()`.
    pub closed spec fn pos(self) -> int {
        self.cursor * 8 + 8 - self.bits_left
    }

    /// The whole buffer as a bit sequence.
    pub open spec fn bits(self) -> Seq<bool> {
        data_bits(self.buf())
    }

    pub closed spec fn wf(self) -> bool {
        &&& 1 <= self.bits_left <= 8
        &&& self.bits_left < 8 ==> self.cursor < self.buf().len()
        &&& self.cursor <= self.buf().len()
    }

    pub proof fn lemma_pos_bounds(self)
        requires
            self.wf(),
        ensures
            0 <= self.pos() <= self.bits().len(),
    {
        assert(0 <= self.pos() <= self.buf().len() * 8) by (nonlinear_arith)
            requires
                self.pos() == self.cursor * 8 + 8 - self.bits_left,
                1 <= self.bits_left <= 8,
                self.bits_left < 8 ==> self.cursor < self.buf().len(),
                self.cursor <= self.buf().len(),
        ;
    }

    pub fn new(bs: bytes::Bytes) -> (r: BitStream)
        ensures
            r.wf(),
            r.buf() == bytes_seq(bs),
            r.pos() == 0,
    {
        BitStream { bs, cursor: 0, bits_left: 8 }
    }

    /// The byte the cursor currently stands in, without advancing.
    pub fn read_byte(&self) -> (r: u8)
        requires
            self.wf(),
            self.pos() < self.bits().len(),
        ensures
            r == self.buf()[self.pos() / 8],
    {
        proof {
            lemma_div8(self.cursor as int, 8 - self.bits_left);
        }
        bytes_get(&self.bs, self.cursor)
    }

    /// Reads one bit; `None` once the buffer is exhausted.
    pub fn read_u1(&mut self) -> (r: Option<u8>)
        requires
            old(self).wf(),
        ensures
            final(self).wf(),
            final(self).buf() == old(self).buf(),
            match r {
                Some(b) => {
                    &&& old(self).pos() < old(self).bits().len()
                    &&& final(self).pos() == old(self).pos() + 1
                    &&& b == if old(self).bits()[old(self).pos()] { 1u8 } else { 0u8 }
                },
                None => {
                    &&& old(self).pos() == old(self).bits().len()
                    &&& *final(self) == *old(self)
                },
            },
    {
        let n = bytes_len(&self.bs);
        if self.cursor >= n {
            return None;
        }
        self.bits_left = self.bits_left - 1;
        let byte = bytes_get(&self.bs, self.cursor);
        let res: u8 = (byte >> self.bits_left) & 1;
        proof {
            lemma_div8(self.cursor as int, (7 - self.bits_left) as int);
            assert(old(self).pos() == 8 * (self.cursor as int) + (7 - self.bits_left));
            assert(old(self).bits()[old(self).pos()] == bit_of_byte(byte, (7
                - self.bits_left) as int));
            let bl = self.bits_left;
            assert((byte >> bl) & 1 <= 1) by (bit_vector);
            assert((7 - (7 - self.bits_left) as int) as u8 == self.bits_left);
        }
        if self.bits_left == 0 {
            self.cursor = self.cursor + 1;
            self.bits_left = 8;
        }
        Some(res)
    }

    /// Reads `n` bits, most significant first; `None` on underrun.
    pub fn read_u(&mut self, n: u8) -> (r: Option<usize>)
        requires
            old(self).wf(),
            n <= 32,
        ensures
            final(self).wf(),
            final(self).buf() == old(self).buf(),
            match r {
                Some(v) => {
                    &&& old(self).pos() + n <= old(self).bits().len()
                    &&& final(self).pos() == old(self).pos() + n
                    &&& v == bits_val(
                        old(self).bits().subrange(old(self).pos(), old(self).pos() + n),
                    )
                    &&& v < pow2(n as nat)
                },
                None => old(self).pos() + n > old(self).bits().len(),
            },
    {
        let mut res: usize = 0;
        let mut i: u8 = 0;
        proof {
            lemma2_to64();
        }
        while i < n
            invariant
                old(self).wf(),
                self.wf(),
                n <= 32,
                i <= n,
                self.buf() == old(self).buf(),
                self.pos() == old(self).pos() + i,
                old(self).pos() >= 0,
                self.pos() <= self.bits().len(),
                res == bits_val(old(self).bits().subrange(old(self).pos(), old(self).pos() + i)),
                res < pow2(i as nat),
                pow2(32) == 0x1_0000_0000,
            decreases n - i,
        {
            let b = match self.read_u1() {
                Some(b) => b,
                None => {
                    return None;
                },
            };
            proof {
                lemma_pow2_unfold((i + 1) as nat);
                if i + 1 < 32 {
                    lemma_pow2_strictly_increases((i + 1) as nat, 32);
                }
                assert(res * 2 + 1 < 0x1_0000_0000);
                let p0 = old(self).pos();
                let s1 = old(self).bits().subrange(p0, p0 + i + 1);
                assert(s1.drop_last() =~= old(self).bits().subrange(p0, p0 + i));
                assert(s1.last() == old(self).bits()[p0 + i]);
            }
            res = res * 2 + (b as usize);
            i = i + 1;
        }
        Some(res)
    }

    /// Reads one unsigned Exp-Golomb code; `None` on underrun or a
    /// run of more than 31 leading zero bits.
    pub fn read_ue(&mut self) -> (r: Option<u32>)
        requires
            old(self).wf(),
        ensures
            final(self).wf(),
            final(self).buf() == old(self).buf(),
            match r {
                Some(v) => {
                    &&& ue_parse(old(self).bits().skip(old(self).pos())) matches Some(p) && p.0
                        == v && final(self).pos() == old(self).pos() + p.1
                    &&& v < 0xFFFF_FFFFu32
                },
                None => ue_parse(old(self).bits().skip(old(self).pos())) is None,
            },
    {
        let ghost p0 = old(self).pos();
        let ghost s0 = old(self).bits().skip(p0);
        proof {
            assert(forall|j: int| 0 <= j < s0.len() ==> #[trigger] s0[j] == old(self).bits()[p0 + j]);
        }
        let mut zeros: u32 = 0;
        loop
            invariant_except_break
                old(self).wf(),
                self.wf(),
                self.buf() == old(self).buf(),
                zeros <= 31,
                self.pos() == p0 + zeros,
                p0 == old(self).pos(),
                s0 == old(self).bits().skip(p0),
                forall|j: int| 0 <= j < zeros ==> !(#[trigger] old(self).bits()[p0 + j]),
                p0 + zeros <= old(self).bits().len(),
            ensures
                self.wf(),
                self.buf() == old(self).buf(),
                zeros <= 31,
                self.pos() == p0 + zeros + 1,
                forall|j: int| 0 <= j < zeros ==> !(#[trigger] old(self).bits()[p0 + j]),
                p0 + zeros < old(self).bits().len(),
                old(self).bits()[p0 + zeros],
            decreases old(self).bits().len() - self.pos(),
        {
            match self.read_u1() {
                None => {
                    proof {
                        assert forall|j: int| 0 <= j < s0.len() implies !s0[j] by {
                            assert(s0[j] == old(self).bits()[p0 + j]);
                        }
                        lemma_leading_zeros_all_false(s0);
                    }
                    return None;
                },
                Some(b) => {
                    if b == 1 {
                        break ;
                    }
                    zeros = zeros + 1;
                    if zeros == 32 {
                        proof {
                            assert forall|j: int| 0 <= j < 32 implies !s0[j] by {
                                assert(s0[j] == old(self).bits()[p0 + j]);
                            }
                            if let Some(k) = leading_zeros(s0) {
                                lemma_leading_zeros_some(s0, k);
                                if k < 32 {
                                    assert(!s0[k as int]);
                                }
                            }
                        }
                        return None;
                    }
                },
            }
        }
        proof {
            assert(s0[zeros as int] == old(self).bits()[p0 + zeros]);
            assert forall|j: int| 0 <= j < zeros implies !s0[j] by {
                assert(s0[j] == old(self).bits()[p0 + j]);
            }
            lemma_leading_zeros_of_prefix(s0, zeros as nat);
        }
        let suffix = match self.read_u(zeros as u8) {
            Some(s) => s,
            None => {
                return None;
            },
        };
        proof {
            lemma2_to64();
            lemma_u32_shl_is_mul(1u32, zeros);
            if (zeros as nat) < 31 {
                lemma_pow2_strictly_increases(zeros as nat, 31);
            }
            let sub_abs = old(self).bits().subrange(p0 + zeros + 1, p0 + 2 * zeros + 1);
            assert(sub_abs =~= s0.subrange(zeros + 1, 2 * zeros + 1));
        }
        let v: u32 = ((1u32 << zeros) - 1) + (suffix as u32);
        Some(v)
    }

    /// Reads one signed Exp-Golomb code; `None` where `read_ue` fails.
    pub fn read_se(&mut self) -> (r: Option<i32>)
        requires
            old(self).wf(),
        ensures
            final(self).wf(),
            final(self).buf() == old(self).buf(),
            match r {
                Some(v) => ue_parse(old(self).bits().skip(old(self).pos())) matches Some(p)
                    && v as int == se_val(p.0) && final(self).pos() == old(self).pos() + p.1,
                None => ue_parse(old(self).bits().skip(old(self).pos())) is None,
            },
    {
        let ue = match self.read_ue() {
            Some(u) => u,
            None => {
                return None;
            },
        };
        if ue % 2 == 1 {
            Some((ue / 2 + 1) as i32)
        } else {
            Some(-((ue / 2) as i32))
        }
    }
}

/// The signed mapping inverts the enumeration 0, +1, -1, +2, -2, ...:
/// the unsigned code 0 decodes to 0, code `2m - 1` to `+m`, and code
/// `2m` to `-m`.
pub proof fn lemma_se_mapping(m: u32)
    requires
        1 <= m <= 0x7FFF_FFFF,
    ensures
        se_val(0) == 0,
        se_val((2 * m - 1) as u32) == m as int,
        se_val((2 * m) as u32) == -(m as int),
{
}

/// Floor of the base-two logarithm.
pub open spec fn lg(n: nat) -> nat
    decreases n,
{
    if n < 2 {
        0
    } else {
        (1 + lg(n / 2)) as nat
    }
}

pub proof fn lemma_lg_bounds(m: nat)
    requires
        m >= 1,
    ensures
        pow2(lg(m)) <= m < pow2(lg(m) + 1),
    decreases m,
{
    lemma2_to64();
    if m < 2 {
    } else {
        lemma_lg_bounds(m / 2);
        lemma_pow2_unfold(lg(m));
        lemma_pow2_unfold(lg(m) + 1);
    }
}

/// The `width`-bit encoding of `m`, most significant bit first.
pub open spec fn fixed_bits(width: nat, m: nat) -> Seq<bool>
    decreases width,
{
    if width == 0 {
        Seq::empty()
    } else {
        fixed_bits((width - 1) as nat, m / 2).push(m % 2 == 1)
    }
}

pub proof fn lemma_fixed_bits_val(width: nat, m: nat)
    requires
        m < pow2(width),
    ensures
        fixed_bits(width, m).len() == width,
        bits_val(fixed_bits(width, m)) == m,
    decreases width,
{
    if width == 0 {
        lemma2_to64();
    } else {
        lemma_pow2_unfold(width);
        lemma_fixed_bits_val((width - 1) as nat, m / 2);
        let s = fixed_bits((width - 1) as nat, m / 2);
        assert(s.push(m % 2 == 1).drop_last() =~= s);
    }
}

/// The Exp-Golomb encoding of `n`: `k` zero bits, a one bit, and the
/// `k`-bit suffix of `n + 1 - 2^k`, where `k` is the floor log of `n + 1`.
pub open spec fn golomb_bits(n: u32) -> Seq<bool> {
    let k = lg((n + 1) as nat);
    Seq::new(k, |i: int| false) + seq![true] + fixed_bits(k, (n + 1 - pow2(k)) as nat)
}

/// Reading an unsigned Exp-Golomb code from the encoding of `n` gives
/// back `n`, whatever bits follow the encoding.
pub proof fn lemma_exp_golomb_round_trip(n: u32, rest: Seq<bool>)
    requires
        n < 0xFFFF_FFFFu32,
    ensures
        ue_parse(golomb_bits(n) + rest) matches Some(p) && p.0 == n && p.1 == golomb_bits(
            n,
        ).len() as int,
{
    let k = lg((n + 1) as nat);
    let m = (n + 1 - pow2(k)) as nat;
    lemma_lg_bounds((n + 1) as nat);
    lemma2_to64();
    if k != 32 {
        if k < 32 {
            lemma_pow2_strictly_increases(k, 32);
        } else {
            lemma_pow2_strictly_increases(32, k);
        }
    }
    assert(k <= 31);
    lemma_pow2_unfold(k + 1);
    lemma_fixed_bits_val(k, m);
    let s = golomb_bits(n) + rest;
    assert(s[k as int]);
    assert(forall|j: int| 0 <= j < k ==> !s[j]);
    lemma_leading_zeros_of_prefix(s, k);
    assert(s.subrange(k as int + 1, 2 * (k as int) + 1) =~= fixed_bits(k, m));
}

} // verus!
