//! Verified string helpers: decimal and hexadecimal rendering, equality,
//! searching and trimming over `&str` views.

use vstd::prelude::*;

verus! {

use vstd::string::StrSliceExecFns;
use vstd::string::StringExecFns;

/// ASCII whitespace, as the protocol's lines use it.
pub open spec fn is_ws(c: char) -> bool {
    c == ' ' || c == '\t' || c == '\n' || c == '\r' || c == '\u{b}' || c == '\u{c}'
}

pub fn ws_char(c: char) -> (r: bool)
    ensures
        r == is_ws(c),
{
    c == ' ' || c == '\t' || c == '\n' || c == '\r' || c == '\u{b}' || c == '\u{c}'
}

/// The decimal digit character for `d`.
pub open spec fn dec_digit(d: nat) -> char {
    if d == 0 {
        '0'
    } else if d == 1 {
        '1'
    } else if d == 2 {
        '2'
    } else if d == 3 {
        '3'
    } else if d == 4 {
        '4'
    } else if d == 5 {
        '5'
    } else if d == 6 {
        '6'
    } else if d == 7 {
        '7'
    } else if d == 8 {
        '8'
    } else {
        '9'
    }
}

/// The decimal rendering of `n`, without leading zeros.
pub open spec fn dec_str(n: nat) -> Seq<char>
    decreases n,
{
    if n < 10 {
        seq![dec_digit(n)]
    } else {
        dec_str(n / 10) + seq![dec_digit(n % 10)]
    }
}

/// The lowercase hexadecimal digit character for `d`.
pub open spec fn hex_digit(d: nat) -> char {
    if d < 10 {
        dec_digit(d)
    } else if d == 10 {
        'a'
    } else if d == 11 {
        'b'
    } else if d == 12 {
        'c'
    } else if d == 13 {
        'd'
    } else if d == 14 {
        'e'
    } else {
        'f'
    }
}

/// The lowercase hexadecimal rendering of `n`, without leading zeros.
pub open spec fn hex_str(n: nat) -> Seq<char>
    decreases n,
{
    if n < 16 {
        seq![hex_digit(n)]
    } else {
        hex_str(n / 16) + seq![hex_digit(n % 16)]
    }
}

/// Two hexadecimal digits for one byte.
pub open spec fn hex2(b: u8) -> Seq<char> {
    seq![hex_digit((b / 16) as nat), hex_digit((b % 16) as nat)]
}

fn append_dec_digit(s: &mut String, d: u8)
    requires
        d < 10,
    ensures
        final(s)@ == old(s)@ + seq![dec_digit(d as nat)],
{
    if d == 0 {
        s.append("0");
        proof {
            reveal_strlit("0");
            assert("0"@ =~= seq![dec_digit(0nat)]);
        }
    } else if d == 1 {
        s.append("1");
        proof {
            reveal_strlit("1");
            assert("1"@ =~= seq![dec_digit(1nat)]);
        }
    } else if d == 2 {
        s.append("2");
        proof {
            reveal_strlit("2");
            assert("2"@ =~= seq![dec_digit(2nat)]);
        }
    } else if d == 3 {
        s.append("3");
        proof {
            reveal_strlit("3");
            assert("3"@ =~= seq![dec_digit(3nat)]);
        }
    } else if d == 4 {
        s.append("4");
        proof {
            reveal_strlit("4");
            assert("4"@ =~= seq![dec_digit(4nat)]);
        }
    } else if d == 5 {
        s.append("5");
        proof {
            reveal_strlit("5");
            assert("5"@ =~= seq![dec_digit(5nat)]);
        }
    } else if d == 6 {
        s.append("6");
        proof {
            reveal_strlit("6");
            assert("6"@ =~= seq![dec_digit(6nat)]);
        }
    } else if d == 7 {
        s.append("7");
        proof {
            reveal_strlit("7");
            assert("7"@ =~= seq![dec_digit(7nat)]);
        }
    } else if d == 8 {
        s.append("8");
        proof {
            reveal_strlit("8");
            assert("8"@ =~= seq![dec_digit(8nat)]);
        }
    } else {
        s.append("9");
        proof {
            reveal_strlit("9");
            assert("9"@ =~= seq![dec_digit(9nat)]);
        }
    }
}

fn append_hex_digit(s: &mut String, d: u8)
    requires
        d < 16,
    ensures
        final(s)@ == old(s)@ + seq![hex_digit(d as nat)],
{
    if d < 10 {
        append_dec_digit(s, d);
    } else if d == 10 {
        s.append("a");
        proof {
            reveal_strlit("a");
            assert("a"@ =~= seq![hex_digit(10nat)]);
        }
    } else if d == 11 {
        s.append("b");
        proof {
            reveal_strlit("b");
            assert("b"@ =~= seq![hex_digit(11nat)]);
        }
    } else if d == 12 {
        s.append("c");
        proof {
            reveal_strlit("c");
            assert("c"@ =~= seq![hex_digit(12nat)]);
        }
    } else if d == 13 {
        s.append("d");
        proof {
            reveal_strlit("d");
            assert("d"@ =~= seq![hex_digit(13nat)]);
        }
    } else if d == 14 {
        s.append("e");
        proof {
            reveal_strlit("e");
            assert("e"@ =~= seq![hex_digit(14nat)]);
        }
    } else {
        s.append("f");
        proof {
            reveal_strlit("f");
            assert("f"@ =~= seq![hex_digit(15nat)]);
        }
    }
}

/// Appends the decimal rendering of `n`.
pub fn append_dec_u64(s: &mut String, n: u64)
    ensures
        final(s)@ == old(s)@ + dec_str(n as nat),
    decreases n,
{
    if n >= 10 {
        append_dec_u64(s, n / 10);
    }
    append_dec_digit(s, (n % 10) as u8);
    proof {
        if n >= 10 {
            assert(old(s)@ + (dec_str((n / 10) as nat) + seq![dec_digit((n % 10) as nat)]) =~= (old(
                s,
            )@ + dec_str((n / 10) as nat)) + seq![dec_digit((n % 10) as nat)]);
        }
    }
}

/// Appends the lowercase hexadecimal rendering of `n`.
pub fn append_hex_u64(s: &mut String, n: u64)
    ensures
        final(s)@ == old(s)@ + hex_str(n as nat),
    decreases n,
{
    if n >= 16 {
        append_hex_u64(s, n / 16);
    }
    append_hex_digit(s, (n % 16) as u8);
    proof {
        if n >= 16 {
            assert(old(s)@ + (hex_str((n / 16) as nat) + seq![hex_digit((n % 16) as nat)]) =~= (old(
                s,
            )@ + hex_str((n / 16) as nat)) + seq![hex_digit((n % 16) as nat)]);
        }
    }
}

/// Appends the byte as exactly two lowercase hexadecimal digits.
pub fn append_hex_byte(s: &mut String, b: u8)
    ensures
        final(s)@ == old(s)@ + hex2(b),
{
    append_hex_digit(s, b / 16);
    append_hex_digit(s, b % 16);
    proof {
        assert(old(s)@ + hex2(b) =~= (old(s)@ + seq![hex_digit((b / 16) as nat)]) + seq![
            hex_digit((b % 16) as nat),
        ]);
    }
}

/// Character-wise string equality.
pub fn str_eq(a: &str, b: &str) -> (r: bool)
    ensures
        r == (a@ == b@),
{
    let la = a.unicode_len();
    let lb = b.unicode_len();
    if la != lb {
        return false;
    }
    let mut i: usize = 0;
    while i < la
        invariant
            la == a@.len(),
            lb == b@.len(),
            la == lb,
            i <= la,
            forall|j: int| 0 <= j < i ==> a@[j] == b@[j],
        decreases la - i,
    {
        let ca = a.get_char(i);
        let cb = b.get_char(i);
        if ca != cb {
            return false;
        }
        i = i + 1;
    }
    proof {
        assert(a@ =~= b@);
    }
    true
}

/// The pattern `p` stands in `s` at position `i`.
pub open spec fn has_sub_at(s: Seq<char>, p: Seq<char>, i: int) -> bool {
    0 <= i && i + p.len() <= s.len() && s.subrange(i, i + p.len()) == p
}

/// The pattern `p` stands somewhere in `s`.
pub open spec fn has_sub(s: Seq<char>, p: Seq<char>) -> bool {
    exists|i: int| has_sub_at(s, p, i)
}

/// First position where `p` stands in `a`, if any.
pub fn find_sub(a: &str, p: &str) -> (r: Option<usize>)
    ensures
        match r {
            Some(i) => has_sub_at(a@, p@, i as int) && forall|k: int|
                0 <= k < i ==> !has_sub_at(a@, p@, k),
            None => !has_sub(a@, p@),
        },
{
    let la = a.unicode_len();
    let lp = p.unicode_len();
    if lp > la {
        return None;
    }
    if lp == 0 {
        proof {
            assert(a@.subrange(0, 0) =~= p@);
        }
        return Some(0);
    }
    let mut i: usize = 0;
    while i <= la - lp
        invariant
            la == a@.len(),
            lp == p@.len(),
            1 <= lp <= la,
            i <= la - lp + 1,
            forall|k: int| 0 <= k < i ==> !has_sub_at(a@, p@, k),
        decreases la - lp - i + 1,
    {
        let mut j: usize = 0;
        let mut matches = true;
        while j < lp
            invariant
                la == a@.len(),
                lp == p@.len(),
                lp <= la,
                i <= la - lp,
                j <= lp,
                matches ==> forall|t: int| 0 <= t < j ==> a@[i + t] == p@[t],
                !matches ==> !has_sub_at(a@, p@, i as int),
            decreases lp - j,
        {
            if matches {
                let ca = a.get_char(i + j);
                let cb = p.get_char(j);
                if ca != cb {
                    proof {
                        assert(a@.subrange(i as int, i + p@.len())[j as int] == a@[i + j]);
                    }
                    matches = false;
                }
            }
            j = j + 1;
        }
        if matches {
            proof {
                assert(a@.subrange(i as int, i + p@.len()) =~= p@);
            }
            return Some(i);
        }
        i = i + 1;
    }
    proof {
        assert forall|k: int| !has_sub_at(a@, p@, k) by {
            if 0 <= k && k + p@.len() <= a@.len() {
                assert(k < i);
            }
        }
    }
    None
}

/// Whether the pattern `p` stands somewhere in `a`.
pub fn str_contains(a: &str, p: &str) -> (r: bool)
    ensures
        r == has_sub(a@, p@),
{
    match find_sub(a, p) {
        Some(i) => {
            proof {
                assert(has_sub_at(a@, p@, i as int));
            }
            true
        },
        None => false,
    }
}

/// `a` begins with `p`.
pub fn str_starts_with(a: &str, p: &str) -> (r: bool)
    ensures
        r == (p@.len() <= a@.len() && a@.subrange(0, p@.len() as int) == p@),
{
    let la = a.unicode_len();
    let lp = p.unicode_len();
    if lp > la {
        return false;
    }
    let mut j: usize = 0;
    while j < lp
        invariant
            la == a@.len(),
            lp == p@.len(),
            lp <= la,
            j <= lp,
            forall|t: int| 0 <= t < j ==> a@[t] == p@[t],
        decreases lp - j,
    {
        let ca = a.get_char(j);
        let cb = p.get_char(j);
        if ca != cb {
            proof {
                assert(a@.subrange(0, p@.len() as int)[j as int] == a@[j as int]);
            }
            return false;
        }
        j = j + 1;
    }
    proof {
        assert(a@.subrange(0, p@.len() as int) =~= p@);
    }
    true
}

/// First index at or after `i` holding `c`, or the length of `s`.
pub open spec fn first_char_idx(s: Seq<char>, c: char, i: int) -> int
    decreases s.len() - i,
{
    if i < 0 || i >= s.len() {
        s.len() as int
    } else if s[i] == c {
        i
    } else {
        first_char_idx(s, c, i + 1)
    }
}

pub proof fn lemma_first_char_idx(s: Seq<char>, c: char, i: int)
    requires
        0 <= i <= s.len(),
    ensures
        i <= first_char_idx(s, c, i) <= s.len(),
        first_char_idx(s, c, i) < s.len() ==> s[first_char_idx(s, c, i)] == c,
        forall|j: int| i <= j < first_char_idx(s, c, i) ==> s[j] != c,
    decreases s.len() - i,
{
    if i < s.len() && s[i] != c {
        lemma_first_char_idx(s, c, i + 1);
    }
}

/// Finds the first occurrence of `c` at or after `from`; the length of
/// `s` where there is none.
pub fn str_find_char(s: &str, c: char, from: usize) -> (r: usize)
    requires
        from <= s@.len(),
    ensures
        r == first_char_idx(s@, c, from as int),
        from <= r <= s@.len(),
        r < s@.len() ==> s@[r as int] == c,
        forall|j: int| from <= j < r ==> s@[j] != c,
{
    let len = s.unicode_len();
    let mut i = from;
    while i < len && s.get_char(i) != c
        invariant
            from <= i <= len,
            len == s@.len(),
            first_char_idx(s@, c, from as int) == first_char_idx(s@, c, i as int),
            forall|j: int| from <= j < i ==> s@[j] != c,
        decreases len - i,
    {
        i = i + 1;
    }
    proof {
        lemma_first_char_idx(s@, c, i as int);
    }
    i
}

/// First position where `p` stands in `s`; the length of `s` where it
/// stands nowhere.
pub open spec fn first_sub_idx(s: Seq<char>, p: Seq<char>) -> int
    decreases s.len(),
{
    if p.len() == 0 {
        0
    } else if has_sub_at(s, p, 0) {
        0
    } else if s.len() == 0 {
        0
    } else {
        1 + first_sub_idx(s.skip(1), p)
    }
}

proof fn lemma_has_sub_at_shift(s: Seq<char>, p: Seq<char>, k: int)
    requires
        s.len() >= 1,
        k >= 0,
    ensures
        has_sub_at(s, p, k + 1) == has_sub_at(s.skip(1), p, k),
{
    if k + 1 + p.len() <= s.len() {
        assert(s.subrange(k + 1, k + 1 + p.len() as int) =~= s.skip(1).subrange(
            k,
            k + p.len() as int,
        ));
    }
}

pub proof fn lemma_first_sub_idx(s: Seq<char>, p: Seq<char>)
    requires
        p.len() >= 1,
    ensures
        0 <= first_sub_idx(s, p) <= s.len(),
        has_sub(s, p) ==> has_sub_at(s, p, first_sub_idx(s, p)),
        !has_sub(s, p) ==> first_sub_idx(s, p) == s.len(),
        forall|k: int| 0 <= k < first_sub_idx(s, p) ==> !has_sub_at(s, p, k),
    decreases s.len(),
{
    if has_sub_at(s, p, 0) {
    } else if s.len() == 0 {
        assert forall|k: int| !has_sub_at(s, p, k) by {}
    } else {
        let t = s.skip(1);
        lemma_first_sub_idx(t, p);
        let i = first_sub_idx(s, p);
        assert(i == 1 + first_sub_idx(t, p));
        if has_sub(s, p) {
            let w = choose|w: int| has_sub_at(s, p, w);
            assert(w >= 1);
            lemma_has_sub_at_shift(s, p, w - 1);
            assert(has_sub_at(t, p, w - 1));
            lemma_has_sub_at_shift(s, p, first_sub_idx(t, p));
        } else {
            if has_sub(t, p) {
                let w = choose|w: int| has_sub_at(t, p, w);
                lemma_has_sub_at_shift(s, p, w);
            }
        }
        assert forall|k: int| 0 <= k < i implies !has_sub_at(s, p, k) by {
            if k >= 1 {
                lemma_has_sub_at_shift(s, p, k - 1);
            }
        }
    }
}

/// Finds the first position where `p` stands in `s`, as
/// `first_sub_idx` gives it.
pub fn str_find_sub(a: &str, p: &str) -> (r: usize)
    requires
        p@.len() >= 1,
    ensures
        r == first_sub_idx(a@, p@),
{
    proof {
        lemma_first_sub_idx(a@, p@);
    }
    match find_sub(a, p) {
        Some(i) => {
            proof {
                assert(has_sub_at(a@, p@, i as int));
                let f = first_sub_idx(a@, p@);
                assert(has_sub_at(a@, p@, f));
                if f < i {
                    assert(!has_sub_at(a@, p@, f));
                }
                if i < f {
                    assert(!has_sub_at(a@, p@, i as int));
                }
            }
            i
        },
        None => {
            a.unicode_len()
        },
    }
}

/// First index at or after `i` whose character is not ASCII whitespace.
pub open spec fn first_non_ws(s: Seq<char>, i: int) -> int
    decreases s.len() - i,
{
    if i < 0 || i >= s.len() {
        i
    } else if is_ws(s[i]) {
        first_non_ws(s, i + 1)
    } else {
        i
    }
}

/// Last index at or before `i` whose character is not ASCII whitespace,
/// or -1.
pub open spec fn last_non_ws(s: Seq<char>, i: int) -> int
    decreases i + 1,
{
    if i < 0 || i >= s.len() {
        i
    } else if is_ws(s[i]) {
        last_non_ws(s, i - 1)
    } else {
        i
    }
}

/// `s` with ASCII whitespace removed from both ends.
pub open spec fn trim_of(s: Seq<char>) -> Seq<char> {
    let a = first_non_ws(s, 0);
    if a == s.len() {
        Seq::empty()
    } else {
        s.subrange(a, last_non_ws(s, s.len() - 1) + 1)
    }
}

/// Trims ASCII whitespace from both ends.
pub fn str_trim<'a>(s: &'a str) -> (r: &'a str)
    ensures
        r@ == trim_of(s@),
{
    let len = s.unicode_len();
    let mut a: usize = 0;
    while a < len && ws_char(s.get_char(a))
        invariant
            len == s@.len(),
            a <= len,
            first_non_ws(s@, 0) == first_non_ws(s@, a as int),
        decreases len - a,
    {
        a = a + 1;
    }
    if a == len {
        proof {
            assert(first_non_ws(s@, a as int) == a);
        }
        let r = s.substring_char(0, 0);
        proof {
            assert(r@ =~= trim_of(s@));
        }
        return r;
    }
    let mut b: usize = len - 1;
    while b > a && ws_char(s.get_char(b))
        invariant
            len == s@.len(),
            a <= b < len,
            !is_ws(s@[a as int]),
            last_non_ws(s@, len - 1) == last_non_ws(s@, b as int),
        decreases b,
    {
        b = b - 1;
    }
    proof {
        assert(first_non_ws(s@, 0) == a);
        assert(last_non_ws(s@, len - 1) == b);
    }
    s.substring_char(a, b + 1)
}

/// `s` with every leading and trailing `c` removed.
pub open spec fn first_not_char(s: Seq<char>, c: char, i: int) -> int
    decreases s.len() - i,
{
    if i < 0 || i >= s.len() {
        i
    } else if s[i] == c {
        first_not_char(s, c, i + 1)
    } else {
        i
    }
}

pub open spec fn last_not_char(s: Seq<char>, c: char, i: int) -> int
    decreases i + 1,
{
    if i < 0 || i >= s.len() {
        i
    } else if s[i] == c {
        last_not_char(s, c, i - 1)
    } else {
        i
    }
}

pub open spec fn trim_char_of(s: Seq<char>, c: char) -> Seq<char> {
    let a = first_not_char(s, c, 0);
    if a == s.len() {
        Seq::empty()
    } else {
        s.subrange(a, last_not_char(s, c, s.len() - 1) + 1)
    }
}

/// Trims every leading and trailing occurrence of `c`.
pub fn str_trim_char<'a>(s: &'a str, c: char) -> (r: &'a str)
    ensures
        r@ == trim_char_of(s@, c),
{
    let len = s.unicode_len();
    let mut a: usize = 0;
    while a < len && s.get_char(a) == c
        invariant
            len == s@.len(),
            a <= len,
            first_not_char(s@, c, 0) == first_not_char(s@, c, a as int),
        decreases len - a,
    {
        a = a + 1;
    }
    if a == len {
        proof {
            assert(first_not_char(s@, c, a as int) == a);
        }
        let r = s.substring_char(0, 0);
        proof {
            assert(r@ =~= trim_char_of(s@, c));
        }
        return r;
    }
    let mut b: usize = len - 1;
    while b > a && s.get_char(b) == c
        invariant
            len == s@.len(),
            a <= b < len,
            s@[a as int] != c,
            last_not_char(s@, c, len - 1) == last_not_char(s@, c, b as int),
        decreases b,
    {
        b = b - 1;
    }
    proof {
        assert(first_not_char(s@, c, 0) == a);
        assert(last_not_char(s@, c, len - 1) == b);
    }
    s.substring_char(a, b + 1)
}

} // verus!
