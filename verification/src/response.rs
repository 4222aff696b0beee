//! RTSP responses: status line, headers in insertion order, optional
//! body with an injected `Content-Length`, and their serialization.

use vstd::prelude::*;

verus! {

use vstd::string::StrSliceExecFns;
use vstd::string::StringExecFns;
use crate::strutil::{str_eq, dec_str, append_dec_u64, trim_of, has_sub, has_sub_at, first_sub_idx, lemma_first_sub_idx, first_char_idx, lemma_first_char_idx};
use crate::request::{headers_view, spec_header_line, process_header_line};

#[verifier::external_type_specification]
#[verifier::external_body]
#[verifier::reject_recursive_types(K)]
#[verifier::reject_recursive_types(V)]
#[verifier::reject_recursive_types(S)]
pub struct ExLinkedHashMap<K, V, S>(linked_hash_map::LinkedHashMap<K, V, S>);

/// The entries of the map, in iteration order: insertion order, a
/// re-inserted key moving to the back.
pub uninterp spec fn lhm_entries(m: linked_hash_map::LinkedHashMap<String, String>) -> Seq<
    (Seq<char>, Seq<char>),
>;

/// The sequence with the first entry keyed `k` removed.
pub open spec fn entries_remove_key(
    hs: Seq<(Seq<char>, Seq<char>)>,
    k: Seq<char>,
) -> Seq<(Seq<char>, Seq<char>)>
    decreases hs.len(),
{
    if hs.len() == 0 {
        hs
    } else if hs[0].0 == k {
        hs.skip(1)
    } else {
        seq![hs[0]] + entries_remove_key(hs.skip(1), k)
    }
}

/// Relies on `LinkedHashMap::new`: the new map has no entries.
#[verifier::external_body]
pub(crate) fn lhm_new() -> (m: linked_hash_map::LinkedHashMap<String, String>)
    ensures
        lhm_entries(m) == Seq::<(Seq<char>, Seq<char>)>::empty(),
{
    linked_hash_map::LinkedHashMap::new()
}

/// Relies on `LinkedHashMap::insert`: a fresh key is appended at the
/// back; an existing key's entry moves to the back with the new value,
/// and its old value is returned.
#[verifier::external_body]
pub(crate) fn lhm_insert(
    m: &mut linked_hash_map::LinkedHashMap<String, String>,
    k: String,
    v: String,
) -> (r: Option<String>)
    ensures
        lhm_entries(*final(m)) == entries_remove_key(lhm_entries(*old(m)), k@) + seq![(k@, v@)],
        r is Some <==> exists|i: int|
            0 <= i < lhm_entries(*old(m)).len() && (#[trigger] lhm_entries(*old(m))[i]).0 == k@,
{
    m.insert(k, v)
}

/// Relies on `LinkedHashMap::iter`: the entries come in insertion order.
#[verifier::external_body]
pub(crate) fn lhm_to_pairs(m: &linked_hash_map::LinkedHashMap<String, String>) -> (r: Vec<
    (String, String),
>)
    ensures
        headers_view(r@) == lhm_entries(*m),
{
    m.iter().map(|(k, v)| (k.clone(), v.clone())).collect()
}

/// Relies on `LinkedHashMap`'s `PartialEq`: equal lengths and equal
/// entries in the same order.
#[verifier::external_body]
pub(crate) fn lhm_eq(
    a: &linked_hash_map::LinkedHashMap<String, String>,
    b: &linked_hash_map::LinkedHashMap<String, String>,
) -> (r: bool)
    ensures
        r == (lhm_entries(*a) == lhm_entries(*b)),
{
    a == b
}

/// The header block: one `key: value` line per entry, each ended by CRLF.
pub open spec fn headers_text(hs: Seq<(Seq<char>, Seq<char>)>) -> Seq<char>
    decreases hs.len(),
{
    if hs.len() == 0 {
        Seq::empty()
    } else {
        hs[0].0 + ": "@ + hs[0].1 + "\r\n"@ + headers_text(hs.skip(1))
    }
}

/// The whole response text: the status line, the headers, and, when a
/// body is present, a `Content-Length` header before the blank line.
pub open spec fn response_text(
    version: Seq<char>,
    code: Seq<char>,
    text: Seq<char>,
    hs: Seq<(Seq<char>, Seq<char>)>,
    body: Option<Seq<char>>,
) -> Seq<char> {
    let head = version + " "@ + code + " "@ + text + "\r\n"@ + headers_text(hs);
    match body {
        Some(b) => head + "Content-Length: "@ + dec_str(b.len()) + "\r\n\r\n"@ + b,
        None => head + "\r\n"@,
    }
}

/// The status text owed to each status code.
pub open spec fn status_text_of(code: Seq<char>) -> Seq<char> {
    if code == "200"@ {
        "OK"@
    } else if code == "400"@ {
        "Bad Request"@
    } else if code == "404"@ {
        "Not Found"@
    } else if code == "500"@ {
        "Internal Server Error"@
    } else {
        "Not Found"@
    }
}

pub open spec fn no_crlf(s: Seq<char>) -> bool {
    forall|j: int| 0 <= j < s.len() ==> s[j] != '\r' && s[j] != '\n'
}

pub open spec fn no_space(s: Seq<char>) -> bool {
    forall|j: int| 0 <= j < s.len() ==> s[j] != ' '
}

/// A header key that serialization keeps intact: no line break, no
/// colon, nothing trimmed away.
pub open spec fn clean_key(k: Seq<char>) -> bool {
    &&& no_crlf(k)
    &&& forall|j: int| 0 <= j < k.len() ==> k[j] != ':'
    &&& trim_of(k) == k
}

/// A header value that serialization keeps intact.
pub open spec fn clean_value(v: Seq<char>) -> bool {
    no_crlf(v) && trim_of(v) == v
}

pub open spec fn clean_headers(hs: Seq<(Seq<char>, Seq<char>)>) -> bool {
    forall|i: int|
        0 <= i < hs.len() ==> clean_key((#[trigger] hs[i]).0) && clean_value(hs[i].1)
}

/// A parsed response: status line parts, headers, body.
pub ghost struct RespParsed {
    pub version: Seq<char>,
    pub code: Seq<char>,
    pub text: Seq<char>,
    pub headers: Seq<(Seq<char>, Seq<char>)>,
    pub body: Seq<char>,
}

/// Parses header lines up to the blank line; the rest is the body.
pub open spec fn parse_resp_lines(s: Seq<char>) -> Option<
    (Seq<(Seq<char>, Seq<char>)>, Seq<char>),
>
    decreases s.len(),
{
    if !has_sub(s, "\r\n"@) {
        None
    } else {
        let i = first_sub_idx(s, "\r\n"@);
        if i == 0 {
            Some((Seq::empty(), s.skip(2)))
        } else if 1 <= i && i + 2 <= s.len() {
            match parse_resp_lines(s.skip(i + 2)) {
                None => None,
                Some((hs, b)) => Some((seq![spec_header_line(s.subrange(0, i))] + hs, b)),
            }
        } else {
            None
        }
    }
}

/// Parses a serialized response: the status line split at its first two
/// spaces, then headers until the blank line, then the body.
pub open spec fn parse_response(s: Seq<char>) -> Option<RespParsed> {
    if !has_sub(s, "\r\n"@) {
        None
    } else {
        let i = first_sub_idx(s, "\r\n"@);
        let status = s.subrange(0, i);
        let j1 = first_char_idx(status, ' ', 0);
        let j2 = first_char_idx(status, ' ', j1 + 1);
        if j1 >= status.len() || j2 >= status.len() {
            None
        } else if 0 <= i && i + 2 <= s.len() {
            match parse_resp_lines(s.skip(i + 2)) {
                None => None,
                Some((hs, b)) => Some(
                    RespParsed {
                        version: status.subrange(0, j1),
                        code: status.subrange(j1 + 1, j2),
                        text: status.skip(j2 + 1),
                        headers: hs,
                        body: b,
                    },
                ),
            }
        } else {
            None
        }
    }
}

/// A response read back from its wire form.
pub struct ParsedResponse {
    pub version: String,
    pub status_code: String,
    pub status_text: String,
    pub headers: Vec<(String, String)>,
    pub body: String,
}

impl ParsedResponse {
    pub open spec fn model(self) -> RespParsed {
        RespParsed {
            version: self.version@,
            code: self.status_code@,
            text: self.status_text@,
            headers: headers_view(self.headers@),
            body: self.body@,
        }
    }
}

/// Parses the header lines from `start` up to the blank line, and the
/// body after it, as `parse_resp_lines` describes them.
#[verifier::rlimit(100)]
fn parse_header_block(s: &str, start: usize) -> (r: Option<(Vec<(String, String)>, String)>)
    requires
        start <= s@.len(),
    ensures
        match r {
            Some(p) => parse_resp_lines(s@.skip(start as int)) == Some(
                (headers_view(p.0@), p.1@),
            ),
            None => parse_resp_lines(s@.skip(start as int)) is None,
        },
{
    let len = s.unicode_len();
    let mut headers: Vec<(String, String)> = Vec::new();
    let mut pos: usize = start;
    proof {
        assert(headers_view(headers@) =~= Seq::<(Seq<char>, Seq<char>)>::empty());
    }
    loop
        invariant
            len == s@.len(),
            start <= pos <= len,
            ({
                let here = parse_resp_lines(s@.skip(pos as int));
                &&& (here matches Some((hs, b)) ==> parse_resp_lines(s@.skip(start as int))
                    == Some((headers_view(headers@) + hs, b)))
                &&& (here is None ==> parse_resp_lines(s@.skip(start as int)) is None)
            }),
        decreases len - pos,
    {
        proof {
            reveal_strlit("\r\n");
        }
        let sub = s.substring_char(pos, len);
        let ghost rem = s@.skip(pos as int);
        proof {
            assert(sub@ =~= rem);
            lemma_first_sub_idx(rem, "\r\n"@);
        }
        let k = crate::strutil::str_find_sub(sub, "\r\n");
        let sublen = len - pos;
        if sublen < 2 || k > sublen - 2 {
            proof {
                if has_sub(rem, "\r\n"@) {
                    assert(has_sub_at(rem, "\r\n"@, first_sub_idx(rem, "\r\n"@)));
                }
                assert(parse_resp_lines(rem) is None);
            }
            return None;
        }
        proof {
            assert(has_sub_at(rem, "\r\n"@, k as int));
        }
        if k == 0 {
            let body = s.substring_char(pos + 2, len).to_owned();
            proof {
                assert(body@ =~= rem.skip(2));
                assert(headers_view(headers@) + Seq::<(Seq<char>, Seq<char>)>::empty()
                    =~= headers_view(headers@));
            }
            return Some((headers, body));
        }
        let line = s.substring_char(pos, pos + k);
        let ghost m_in = headers_view(headers@);
        let (key, val) = process_header_line(line);
        headers.push((key, val));
        proof {
            assert(line@ =~= rem.subrange(0, k as int));
            assert(rem.skip(k + 2) =~= s@.skip(pos + k + 2));
            if let Some((hs2, b2)) = parse_resp_lines(s@.skip(pos + k + 2)) {
                assert(parse_resp_lines(rem) == Some(
                    (seq![spec_header_line(rem.subrange(0, k as int))] + hs2, b2),
                ));
                assert(headers_view(headers@) =~= m_in + seq![
                    spec_header_line(rem.subrange(0, k as int)),
                ]);
                assert((m_in + seq![spec_header_line(rem.subrange(0, k as int))]) + hs2 =~= m_in
                    + (seq![spec_header_line(rem.subrange(0, k as int))] + hs2));
            } else {
                assert(parse_resp_lines(rem) is None);
            }
        }
        pos = pos + k + 2;
    }
}

/// Parses a serialized response, as `parse_response` describes it:
/// `None` where no status line, no second space in it, or no blank
/// line can be found.
#[verifier::rlimit(100)]
pub fn parse_response_str(s: &str) -> (r: Option<ParsedResponse>)
    ensures
        match r {
            Some(p) => parse_response(s@) == Some(p.model()),
            None => parse_response(s@) is None,
        },
{
    proof {
        reveal_strlit("\r\n");
        lemma_first_sub_idx(s@, "\r\n"@);
    }
    let len = s.unicode_len();
    let i0 = crate::strutil::str_find_sub(s, "\r\n");
    if len < 2 || i0 > len - 2 {
        proof {
            if has_sub(s@, "\r\n"@) {
                assert(has_sub_at(s@, "\r\n"@, first_sub_idx(s@, "\r\n"@)));
            }
        }
        return None;
    }
    proof {
        assert(has_sub_at(s@, "\r\n"@, i0 as int));
    }
    let status = s.substring_char(0, i0);
    proof {
        assert(status@ =~= s@.subrange(0, i0 as int));
    }
    let slen = status.unicode_len();
    let j1 = crate::strutil::str_find_char(status, ' ', 0);
    if j1 >= slen {
        return None;
    }
    let j2 = crate::strutil::str_find_char(status, ' ', j1 + 1);
    if j2 >= slen {
        return None;
    }
    let version = status.substring_char(0, j1).to_owned();
    let status_code = status.substring_char(j1 + 1, j2).to_owned();
    let status_text = status.substring_char(j2 + 1, slen).to_owned();
    proof {
        assert(status_text@ =~= status@.skip(j2 + 1));
    }
    match parse_header_block(s, i0 + 2) {
        Some((headers, body)) => Some(
            ParsedResponse { version, status_code, status_text, headers, body },
        ),
        None => None,
    }
}

proof fn lemma_first_sub_at(s: Seq<char>, p: Seq<char>, at: int)
    requires
        p.len() >= 1,
        has_sub_at(s, p, at),
        forall|k: int| 0 <= k < at ==> !has_sub_at(s, p, k),
    ensures
        first_sub_idx(s, p) == at,
        has_sub(s, p),
{
    assert(has_sub(s, p));
    lemma_first_sub_idx(s, p);
    let f = first_sub_idx(s, p);
    if f < at {
        assert(!has_sub_at(s, p, f));
    }
    if at < f {
        assert(!has_sub_at(s, p, at));
    }
}

proof fn lemma_first_char_at(s: Seq<char>, c: char, from: int, at: int)
    requires
        0 <= from <= at < s.len(),
        s[at] == c,
        forall|j: int| from <= j < at ==> s[j] != c,
    ensures
        first_char_idx(s, c, from) == at,
{
    lemma_first_char_idx(s, c, from);
    let f = first_char_idx(s, c, from);
    if f < at {
    }
    if at < f {
    }
}

/// The first CRLF of a CR-free line followed by CRLF stands right after
/// the line.
proof fn lemma_first_crlf(l: Seq<char>, rest: Seq<char>)
    requires
        forall|j: int| 0 <= j < l.len() ==> l[j] != '\r',
    ensures
        has_sub(l + "\r\n"@ + rest, "\r\n"@),
        first_sub_idx(l + "\r\n"@ + rest, "\r\n"@) == l.len(),
{
    reveal_strlit("\r\n");
    let s = l + "\r\n"@ + rest;
    assert(s.subrange(l.len() as int, l.len() as int + 2) =~= "\r\n"@);
    assert(has_sub_at(s, "\r\n"@, l.len() as int));
    assert forall|k: int| 0 <= k < l.len() implies !has_sub_at(s, "\r\n"@, k) by {
        if k + 2 <= s.len() {
            assert(s.subrange(k, k + 2)[0] == s[k]);
            assert(s[k] == l[k]);
        }
    }
    lemma_first_sub_at(s, "\r\n"@, l.len() as int);
}

/// Splitting a serialized header line gives back its key and value.
proof fn lemma_header_line_split(k: Seq<char>, v: Seq<char>)
    requires
        clean_key(k),
        clean_value(v),
    ensures
        spec_header_line(k + ": "@ + v) == (k, v),
{
    reveal_strlit(": ");
    let l = k + ": "@ + v;
    assert(l.subrange(k.len() as int, k.len() as int + 2) =~= ": "@);
    assert(has_sub_at(l, ": "@, k.len() as int));
    assert forall|t: int| 0 <= t < k.len() implies !has_sub_at(l, ": "@, t) by {
        if t + 2 <= l.len() {
            assert(l.subrange(t, t + 2)[0] == l[t]);
            assert(l[t] == k[t]);
        }
    }
    lemma_first_sub_at(l, ": "@, k.len() as int);
    assert(l.subrange(0, k.len() as int) =~= k);
    assert(l.skip(k.len() as int + 2) =~= v);
}

/// Appending one entry appends one line.
proof fn lemma_headers_text_append(hs: Seq<(Seq<char>, Seq<char>)>, e: (Seq<char>, Seq<char>))
    ensures
        headers_text(hs + seq![e]) == headers_text(hs) + (e.0 + ": "@ + e.1 + "\r\n"@),
    decreases hs.len(),
{
    if hs.len() == 0 {
        assert(hs + seq![e] =~= seq![e]);
        assert((seq![e]).skip(1) =~= Seq::<(Seq<char>, Seq<char>)>::empty());
        assert(headers_text(hs) + (e.0 + ": "@ + e.1 + "\r\n"@) =~= e.0 + ": "@ + e.1 + "\r\n"@
            + headers_text(Seq::empty()));
    } else {
        lemma_headers_text_append(hs.skip(1), e);
        assert((hs + seq![e]).skip(1) =~= hs.skip(1) + seq![e]);
        assert((hs + seq![e])[0] == hs[0]);
        assert(headers_text(hs + seq![e]) == hs[0].0 + ": "@ + hs[0].1 + "\r\n"@ + (headers_text(
            hs.skip(1),
        ) + (e.0 + ": "@ + e.1 + "\r\n"@)));
        assert(hs[0].0 + ": "@ + hs[0].1 + "\r\n"@ + (headers_text(hs.skip(1)) + (e.0 + ": "@ + e.1
            + "\r\n"@)) =~= (hs[0].0 + ": "@ + hs[0].1 + "\r\n"@ + headers_text(hs.skip(1))) + (e.0
            + ": "@ + e.1 + "\r\n"@));
    }
}

/// Every character the decimal rendering uses is a digit.
proof fn lemma_dec_str_digits(n: nat)
    ensures
        forall|j: int|
            0 <= j < dec_str(n).len() ==> {
                let c = #[trigger] dec_str(n)[j];
                c == '0' || c == '1' || c == '2' || c == '3' || c == '4' || c == '5' || c == '6'
                    || c == '7' || c == '8' || c == '9'
            },
    decreases n,
{
    if n >= 10 {
        lemma_dec_str_digits(n / 10);
        assert(forall|j: int|
            0 <= j < dec_str(n / 10).len() ==> dec_str(n)[j] == dec_str(n / 10)[j]);
    }
}

/// Parsing the header block and body of a serialized response gives the
/// entries and the body back.
proof fn lemma_parse_lines(hs: Seq<(Seq<char>, Seq<char>)>, body: Seq<char>)
    requires
        clean_headers(hs),
    ensures
        parse_resp_lines(headers_text(hs) + "\r\n"@ + body) == Some((hs, body)),
    decreases hs.len(),
{
    reveal_strlit("\r\n");
    reveal_strlit(": ");
    if hs.len() == 0 {
        let s = headers_text(hs) + "\r\n"@ + body;
        lemma_first_crlf(Seq::empty(), body);
        assert(Seq::<char>::empty() + "\r\n"@ + body =~= s);
        assert(first_sub_idx(s, "\r\n"@) == 0);
        assert(s.skip(2) =~= body);
    } else {
        let k = hs[0].0;
        let v = hs[0].1;
        let l = k + ": "@ + v;
        let rest = headers_text(hs.skip(1)) + "\r\n"@ + body;
        let s = headers_text(hs) + "\r\n"@ + body;
        assert(forall|j: int| 0 <= j < hs.skip(1).len() ==> hs.skip(1)[j] == hs[j + 1]);
        assert(clean_headers(hs.skip(1)));
        lemma_parse_lines(hs.skip(1), body);
        assert forall|j: int| 0 <= j < l.len() implies l[j] != '\r' by {
            if j < k.len() {
                assert(l[j] == k[j]);
            } else if j < k.len() + 2 {
                assert(l[j] == ": "@[j - k.len()]);
            } else {
                assert(l[j] == v[j - k.len() - 2]);
            }
        }
        assert(s =~= l + "\r\n"@ + rest);
        lemma_first_crlf(l, rest);
        assert(first_sub_idx(s, "\r\n"@) == l.len());
        assert(l.len() >= 2);
        assert(s.subrange(0, l.len() as int) =~= l);
        assert(s.skip(l.len() as int + 2) =~= rest);
        lemma_header_line_split(k, v);
        assert(seq![(k, v)] + hs.skip(1) =~= hs);
    }
}

/// Serializing a response and parsing the text gives back the status
/// code, the headers in order (with the injected `Content-Length` last
/// where a body is present), and the body.
pub proof fn lemma_response_round_trip(
    version: Seq<char>,
    code: Seq<char>,
    text: Seq<char>,
    hs: Seq<(Seq<char>, Seq<char>)>,
    body: Option<Seq<char>>,
)
    requires
        no_space(version),
        no_crlf(version),
        no_space(code),
        no_crlf(code),
        no_crlf(text),
        clean_headers(hs),
    ensures
        ({
            let t = response_text(version, code, text, hs, body);
            &&& parse_response(t) matches Some(p)
            &&& p.version == version
            &&& p.code == code
            &&& p.text == text
            &&& p.headers == hs + (match body {
                Some(b) => seq![("Content-Length"@, dec_str(b.len()))],
                None => Seq::<(Seq<char>, Seq<char>)>::empty(),
            })
            &&& p.body == (match body {
                Some(b) => b,
                None => Seq::<char>::empty(),
            })
        }),
{
    reveal_strlit("\r\n");
    reveal_strlit(": ");
    reveal_strlit(" ");
    reveal_strlit("Content-Length");
    reveal_strlit("Content-Length: ");
    reveal_strlit("\r\n\r\n");
    let t = response_text(version, code, text, hs, body);
    let status = version + " "@ + code + " "@ + text;
    let cl_key = "Content-Length"@;
    let hs2 = match body {
        Some(b) => hs + seq![(cl_key, dec_str(b.len()))],
        None => hs,
    };
    let bodyseq: Seq<char> = match body {
        Some(b) => b,
        None => Seq::empty(),
    };
    // the Content-Length entry is clean
    assert(cl_key.len() == 14);
    assert forall|j: int| 0 <= j < cl_key.len() implies cl_key[j] != ':' && cl_key[j] != '\r'
        && cl_key[j] != '\n' by {}
    assert(!crate::strutil::is_ws(cl_key[0]));
    assert(!crate::strutil::is_ws(cl_key[13]));
    assert(crate::strutil::first_non_ws(cl_key, 0) == 0);
    assert(crate::strutil::last_non_ws(cl_key, 13) == 13);
    assert(cl_key.subrange(0, 14) =~= cl_key);
    assert(trim_of(cl_key) == cl_key);
    assert(clean_key(cl_key));
    if let Some(b) = body {
        let d = dec_str(b.len());
        lemma_dec_str_digits(b.len());
        assert(d.len() >= 1);
        assert(no_crlf(d));
        assert(!crate::strutil::is_ws(d[0]));
        assert(!crate::strutil::is_ws(d[d.len() - 1]));
        assert(crate::strutil::first_non_ws(d, 0) == 0);
        assert(crate::strutil::last_non_ws(d, d.len() - 1) == d.len() - 1);
        assert(d.subrange(0, d.len() as int) =~= d);
        assert(trim_of(d) == d);
        assert(clean_value(d));
    }
    assert(clean_headers(hs2)) by {
        assert(forall|i: int| 0 <= i < hs.len() ==> hs2[i] == hs[i]);
        if body is Some {
            assert(hs2[hs.len() as int] == (cl_key, dec_str(body.unwrap().len())));
        }
    }
    // t is the status line, then the header block of hs2, then the body
    if let Some(b) = body {
        lemma_headers_text_append(hs, (cl_key, dec_str(b.len())));
        assert("Content-Length: "@ =~= cl_key + ": "@);
        assert("\r\n\r\n"@ =~= "\r\n"@ + "\r\n"@);
        assert(t =~= status + "\r\n"@ + (headers_text(hs2) + "\r\n"@ + bodyseq));
    } else {
        assert(t =~= status + "\r\n"@ + (headers_text(hs2) + "\r\n"@ + bodyseq));
    }
    let tail = headers_text(hs2) + "\r\n"@ + bodyseq;
    // the first CRLF ends the status line
    assert forall|j: int| 0 <= j < status.len() implies status[j] != '\r' by {
        if j < version.len() {
            assert(status[j] == version[j]);
        } else if j == version.len() {
            assert(status[j] == ' ');
        } else if j < version.len() + 1 + code.len() {
            assert(status[j] == code[j - version.len() - 1]);
        } else if j == version.len() + 1 + code.len() {
            assert(status[j] == ' ');
        } else {
            assert(status[j] == text[j - version.len() - code.len() - 2]);
        }
    }
    assert(status + "\r\n"@ + tail =~= t);
    lemma_first_crlf(status, tail);
    let i = first_sub_idx(t, "\r\n"@);
    assert(i == status.len());
    assert(t.subrange(0, i) =~= status);
    assert(t.skip(i + 2) =~= tail);
    // the status line splits at its two spaces
    let vlen = version.len() as int;
    let clen = code.len() as int;
    assert(status[vlen] == ' ');
    assert(forall|j: int| 0 <= j < vlen ==> status[j] == version[j] && status[j] != ' ');
    lemma_first_char_at(status, ' ', 0, vlen);
    assert(status[vlen + 1 + clen] == ' ');
    assert(forall|j: int|
        vlen + 1 <= j < vlen + 1 + clen ==> status[j] == code[j - vlen - 1] && status[j] != ' ');
    lemma_first_char_at(status, ' ', vlen + 1, vlen + 1 + clen);
    assert(status.subrange(0, vlen) =~= version);
    assert(status.subrange(vlen + 1, vlen + 1 + clen) =~= code);
    assert(status.skip(vlen + 1 + clen + 1) =~= text);
    // the header block and body parse back
    lemma_parse_lines(hs2, bodyseq);
    assert(parse_resp_lines(t.skip(i + 2)) == Some((hs2, bodyseq)));
}

pub struct RtspResponse {
    pub version: String,
    pub status_code: String,
    pub status_text: String,
    pub headers: Option<linked_hash_map::LinkedHashMap<String, String>>,
    pub body: Option<String>,
}

impl RtspResponse {
    pub open spec fn headers_model(self) -> Seq<(Seq<char>, Seq<char>)> {
        match self.headers {
            Some(m) => lhm_entries(m),
            None => Seq::empty(),
        }
    }

    pub open spec fn body_model(self) -> Option<Seq<char>> {
        match self.body {
            Some(b) => Some(b@),
            None => None,
        }
    }

    /// A response with the given status code, its owed status text, and
    /// the given headers and body.
    pub fn new(
        status_code: &str,
        headers: Option<linked_hash_map::LinkedHashMap<String, String>>,
        body: Option<String>,
    ) -> (r: RtspResponse)
        ensures
            r.version@ == "RTSP/1.0"@,
            r.status_code@ == status_code@,
            r.status_text@ == status_text_of(status_code@),
            r.headers == headers,
            r.body == body,
    {
        let version = String::from_str("RTSP/1.0");
        let status_text = if str_eq(status_code, "200") {
            String::from_str("OK")
        } else if str_eq(status_code, "400") {
            String::from_str("Bad Request")
        } else if str_eq(status_code, "404") {
            String::from_str("Not Found")
        } else if str_eq(status_code, "500") {
            String::from_str("Internal Server Error")
        } else {
            String::from_str("Not Found")
        };
        RtspResponse {
            version,
            status_code: String::from_str(status_code),
            status_text,
            headers,
            body,
        }
    }

    /// The body, or the empty string where there is none.
    pub fn body(&self) -> (r: &str)
        ensures
            r@ == match self.body_model() {
                Some(b) => b,
                None => Seq::<char>::empty(),
            },
    {
        match &self.body {
            Some(b) => b.as_str(),
            None => {
                let r = "";
                proof {
                    reveal_strlit("");
                    assert(r@ =~= Seq::<char>::empty());
                }
                r
            },
        }
    }

    /// The response's wire form. Headers are written in insertion
    /// order; with a body present, `Content-Length` comes last before
    /// the blank line. A response without headers serializes as one
    /// with none.
    pub fn serialize(&self) -> (r: String)
        ensures
            r@ == response_text(
                self.version@,
                self.status_code@,
                self.status_text@,
                self.headers_model(),
                self.body_model(),
            ),
    {
        let mut out = String::new();
        out.append(self.version.as_str());
        out.append(" ");
        out.append(self.status_code.as_str());
        out.append(" ");
        out.append(self.status_text.as_str());
        out.append("\r\n");
        let ghost head0 = self.version@ + " "@ + self.status_code@ + " "@ + self.status_text@
            + "\r\n"@;
        proof {
            assert(out@ =~= head0);
        }
        let hv = self.headers_model_pairs();
        let ghost entries = self.headers_model();
        let n = hv.len();
        let mut i: usize = 0;
        proof {
            assert(entries.skip(0) =~= entries);
        }
        while i < n
            invariant
                n == hv@.len(),
                i <= n,
                headers_view(hv@) == entries,
                out@ + headers_text(entries.skip(i as int)) == head0 + headers_text(entries),
            decreases n - i,
        {
            proof {
                assert(entries.skip(i as int)[0] == entries[i as int]);
                assert(entries.skip(i as int).skip(1) =~= entries.skip(i + 1));
                assert(entries[i as int] == (hv@[i as int].0@, hv@[i as int].1@));
            }
            out.append(hv[i].0.as_str());
            out.append(": ");
            out.append(hv[i].1.as_str());
            out.append("\r\n");
            proof {
                assert(out@ + headers_text(entries.skip(i + 1)) =~= head0 + headers_text(entries));
            }
            i = i + 1;
        }
        proof {
            assert(headers_text(entries.skip(n as int)) =~= Seq::<char>::empty());
            assert(out@ =~= head0 + headers_text(entries));
        }
        match &self.body {
            Some(b) => {
                out.append("Content-Length: ");
                let blen = b.unicode_len();
                append_dec_u64(&mut out, blen as u64);
                out.append("\r\n\r\n");
                out.append(b.as_str());
                proof {
                    assert(out@ =~= response_text(
                        self.version@,
                        self.status_code@,
                        self.status_text@,
                        self.headers_model(),
                        self.body_model(),
                    ));
                }
            },
            None => {
                out.append("\r\n");
                proof {
                    assert(out@ =~= response_text(
                        self.version@,
                        self.status_code@,
                        self.status_text@,
                        self.headers_model(),
                        self.body_model(),
                    ));
                }
            },
        }
        out
    }

    /// The headers as a vector of pairs, in order; empty where there are
    /// no headers.
    pub fn headers_model_pairs(&self) -> (r: Vec<(String, String)>)
        ensures
            headers_view(r@) == self.headers_model(),
    {
        match &self.headers {
            Some(m) => lhm_to_pairs(m),
            None => {
                let r: Vec<(String, String)> = Vec::new();
                proof {
                    assert(headers_view(r@) =~= Seq::<(Seq<char>, Seq<char>)>::empty());
                }
                r
            },
        }
    }
}

impl Default for RtspResponse {
    fn default() -> (r: RtspResponse)
        ensures
            r.version@ == "RTSP/1.0"@,
            r.status_code@ == "200"@,
            r.status_text@ == "OK"@,
            r.headers is None,
            r.body is None,
    {
        RtspResponse {
            version: String::from_str("RTSP/1.0"),
            status_code: String::from_str("200"),
            status_text: String::from_str("OK"),
            headers: None,
            body: None,
        }
    }
}

impl PartialEq for RtspResponse {
    fn eq(&self, other: &RtspResponse) -> (r: bool) {
        let fields_eq = str_eq(self.version.as_str(), other.version.as_str()) && str_eq(
            self.status_code.as_str(),
            other.status_code.as_str(),
        ) && str_eq(self.status_text.as_str(), other.status_text.as_str());
        if !fields_eq {
            return false;
        }
        let headers_eq = match (&self.headers, &other.headers) {
            (None, None) => true,
            (Some(a), Some(b)) => lhm_eq(a, b),
            _ => false,
        };
        if !headers_eq {
            return false;
        }
        match (&self.body, &other.body) {
            (None, None) => true,
            (Some(a), Some(b)) => str_eq(a.as_str(), b.as_str()),
            _ => false,
        }
    }
}

impl vstd::std_specs::cmp::PartialEqSpecImpl for RtspResponse {
    open spec fn obeys_eq_spec() -> bool {
        true
    }

    open spec fn eq_spec(&self, other: &RtspResponse) -> bool {
        &&& self.version@ == other.version@
        &&& self.status_code@ == other.status_code@
        &&& self.status_text@ == other.status_text@
        &&& (self.headers is Some <==> other.headers is Some)
        &&& self.headers_model() == other.headers_model()
        &&& self.body_model() == other.body_model()
    }
}

} // verus!
