//! RTSP request parsing: the request line `METHOD URL RTSP/1.0`, then
//! `Key: Value` header lines; a blank line ends the headers, and the
//! remaining text is the body.

use vstd::prelude::*;

verus! {

use vstd::string::StrSliceExecFns;
use crate::strutil::{
    is_ws,
    ws_char,
    first_non_ws,
    first_char_idx,
    lemma_first_char_idx,
    str_find_char,
    first_sub_idx,
    lemma_first_sub_idx,
    str_find_sub,
    has_sub,
    has_sub_at,
    str_contains,
    str_eq,
    str_trim,
    trim_of,
};

#[derive(Debug, PartialEq, Eq, Structural)]
pub enum Method {
    Options,
    Describe,
    Announce,
    Setup,
    Play,
    Pause,
    Teardown,
    Uninitialized,
}

pub open spec fn method_of(s: Seq<char>) -> Method {
    if s == "OPTIONS"@ {
        Method::Options
    } else if s == "DESCRIBE"@ {
        Method::Describe
    } else if s == "ANNOUNCE"@ {
        Method::Announce
    } else if s == "SETUP"@ {
        Method::Setup
    } else if s == "PLAY"@ {
        Method::Play
    } else if s == "PAUSE"@ {
        Method::Pause
    } else if s == "TEARDOWN"@ {
        Method::Teardown
    } else {
        Method::Uninitialized
    }
}

pub open spec fn method_str(m: Method) -> Seq<char> {
    match m {
        Method::Options => "OPTIONS"@,
        Method::Describe => "DESCRIBE"@,
        Method::Announce => "ANNOUNCE"@,
        Method::Setup => "SETUP"@,
        Method::Play => "PLAY"@,
        Method::Pause => "PAUSE"@,
        Method::Teardown => "TEARDOWN"@,
        Method::Uninitialized => "Uninitialized"@,
    }
}

impl Method {
    /// The method named by `s`, or `Uninitialized`.
    pub fn parse(s: &str) -> (m: Method)
        ensures
            m == method_of(s@),
    {
        if str_eq(s, "OPTIONS") {
            Method::Options
        } else if str_eq(s, "DESCRIBE") {
            Method::Describe
        } else if str_eq(s, "ANNOUNCE") {
            Method::Announce
        } else if str_eq(s, "SETUP") {
            Method::Setup
        } else if str_eq(s, "PLAY") {
            Method::Play
        } else if str_eq(s, "PAUSE") {
            Method::Pause
        } else if str_eq(s, "TEARDOWN") {
            Method::Teardown
        } else {
            Method::Uninitialized
        }
    }

    /// The method's protocol name.
    pub fn as_str(&self) -> (r: &'static str)
        ensures
            r@ == method_str(*self),
    {
        match self {
            Method::Options => "OPTIONS",
            Method::Describe => "DESCRIBE",
            Method::Announce => "ANNOUNCE",
            Method::Setup => "SETUP",
            Method::Play => "PLAY",
            Method::Pause => "PAUSE",
            Method::Teardown => "TEARDOWN",
            Method::Uninitialized => "Uninitialized",
        }
    }
}

impl From<&str> for Method {
    fn from(s: &str) -> (m: Method) {
        Method::parse(s)
    }
}

impl vstd::std_specs::convert::FromSpecImpl<&str> for Method {
    open spec fn obeys_from_spec() -> bool {
        true
    }

    open spec fn from_spec(s: &str) -> Method {
        method_of(s@)
    }
}

#[derive(Debug, PartialEq, Eq, Structural)]
pub enum Version {
    V1_0,
    V2_0,
    Uninitialized,
}

pub open spec fn version_of(s: Seq<char>) -> Version {
    if s == "RTSP/1.0"@ {
        Version::V1_0
    } else {
        Version::Uninitialized
    }
}

impl Version {
    /// The version named by `s`: only `RTSP/1.0` is recognized.
    pub fn parse(s: &str) -> (v: Version)
        ensures
            v == version_of(s@),
    {
        if str_eq(s, "RTSP/1.0") {
            Version::V1_0
        } else {
            Version::Uninitialized
        }
    }
}

impl From<&str> for Version {
    fn from(s: &str) -> (v: Version) {
        Version::parse(s)
    }
}

impl vstd::std_specs::convert::FromSpecImpl<&str> for Version {
    open spec fn obeys_from_spec() -> bool {
        true
    }

    open spec fn from_spec(s: &str) -> Version {
        version_of(s@)
    }
}

#[derive(Debug)]
pub enum Url {
    Path(String),
}

impl Url {
    pub open spec fn path(self) -> Seq<char> {
        match self {
            Url::Path(s) => s@,
        }
    }
}

impl PartialEq for Url {
    fn eq(&self, other: &Url) -> (r: bool) {
        match (self, other) {
            (Url::Path(a), Url::Path(b)) => str_eq(a.as_str(), b.as_str()),
        }
    }
}

impl vstd::std_specs::cmp::PartialEqSpecImpl for Url {
    open spec fn obeys_eq_spec() -> bool {
        true
    }

    open spec fn eq_spec(&self, other: &Url) -> bool {
        self.path() == other.path()
    }
}

/// First index at or after `i` that holds whitespace, or the length.
pub open spec fn tok_end(s: Seq<char>, i: int) -> int
    decreases s.len() - i,
{
    if i < 0 || i >= s.len() {
        s.len() as int
    } else if !is_ws(s[i]) {
        tok_end(s, i + 1)
    } else {
        i
    }
}

/// Finds the first non-whitespace index at or after `from`.
fn skip_ws_from(s: &str, from: usize) -> (r: usize)
    requires
        from <= s@.len(),
    ensures
        r == first_non_ws(s@, from as int),
        from <= r <= s@.len(),
{
    let len = s.unicode_len();
    let mut i = from;
    while i < len && ws_char(s.get_char(i))
        invariant
            from <= i <= len,
            len == s@.len(),
            first_non_ws(s@, from as int) == first_non_ws(s@, i as int),
        decreases len - i,
    {
        i = i + 1;
    }
    i
}

/// Finds the first whitespace index at or after `from`.
fn token_end_from(s: &str, from: usize) -> (r: usize)
    requires
        from <= s@.len(),
    ensures
        r == tok_end(s@, from as int),
        from <= r <= s@.len(),
{
    let len = s.unicode_len();
    let mut i = from;
    while i < len && !ws_char(s.get_char(i))
        invariant
            from <= i <= len,
            len == s@.len(),
            tok_end(s@, from as int) == tok_end(s@, i as int),
        decreases len - i,
    {
        i = i + 1;
    }
    i
}

/// The first three whitespace-separated tokens of the request line.
pub open spec fn spec_req_line(l: Seq<char>) -> Option<(Seq<char>, Seq<char>, Seq<char>)> {
    let a0 = first_non_ws(l, 0);
    let e0 = tok_end(l, a0);
    let a1 = first_non_ws(l, e0);
    let e1 = tok_end(l, a1);
    let a2 = first_non_ws(l, e1);
    let e2 = tok_end(l, a2);
    if a0 >= l.len() || a1 >= l.len() || a2 >= l.len() {
        None
    } else {
        Some((l.subrange(a0, e0), l.subrange(a1, e1), l.subrange(a2, e2)))
    }
}

/// Splits the request line into method, URL and version; `None` where it
/// holds fewer than three tokens.
pub fn process_req_line(s: &str) -> (r: Option<(Method, Url, Version)>)
    ensures
        match r {
            Some((m, u, v)) => spec_req_line(s@) matches Some(t) && m == method_of(t.0) && u.path()
                == t.1 && v == version_of(t.2),
            None => spec_req_line(s@) is None,
        },
{
    let len = s.unicode_len();
    let a0 = skip_ws_from(s, 0);
    if a0 >= len {
        return None;
    }
    let e0 = token_end_from(s, a0);
    let a1 = skip_ws_from(s, e0);
    if a1 >= len {
        return None;
    }
    let e1 = token_end_from(s, a1);
    let a2 = skip_ws_from(s, e1);
    if a2 >= len {
        return None;
    }
    let e2 = token_end_from(s, a2);
    let m = Method::parse(s.substring_char(a0, e0));
    let u = s.substring_char(a1, e1).to_owned();
    let v = Version::parse(s.substring_char(a2, e2));
    Some((m, Url::Path(u), v))
}

/// The header line split at the first `": "`, both sides trimmed; a line
/// without `": "` is all key, with an empty value.
pub open spec fn spec_header_line(l: Seq<char>) -> (Seq<char>, Seq<char>) {
    if has_sub(l, ": "@) {
        let i = first_sub_idx(l, ": "@);
        (trim_of(l.subrange(0, i)), trim_of(l.skip(i + 2)))
    } else {
        (trim_of(l), Seq::empty())
    }
}

/// Splits one header line into its trimmed key and value.
pub fn process_header_line(s: &str) -> (r: (String, String))
    ensures
        (r.0@, r.1@) == spec_header_line(s@),
{
    proof {
        reveal_strlit(": ");
        lemma_first_sub_idx(s@, ": "@);
    }
    let len = s.unicode_len();
    let idx = str_find_sub(s, ": ");
    if idx < len {
        proof {
            assert(has_sub_at(s@, ": "@, idx as int));
        }
        let key = str_trim(s.substring_char(0, idx)).to_owned();
        let val = str_trim(s.substring_char(idx + 2, len)).to_owned();
        proof {
            assert(s@.subrange(idx as int + 2, len as int) =~= s@.skip(idx + 2));
        }
        (key, val)
    } else {
        proof {
            if has_sub(s@, ": "@) {
                assert(has_sub_at(s@, ": "@, first_sub_idx(s@, ": "@)));
            }
        }
        let key = str_trim(s).to_owned();
        let val = String::new();
        (key, val)
    }
}

/// Header sequences as key/value character sequences.
pub open spec fn headers_view(hs: Seq<(String, String)>) -> Seq<(Seq<char>, Seq<char>)> {
    Seq::new(hs.len(), |i: int| (hs[i].0@, hs[i].1@))
}

/// Inserting replaces the value of the first entry with the same key, in
/// place, and otherwise appends a new entry.
pub open spec fn headers_insert_spec(
    hs: Seq<(Seq<char>, Seq<char>)>,
    k: Seq<char>,
    v: Seq<char>,
) -> Seq<(Seq<char>, Seq<char>)>
    decreases hs.len(),
{
    if hs.len() == 0 {
        seq![(k, v)]
    } else if hs[0].0 == k {
        seq![(k, v)] + hs.skip(1)
    } else {
        seq![hs[0]] + headers_insert_spec(hs.skip(1), k, v)
    }
}

/// The value of the first entry whose key is `k`.
pub open spec fn headers_lookup(hs: Seq<(Seq<char>, Seq<char>)>, k: Seq<char>) -> Option<Seq<char>>
    decreases hs.len(),
{
    if hs.len() == 0 {
        None
    } else if hs[0].0 == k {
        Some(hs[0].1)
    } else {
        headers_lookup(hs.skip(1), k)
    }
}

proof fn lemma_headers_insert_found(hs: Seq<(Seq<char>, Seq<char>)>, k: Seq<char>, v: Seq<char>, idx: int)
    requires
        0 <= idx < hs.len(),
        hs[idx].0 == k,
        forall|t: int| 0 <= t < idx ==> hs[t].0 != k,
    ensures
        headers_insert_spec(hs, k, v) == hs.update(idx, (k, v)),
    decreases idx,
{
    if idx == 0 {
        assert(seq![(k, v)] + hs.skip(1) =~= hs.update(0, (k, v)));
    } else {
        let t = hs.skip(1);
        assert(forall|j: int| 0 <= j < idx - 1 ==> t[j] == hs[j + 1]);
        lemma_headers_insert_found(t, k, v, idx - 1);
        assert(seq![hs[0]] + t.update(idx - 1, (k, v)) =~= hs.update(idx, (k, v)));
    }
}

proof fn lemma_headers_insert_missing(hs: Seq<(Seq<char>, Seq<char>)>, k: Seq<char>, v: Seq<char>)
    requires
        forall|t: int| 0 <= t < hs.len() ==> hs[t].0 != k,
    ensures
        headers_insert_spec(hs, k, v) == hs + seq![(k, v)],
    decreases hs.len(),
{
    if hs.len() == 0 {
        assert(headers_insert_spec(hs, k, v) =~= hs + seq![(k, v)]);
    } else {
        let t = hs.skip(1);
        assert(forall|j: int| 0 <= j < t.len() ==> t[j] == hs[j + 1]);
        lemma_headers_insert_missing(t, k, v);
        assert(seq![hs[0]] + (t + seq![(k, v)]) =~= hs + seq![(k, v)]);
    }
}

/// Inserts a header, replacing the first entry with the same key.
pub fn headers_insert(hs: &mut Vec<(String, String)>, k: String, v: String)
    ensures
        headers_view(final(hs)@) == headers_insert_spec(headers_view(old(hs)@), k@, v@),
{
    let mut i: usize = 0;
    let n = hs.len();
    while i < n
        invariant
            n == hs@.len(),
            i <= n,
            hs@ == old(hs)@,
            forall|t: int| 0 <= t < i ==> (#[trigger] hs@[t]).0@ != k@,
        decreases n - i,
    {
        if str_eq(hs[i].0.as_str(), k.as_str()) {
            proof {
                lemma_headers_insert_found(headers_view(hs@), k@, v@, i as int);
            }
            hs.remove(i);
            hs.insert(i, (k, v));
            proof {
                assert(headers_view(final(hs)@) =~= headers_view(old(hs)@).update(
                    i as int,
                    (k@, v@),
                ));
            }
            return ;
        }
        i = i + 1;
    }
    proof {
        lemma_headers_insert_missing(headers_view(hs@), k@, v@);
    }
    hs.push((k, v));
    proof {
        assert(headers_view(final(hs)@) =~= headers_view(old(hs)@) + seq![(k@, v@)]);
    }
}

/// Finds the value of the first header entry whose key is `k`.
pub fn headers_get(hs: &Vec<(String, String)>, k: &str) -> (r: Option<String>)
    ensures
        match r {
            Some(v) => headers_lookup(headers_view(hs@), k@) == Some(v@),
            None => headers_lookup(headers_view(hs@), k@) is None,
        },
{
    let mut i: usize = 0;
    let n = hs.len();
    proof {
        assert(headers_view(hs@).skip(0) =~= headers_view(hs@));
    }
    while i < n
        invariant
            n == hs@.len(),
            i <= n,
            headers_lookup(headers_view(hs@), k@) == headers_lookup(
                headers_view(hs@).skip(i as int),
                k@,
            ),
        decreases n - i,
    {
        proof {
            let hv = headers_view(hs@);
            assert(hv.skip(i as int)[0] == hv[i as int]);
            assert(hv.skip(i as int).skip(1) =~= hv.skip(i + 1));
        }
        if str_eq(hs[i].0.as_str(), k) {
            return Some(hs[i].1.clone());
        }
        i = i + 1;
    }
    proof {
        assert(headers_view(hs@).skip(n as int).len() == 0);
    }
    None
}

/// Ghost form of a parsed request.
pub ghost struct ReqModel {
    pub method: Method,
    pub version: Version,
    pub url: Seq<char>,
    pub headers: Seq<(Seq<char>, Seq<char>)>,
    pub body: Seq<char>,
}

pub open spec fn req_model_init() -> ReqModel {
    ReqModel {
        method: Method::Uninitialized,
        version: Version::V1_0,
        url: Seq::empty(),
        headers: Seq::empty(),
        body: Seq::empty(),
    }
}

/// A line with its trailing carriage return removed.
pub open spec fn strip_cr(l: Seq<char>) -> Seq<char> {
    if l.len() > 0 && l[l.len() - 1] == '\r' {
        l.drop_last()
    } else {
        l
    }
}

/// Folds the request text line by line (lines end at a newline, a
/// trailing carriage return stripped): a line naming `RTSP` is the
/// request line, a line with a colon is a header, any other non-empty
/// line is ignored; the first blank line ends the headers, and
/// everything after it is the body.
pub open spec fn fold_req_text(s: Seq<char>, m: ReqModel) -> Option<ReqModel>
    decreases s.len(),
{
    if s.len() == 0 {
        Some(m)
    } else {
        let i = first_char_idx(s, '\n', 0);
        let line = strip_cr(s.subrange(0, i));
        let rest = if 0 <= i && i < s.len() {
            s.skip(i + 1)
        } else {
            Seq::<char>::empty()
        };
        if line.len() == 0 {
            Some(ReqModel { body: rest, ..m })
        } else if has_sub(line, "RTSP"@) {
            match spec_req_line(line) {
                None => None,
                Some((ms, us, vs)) => fold_req_text(
                    rest,
                    ReqModel { method: method_of(ms), url: us, version: version_of(vs), ..m },
                ),
            }
        } else if first_char_idx(line, ':', 0) < line.len() {
            let (k, v) = spec_header_line(line);
            fold_req_text(rest, ReqModel { headers: headers_insert_spec(m.headers, k, v), ..m })
        } else {
            fold_req_text(rest, m)
        }
    }
}

pub open spec fn spec_parse_request(s: Seq<char>) -> Option<ReqModel> {
    fold_req_text(s, req_model_init())
}

#[derive(Debug)]
pub struct RtspRequest {
    pub method: Method,
    pub version: Version,
    pub url: Url,
    pub headers: Vec<(String, String)>,
    pub msg_body: String,
}

impl RtspRequest {
    pub open spec fn model(self) -> ReqModel {
        ReqModel {
            method: self.method,
            version: self.version,
            url: self.url.path(),
            headers: headers_view(self.headers@),
            body: self.msg_body@,
        }
    }

    /// Parses a whole request; `None` where a request line holds fewer
    /// than three tokens, on which the connection is closed.
    #[verifier::rlimit(100)]
    pub fn parse(req: &str) -> (r: Option<RtspRequest>)
        ensures
            match r {
                Some(q) => spec_parse_request(req@) == Some(q.model()),
                None => spec_parse_request(req@) is None,
            },
    {
        let len = req.unicode_len();
        let mut method = Method::Uninitialized;
        let mut version = Version::V1_0;
        let mut url = Url::Path(String::new());
        let mut headers: Vec<(String, String)> = Vec::new();
        let mut i: usize = 0;
        proof {
            assert(req@.skip(0) =~= req@);
            assert(headers_view(headers@) =~= Seq::<(Seq<char>, Seq<char>)>::empty());
            let m0 = ReqModel {
                method: method,
                version: version,
                url: url.path(),
                headers: headers_view(headers@),
                body: Seq::<char>::empty(),
            };
            assert(m0 == req_model_init());
        }
        while i < len
            invariant
                len == req@.len(),
                i <= len,
                ({
                    let m = ReqModel {
                        method: method,
                        version: version,
                        url: url.path(),
                        headers: headers_view(headers@),
                        body: Seq::<char>::empty(),
                    };
                    spec_parse_request(req@) == fold_req_text(req@.skip(i as int), m)
                }),
            decreases len - i,
        {
            let ghost m_in = ReqModel {
                method: method,
                version: version,
                url: url.path(),
                headers: headers_view(headers@),
                body: Seq::<char>::empty(),
            };
            let j = str_find_char(req, '\n', i);
            let line_end = if j > i && req.get_char(j - 1) == '\r' {
                j - 1
            } else {
                j
            };
            let line = req.substring_char(i, line_end);
            let ghost l = strip_cr(req@.subrange(i as int, j as int));
            let ghost rest = if j < len {
                req@.skip(j + 1)
            } else {
                Seq::<char>::empty()
            };
            proof {
                let rem = req@.skip(i as int);
                lemma_first_char_idx(rem, '\n', 0);
                let j2 = first_char_idx(rem, '\n', 0);
                assert(forall|t: int| 0 <= t < rem.len() ==> rem[t] == req@[i + t]);
                if j2 < j - i {
                    assert(rem[j2] == '\n');
                    assert(req@[i + j2] != '\n');
                }
                if j2 > j - i {
                    assert(j < len);
                    assert(rem[j - i] == '\n');
                }
                assert(j2 == j - i);
                assert(rem.subrange(0, j2) =~= req@.subrange(i as int, j as int));
                assert(strip_cr(rem.subrange(0, j2)) == l);
                if j < len {
                    assert(rem.skip(j2 + 1) =~= req@.skip(j + 1));
                }
                if j > i && req@[j - 1] == '\r' {
                    assert(req@.subrange(i as int, j as int).drop_last() =~= req@.subrange(
                        i as int,
                        j - 1,
                    ));
                    assert(line@ == l);
                } else {
                    assert(line@ == l);
                }
            }
            if line.unicode_len() == 0 {
                // the blank line: the rest of the text is the body
                let body = if j < len {
                    req.substring_char(j + 1, len).to_owned()
                } else {
                    String::new()
                };
                proof {
                    if j < len {
                        assert(body@ =~= rest);
                    } else {
                        assert(body@ =~= rest);
                    }
                    let m_out = ReqModel { body: rest, ..m_in };
                    assert(fold_req_text(req@.skip(i as int), m_in) == Some(m_out));
                }
                return Some(RtspRequest { method, version, url, headers, msg_body: body });
            }
            if str_contains(line, "RTSP") {
                match process_req_line(line) {
                    None => {
                        return None;
                    },
                    Some((m, u, v)) => {
                        method = m;
                        url = u;
                        version = v;
                    },
                }
            } else if str_find_char(line, ':', 0) < line.unicode_len() {
                let (k, v) = process_header_line(line);
                headers_insert(&mut headers, k, v);
            }
            proof {
                let m_out = ReqModel {
                    method: method,
                    version: version,
                    url: url.path(),
                    headers: headers_view(headers@),
                    body: Seq::<char>::empty(),
                };
                assert(fold_req_text(req@.skip(i as int), m_in) == fold_req_text(rest, m_out));
                if j >= len {
                    assert(req@.skip(len as int).len() == 0);
                    assert(rest =~= req@.skip(len as int));
                }
            }
            if j >= len {
                i = len;
            } else {
                i = j + 1;
            }
        }
        proof {
            assert(req@.skip(len as int).len() == 0);
        }
        Some(RtspRequest { method, version, url, headers, msg_body: String::new() })
    }
}

} // verus!
