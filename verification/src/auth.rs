//! Basic and Digest (MD5) authentication: parsing the `Authorization`
//! header, validating a digest response, and generating challenges.

use vstd::prelude::*;

verus! {

use vstd::string::StrSliceExecFns;
use vstd::string::StringExecFns;
use crate::strutil::{
    str_eq,
    str_starts_with,
    str_find_char,
    first_char_idx,
    lemma_first_char_idx,
    str_trim,
    str_trim_char,
    trim_of,
    trim_char_of,
    hex_str,
};
use crate::request::{headers_view, headers_insert, headers_insert_spec, headers_lookup, headers_get};

/// The base64 STANDARD decoding of the text, if it is valid.
pub uninterp spec fn b64_decoded(s: Seq<char>) -> Option<Seq<u8>>;

/// Relies on base64's STANDARD engine `decode`: the outcome is a
/// function of the text alone, failing exactly on invalid input.
#[verifier::external_body]
fn b64_decode(s: &str) -> (r: Option<Vec<u8>>)
    ensures
        r is Some <==> b64_decoded(s@) is Some,
        r matches Some(v) ==> b64_decoded(s@) == Some(v@),
{
    base64::Engine::decode(&base64::engine::general_purpose::STANDARD, s).ok()
}

/// The text whose UTF-8 bytes these are, if they are valid UTF-8.
pub uninterp spec fn utf8_decoded(v: Seq<u8>) -> Option<Seq<char>>;

/// Relies on `String::from_utf8`: the outcome is a function of the
/// bytes alone, failing exactly on invalid UTF-8.
#[verifier::external_body]
fn bytes_to_string(v: Vec<u8>) -> (r: Option<String>)
    ensures
        r is Some <==> utf8_decoded(v@) is Some,
        r matches Some(s) ==> utf8_decoded(v@) == Some(s@),
{
    String::from_utf8(v).ok()
}

/// The 32 lowercase hexadecimal digits of the text's MD5 digest.
pub uninterp spec fn md5_hex(s: Seq<char>) -> Seq<char>;

/// Relies on `md5::compute` and the digest's `LowerHex` form: the
/// digest is a function of the input alone.
#[verifier::external_body]
fn md5_hex_str(s: &str) -> (r: String)
    ensures
        r@ == md5_hex(s@),
{
    format!("{:x}", md5::compute(s.as_bytes()))
}

/// Relies on `rand::random`: some 64-bit value; nothing is promised of
/// which.
#[verifier::external_body]
fn random_u64() -> u64 {
    rand::random::<u64>()
}

/// A recognized `Authorization` header: Basic credentials, or Digest
/// parameters.
pub enum AuthType {
    Basic(Option<(String, String)>),
    Digest(Option<Vec<(String, String)>>),
}

/// What parsing a Basic credential yields: the base64 text after the
/// scheme decodes to UTF-8 text split at its first colon.
pub open spec fn spec_basic_result(h: Seq<char>, r: Option<(Seq<char>, Seq<char>)>) -> bool {
    if h.len() < 6 {
        r is None
    } else {
        match b64_decoded(h.skip(6)) {
            None => r is None,
            Some(bytes) => match utf8_decoded(bytes) {
                None => r is None,
                Some(d) => {
                    let i = first_char_idx(d, ':', 0);
                    if i >= d.len() {
                        r is None
                    } else {
                        r == Some((d.subrange(0, i), d.skip(i + 1)))
                    }
                },
            },
        }
    }
}

pub open spec fn basic_pair_view(r: Option<(String, String)>) -> Option<(Seq<char>, Seq<char>)> {
    match r {
        Some((u, p)) => Some((u@, p@)),
        None => None,
    }
}

/// Decodes `Basic <base64(user:pass)>` into the user and password.
fn parse_basic_auth(auth_header: &str) -> (r: Option<(String, String)>)
    ensures
        spec_basic_result(auth_header@, basic_pair_view(r)),
{
    let len = auth_header.unicode_len();
    if len < 6 {
        return None;
    }
    let encoded = auth_header.substring_char(6, len);
    proof {
        assert(encoded@ =~= auth_header@.skip(6));
    }
    let decoded = match b64_decode(encoded) {
        Some(v) => v,
        None => {
            return None;
        },
    };
    let decoded_str = match bytes_to_string(decoded) {
        Some(s) => s,
        None => {
            return None;
        },
    };
    let dlen = decoded_str.as_str().unicode_len();
    let i = str_find_char(decoded_str.as_str(), ':', 0);
    if i >= dlen {
        return None;
    }
    let user = decoded_str.as_str().substring_char(0, i).to_owned();
    let pass = decoded_str.as_str().substring_char(i + 1, dlen).to_owned();
    proof {
        assert(pass@ =~= decoded_str@.skip(i + 1));
    }
    Some((user, pass))
}

/// The header with every leading `Digest ` scheme name removed.
pub open spec fn strip_digest_prefix(s: Seq<char>) -> Seq<char>
    decreases s.len(),
{
    if s.len() >= 7 && s.subrange(0, 7) == "Digest "@ {
        strip_digest_prefix(s.skip(7))
    } else {
        s
    }
}

fn strip_digest(s: &str) -> (r: &str)
    ensures
        r@ == strip_digest_prefix(s@),
{
    proof {
        reveal_strlit("Digest ");
    }
    let mut cur = s;
    while str_starts_with(cur, "Digest ")
        invariant
            strip_digest_prefix(s@) == strip_digest_prefix(cur@),
        decreases cur@.len(),
    {
        proof {
            reveal_strlit("Digest ");
        }
        let l = cur.unicode_len();
        let next = cur.substring_char(7, l);
        proof {
            assert(next@ =~= cur@.skip(7));
        }
        cur = next;
    }
    proof {
        reveal_strlit("Digest ");
        if cur@.len() >= 7 {
            assert(strip_digest_prefix(cur@) == cur@);
        }
    }
    cur
}

/// The comma-separated segments of `s`.
pub open spec fn split_char_seq(s: Seq<char>, c: char) -> Seq<Seq<char>>
    decreases s.len(),
{
    let i = first_char_idx(s, c, 0);
    if 0 <= i < s.len() {
        seq![s.subrange(0, i)] + split_char_seq(s.skip(i + 1), c)
    } else {
        seq![s]
    }
}

/// Folds `key=value` segments into a parameter list: each segment is
/// trimmed, split at its first `=`, the key trimmed again and the value
/// stripped of quotes; a segment without `=` is dropped.
pub open spec fn digest_params_fold(
    parts: Seq<Seq<char>>,
    m: Seq<(Seq<char>, Seq<char>)>,
) -> Seq<(Seq<char>, Seq<char>)>
    decreases parts.len(),
{
    if parts.len() == 0 {
        m
    } else {
        let t = trim_of(parts[0]);
        let i = first_char_idx(t, '=', 0);
        let m2 = if 0 <= i < t.len() {
            headers_insert_spec(m, trim_of(t.subrange(0, i)), trim_char_of(t.skip(i + 1), '"'))
        } else {
            m
        };
        digest_params_fold(parts.skip(1), m2)
    }
}

pub open spec fn spec_digest_params(h: Seq<char>) -> Seq<(Seq<char>, Seq<char>)> {
    digest_params_fold(split_char_seq(strip_digest_prefix(h), ','), Seq::empty())
}

/// Parses the comma-separated `key=value` parameters of a Digest
/// `Authorization` header, values unquoted.
#[verifier::rlimit(100)]
pub fn parse_digest_header(auth_header: &str) -> (r: Option<Vec<(String, String)>>)
    ensures
        r matches Some(m) && headers_view(m@) == spec_digest_params(auth_header@),
{
    let stripped = strip_digest(auth_header);
    let len = stripped.unicode_len();
    let mut params: Vec<(String, String)> = Vec::new();
    let mut i: usize = 0;
    proof {
        assert(stripped@.skip(0) =~= stripped@);
        assert(headers_view(params@) =~= Seq::<(Seq<char>, Seq<char>)>::empty());
    }
    while i < len
        invariant
            len == stripped@.len(),
            i <= len,
            spec_digest_params(auth_header@) == digest_params_fold(
                split_char_seq(stripped@.skip(i as int), ','),
                headers_view(params@),
            ),
        decreases len - i,
    {
        let j = str_find_char(stripped, ',', i);
        let part = stripped.substring_char(i, j);
        let ghost rem = stripped@.skip(i as int);
        let ghost m_in = headers_view(params@);
        proof {
            lemma_first_char_idx(rem, ',', 0);
            let j2 = first_char_idx(rem, ',', 0);
            assert(forall|t: int| 0 <= t < rem.len() ==> rem[t] == stripped@[i + t]);
            if j2 < j - i {
                assert(rem[j2] == ',');
                assert(stripped@[i + j2] != ',');
            }
            if j2 > j - i {
                assert(j < len);
                assert(rem[j - i] == ',');
            }
            assert(j2 == j - i);
            if j < len {
                assert(rem.subrange(0, j2) =~= stripped@.subrange(i as int, j as int));
                assert(rem.skip(j2 + 1) =~= stripped@.skip(j + 1));
                assert(split_char_seq(rem, ',') == seq![part@] + split_char_seq(
                    stripped@.skip(j + 1),
                    ',',
                ));
            } else {
                assert(rem =~= stripped@.subrange(i as int, j as int));
                assert(split_char_seq(rem, ',') == seq![part@]);
            }
            assert(part@ == rem.subrange(0, j2) || part@ == rem);
        }
        let t = str_trim(part);
        let tlen = t.unicode_len();
        let e = str_find_char(t, '=', 0);
        if e < tlen {
            let key = str_trim(t.substring_char(0, e)).to_owned();
            let val = str_trim_char(t.substring_char(e + 1, tlen), '"').to_owned();
            proof {
                assert(t@.subrange(e as int + 1, tlen as int) =~= t@.skip(e + 1));
            }
            headers_insert(&mut params, key, val);
        }
        proof {
            let parts = split_char_seq(rem, ',');
            let rest = parts.skip(1);
            assert(parts[0] == part@);
            if j < len {
                assert(rest =~= split_char_seq(stripped@.skip(j + 1), ','));
            } else {
                assert(rest =~= Seq::<Seq<char>>::empty());
            }
            assert(digest_params_fold(parts, m_in) == digest_params_fold(
                rest,
                headers_view(params@),
            ));
        }
        if j >= len {
            proof {
                let emptyrem = stripped@.skip(len as int);
                assert(emptyrem.len() == 0);
                assert(first_char_idx(emptyrem, ',', 0) == 0);
                assert(split_char_seq(emptyrem, ',') == seq![emptyrem]);
                assert(trim_of(emptyrem) =~= Seq::<char>::empty());
                assert(first_char_idx(trim_of(emptyrem), '=', 0) == 0);
                assert((seq![emptyrem]).skip(1) =~= Seq::<Seq<char>>::empty());
                assert(digest_params_fold(Seq::<Seq<char>>::empty(), headers_view(params@))
                    == headers_view(params@));
                assert(digest_params_fold(seq![emptyrem], headers_view(params@)) == headers_view(
                    params@,
                ));
            }
            i = len;
        } else {
            i = j + 1;
        }
    }
    proof {
        let emptyrem = stripped@.skip(len as int);
        assert(emptyrem.len() == 0);
        assert(first_char_idx(emptyrem, ',', 0) == 0);
        assert(split_char_seq(emptyrem, ',') == seq![emptyrem]);
        assert(trim_of(emptyrem) =~= Seq::<char>::empty());
        assert(first_char_idx(trim_of(emptyrem), '=', 0) == 0);
        assert((seq![emptyrem]).skip(1) =~= Seq::<Seq<char>>::empty());
        assert(digest_params_fold(Seq::<Seq<char>>::empty(), headers_view(params@))
            == headers_view(params@));
        assert(digest_params_fold(split_char_seq(emptyrem, ','), headers_view(params@))
            == headers_view(params@));
    }
    Some(params)
}

/// The digest a client must present: `md5(md5(user:realm:pass) : nonce
/// : md5(method:uri))`, in lowercase hexadecimal.
pub open spec fn expected_digest(
    user: Seq<char>,
    realm: Seq<char>,
    pass: Seq<char>,
    method: Seq<char>,
    uri: Seq<char>,
    nonce: Seq<char>,
) -> Seq<char> {
    let ha1 = md5_hex(user + ":"@ + realm + ":"@ + pass);
    let ha2 = md5_hex(method + ":"@ + uri);
    md5_hex(ha1 + ":"@ + nonce + ":"@ + ha2)
}

/// Validates the client's digest: true exactly when its `response`
/// parameter equals the expected digest of the supplied parameters;
/// false where a required parameter is missing.
pub fn validate_digest_response(
    auth_params: &Vec<(String, String)>,
    method: &str,
    realm: &str,
    password: &str,
) -> (r: bool)
    ensures
        ({
            let hv = headers_view(auth_params@);
            match (
                headers_lookup(hv, "username"@),
                headers_lookup(hv, "nonce"@),
                headers_lookup(hv, "uri"@),
                headers_lookup(hv, "response"@),
            ) {
                (Some(u), Some(n), Some(uri), Some(resp)) => r == (expected_digest(
                    u,
                    realm@,
                    password@,
                    method@,
                    uri,
                    n,
                ) == resp),
                _ => r == false,
            }
        }),
{
    let username = match headers_get(auth_params, "username") {
        Some(v) => v,
        None => {
            return false;
        },
    };
    let nonce = match headers_get(auth_params, "nonce") {
        Some(v) => v,
        None => {
            return false;
        },
    };
    let uri = match headers_get(auth_params, "uri") {
        Some(v) => v,
        None => {
            return false;
        },
    };
    let client_response = match headers_get(auth_params, "response") {
        Some(v) => v,
        None => {
            return false;
        },
    };
    let mut ha1_input = String::new();
    ha1_input.append(username.as_str());
    ha1_input.append(":");
    ha1_input.append(realm);
    ha1_input.append(":");
    ha1_input.append(password);
    let ha1 = md5_hex_str(ha1_input.as_str());
    let mut ha2_input = String::new();
    ha2_input.append(method);
    ha2_input.append(":");
    ha2_input.append(uri.as_str());
    let ha2 = md5_hex_str(ha2_input.as_str());
    let mut resp_input = String::new();
    resp_input.append(ha1.as_str());
    resp_input.append(":");
    resp_input.append(nonce.as_str());
    resp_input.append(":");
    resp_input.append(ha2.as_str());
    let server_response = md5_hex_str(resp_input.as_str());
    str_eq(server_response.as_str(), client_response.as_str())
}

/// Validates a digest against explicit parameters, with the fixed realm
/// string `realm`.
pub fn validate_digest_auth(
    username: &str,
    password: &str,
    nonce: &str,
    method: &str,
    uri: &str,
    response: &str,
) -> (r: bool)
    ensures
        r == (expected_digest(username@, "realm"@, password@, method@, uri@, nonce@) == response@),
{
    let mut ha1_input = String::new();
    ha1_input.append(username);
    ha1_input.append(":");
    ha1_input.append("realm");
    ha1_input.append(":");
    ha1_input.append(password);
    let ha1 = md5_hex_str(ha1_input.as_str());
    let mut ha2_input = String::new();
    ha2_input.append(method);
    ha2_input.append(":");
    ha2_input.append(uri);
    let ha2 = md5_hex_str(ha2_input.as_str());
    let mut resp_input = String::new();
    resp_input.append(ha1.as_str());
    resp_input.append(":");
    resp_input.append(nonce);
    resp_input.append(":");
    resp_input.append(ha2.as_str());
    let expected_response = md5_hex_str(resp_input.as_str());
    str_eq(response, expected_response.as_str())
}

/// Classifies the `Authorization` header by its scheme prefix and
/// parses its credentials.
pub fn get_auth_type(auth_header: &str) -> (r: Option<AuthType>)
    ensures
        ({
            let h = auth_header@;
            if h.len() >= 6 && h.subrange(0, 6) == "Basic "@ {
                r matches Some(AuthType::Basic(b)) && spec_basic_result(h, basic_pair_view(b))
            } else if h.len() >= 7 && h.subrange(0, 7) == "Digest "@ {
                r matches Some(AuthType::Digest(d)) && d matches Some(m) && headers_view(m@)
                    == spec_digest_params(h)
            } else {
                r is None
            }
        }),
{
    proof {
        reveal_strlit("Basic ");
        reveal_strlit("Digest ");
    }
    if str_starts_with(auth_header, "Basic ") {
        Some(AuthType::Basic(parse_basic_auth(auth_header)))
    } else if str_starts_with(auth_header, "Digest ") {
        Some(AuthType::Digest(parse_digest_header(auth_header)))
    } else {
        None
    }
}

/// A freshly drawn nonce: the lowercase hexadecimal form of a random
/// 64-bit value.
fn generate_nonce() -> (r: String)
    ensures
        exists|n: nat| n < 0x1_0000_0000_0000_0000 && r@ == hex_str(n),
{
    let n = random_u64();
    let mut s = String::new();
    crate::strutil::append_hex_u64(&mut s, n);
    proof {
        assert(s@ == Seq::<char>::empty() + hex_str(n as nat));
        assert(Seq::<char>::empty() + hex_str(n as nat) =~= hex_str(n as nat));
        assert((n as nat) < 0x1_0000_0000_0000_0000 && s@ == hex_str(n as nat));
    }
    s
}

/// Generates the `WWW-Authenticate` challenge value for its scheme.
pub trait AuthHeaderGenerator {
    /// Relates the generator's state before and after, and the header
    /// text produced.
    spec fn spec_generated(pre: &Self, post: &Self, r: Seq<char>) -> bool;

    fn generate(&mut self) -> (r: String)
        ensures
            Self::spec_generated(old(self), final(self), r@),
    ;
}

pub struct BasicAuthenticator {
    realm: String,
}

impl BasicAuthenticator {
    pub closed spec fn spec_realm(self) -> Seq<char> {
        self.realm@
    }

    pub fn new(realm: &str) -> (r: BasicAuthenticator)
        ensures
            r.spec_realm() == realm@,
    {
        BasicAuthenticator { realm: realm.to_owned() }
    }
}

impl AuthHeaderGenerator for BasicAuthenticator {
    open spec fn spec_generated(pre: &BasicAuthenticator, post: &BasicAuthenticator, r: Seq<char>) -> bool {
        post == pre && r == "Basic realm=\""@ + pre.spec_realm() + "\""@
    }

    fn generate(&mut self) -> (r: String) {
        let mut out = String::new();
        out.append("Basic realm=\"");
        out.append(self.realm.as_str());
        out.append("\"");
        proof {
            assert(out@ =~= "Basic realm=\""@ + old(self).spec_realm() + "\""@);
        }
        out
    }
}

/// The challenge text of a digest authenticator's state.
pub open spec fn digest_header_text(realm: Seq<char>, nonce: Seq<char>, algorithm: Seq<char>, stale: bool) -> Seq<char> {
    "Digest realm=\""@ + realm + "\", nonce=\""@ + nonce + "\", algorithm=\""@ + algorithm + "\""@
        + (if stale {
        ", stale=true"@
    } else {
        Seq::<char>::empty()
    })
}

pub struct DigestAuthenticator {
    realm: String,
    nonce: String,
    opaque: String,
    pub stale: bool,
    algorithm: String,
}

impl DigestAuthenticator {
    pub closed spec fn spec_realm(self) -> Seq<char> {
        self.realm@
    }

    pub closed spec fn spec_stale(self) -> bool {
        self.stale
    }

    pub closed spec fn spec_nonce(self) -> Seq<char> {
        self.nonce@
    }

    pub closed spec fn spec_algorithm(self) -> Seq<char> {
        self.algorithm@
    }

    pub closed spec fn spec_opaque(self) -> Seq<char> {
        self.opaque@
    }

    /// A digest authenticator over MD5; without a given nonce, a random
    /// one is drawn.
    pub fn new(realm: &str, nonce: Option<String>) -> (r: DigestAuthenticator)
        ensures
            r.spec_realm() == realm@,
            r.spec_algorithm() == "MD5"@,
            r.spec_opaque() == Seq::<char>::empty(),
            !r.spec_stale(),
            match nonce {
                Some(n) => r.spec_nonce() == n@,
                None => exists|x: nat|
                    x < 0x1_0000_0000_0000_0000 && r.spec_nonce() == hex_str(x),
            },
    {
        let nonce_val = match nonce {
            Some(n) => n,
            None => generate_nonce(),
        };
        DigestAuthenticator {
            realm: realm.to_owned(),
            nonce: nonce_val,
            opaque: String::new(),
            stale: false,
            algorithm: String::from_str("MD5"),
        }
    }
}

impl AuthHeaderGenerator for DigestAuthenticator {
    open spec fn spec_generated(pre: &DigestAuthenticator, post: &DigestAuthenticator, r: Seq<char>) -> bool {
        &&& post.spec_realm() == pre.spec_realm()
        &&& post.spec_algorithm() == pre.spec_algorithm()
        &&& post.spec_stale() == pre.spec_stale()
        &&& post.spec_opaque() == pre.spec_opaque()
        &&& if pre.spec_stale() {
            exists|x: nat| x < 0x1_0000_0000_0000_0000 && post.spec_nonce() == hex_str(x)
        } else {
            post.spec_nonce() == pre.spec_nonce()
        }
        &&& r == digest_header_text(post.spec_realm(), post.spec_nonce(), post.spec_algorithm(), pre.spec_stale())
    }

    /// A stale authenticator draws a fresh nonce before answering.
    fn generate(&mut self) -> (r: String) {
        if self.stale {
            self.nonce = generate_nonce();
        }
        let mut out = String::new();
        out.append("Digest realm=\"");
        out.append(self.realm.as_str());
        out.append("\", nonce=\"");
        out.append(self.nonce.as_str());
        out.append("\", algorithm=\"");
        out.append(self.algorithm.as_str());
        out.append("\"");
        if self.stale {
            out.append(", stale=true");
        }
        proof {
            assert(out@ =~= digest_header_text(
                self.spec_realm(),
                self.spec_nonce(),
                self.spec_algorithm(),
                old(self).stale,
            ));
        }
        out
    }
}

/// Produces the challenge of any header generator.
pub fn generate<T: AuthHeaderGenerator>(auth: &mut T) -> (r: String)
    ensures
        T::spec_generated(old(auth), final(auth), r@),
{
    auth.generate()
}

} // verus!
