//! The request model of the HTTP engine and the parts of request execution that
//! compute rather than communicate: which client a request needs, the headers
//! that its authentication adds, HTTP Digest and AWS Signature V4 signing, and
//! what is read back from a response.
use vstd::prelude::*;
use vstd::utf8::*;
use vstd::string::StringSliceAdditionalSpecFns;
use crate::crypto::{hex_encode, hex_lower, md5, md5_digest, sha256, sha256_digest, hmac_sha256, hmac_sha256_digest};
use crate::template::{resolve, resolve_env};
use crate::cookie::{CookieInfo, parse_set_cookie, set_cookie_spec, opt_view};
use crate::providers::{last_value, find_last, value_or};
use crate::text::{has_suffix, digits_between, lowercase_equals, chars_lowercase_equals, utf8_lossy, utf8_lossy_string};
use crate::grpc::header_value;
use crate::form::{form_text, form_body, multipart_text, multipart_body, multipart_content_type};
use crate::text::{concat, upper_ascii_seq, chars_of, find, find_chars, lemma_find_from, push_str, slice_range, string_of, str_contains, contains};

verus! {

/// How a request body is encoded.
#[derive(Clone, Copy, Debug, PartialEq, Eq, Structural)]
pub enum BodyType {
    Json,
    FormData,
    UrlEncoded,
    Raw,
    Binary,
    GraphQL,
    /// No body (`"none"` in saved requests).
    NoBody,
}

/// How a request authenticates.
#[derive(Clone, Copy, Debug, PartialEq, Eq, Structural)]
pub enum AuthType {
    /// No authentication (`"none"` in saved requests).
    NoAuth,
    Bearer,
    Basic,
    ApiKey,
    OAuth2,
    /// Ecosystem-specific (Frappe, Django, Laravel, Rails, WordPress...)
    EcosystemProvider,
    /// AWS Signature Version 4
    AwsSigV4,
    /// HTTP Digest authentication
    Digest,
}

/// Scripts that run around a request.
pub struct RequestScripts {
    pub pre_request: Option<String>,
    pub tests: Option<String>,
}

/// How long a request took.
pub struct ResponseTiming {
    pub total_ms: u128,
    pub dns_ms: Option<u128>,
    pub connect_ms: Option<u128>,
    pub ttfb_ms: Option<u128>,
}

/// The authentication settings of a request. `injected_headers` holds the string
/// headers that an ecosystem provider's session injects.
pub struct AuthConfig {
    pub auth_type: AuthType,
    pub token: Option<String>,
    pub username: Option<String>,
    pub password: Option<String>,
    pub api_key_header: Option<String>,
    pub api_key_value: Option<String>,
    /// `"header"` (the default) or `"query"`.
    pub api_key_location: Option<String>,
    pub provider: Option<String>,
    pub injected_headers: Option<Vec<(String, String)>>,
    pub aws_access_key: Option<String>,
    pub aws_secret_key: Option<String>,
    pub aws_region: Option<String>,
    pub aws_service: Option<String>,
}

/// The text of an optional string, or the empty text.
pub open spec fn text_or_empty(o: Option<String>) -> Seq<char> {
    match o {
        Some(s) => s@,
        None => seq![],
    }
}

/// The text of an optional string, or `default`.
pub open spec fn text_or(o: Option<String>, default: Seq<char>) -> Seq<char> {
    match o {
        Some(s) => s@,
        None => default,
    }
}

/// `o.as_deref().unwrap_or("")`.
pub fn str_or_empty(o: &Option<String>) -> (res: &str)
    ensures
        res@ == text_or_empty(*o),
{
    proof {
        reveal_strlit("");
    }
    match o {
        Some(s) => s.as_str(),
        None => "",
    }
}

// ---------------------------------------------------------------------------
// HTTP Digest authentication
// ---------------------------------------------------------------------------

/// The quoted value of `key="…"` in a `WWW-Authenticate` challenge: the text
/// after the first `key="` up to the next `"`, or empty when either is missing.
pub open spec fn digest_param(src: Seq<char>, key: Seq<char>) -> Seq<char> {
    let search = key + seq!['=', '"'];
    match find(src, search) {
        None => seq![],
        Some(i) => {
            let rest = src.skip(i + search.len());
            match find(rest, seq!['"']) {
                Some(e) => rest.take(e),
                None => seq![],
            }
        },
    }
}

/// The value of `key="…"` in a `WWW-Authenticate` challenge.
pub fn digest_param_value(src: &str, key: &str) -> (res: String)
    ensures
        res@ == digest_param(src@, key@),
{
    let s = chars_of(src);
    let mut search = chars_of(key);
    search.push('=');
    search.push('"');
    assert(search@ =~= key@ + seq!['=', '"']);
    match find_chars(s.as_slice(), search.as_slice()) {
        None => String::new(),
        Some(i) => {
            proof {
                lemma_find_from(s@, search@, 0);
                assert(crate::text::occurs_at(s@, search@, i as int));
                assert(i + search@.len() <= s@.len());
            }
            let slen = search.len();
            assert(slen == search@.len());
            assert(i + search@.len() <= s@.len());
            assert(s@.len() == s.len());
            assert(i + slen <= s.len());
            let start = i + slen;
            let rest = slice_range(s.as_slice(), start, s.len());
            assert(rest@ =~= s@.skip(i + search@.len()));
            let mut quote: Vec<char> = Vec::new();
            quote.push('"');
            assert(quote@ =~= seq!['"']);
            match find_chars(rest.as_slice(), quote.as_slice()) {
                Some(e) => {
                    proof {
                        lemma_find_from(rest@, quote@, 0);
                    }
                    let v = slice_range(rest.as_slice(), 0, e);
                    assert(v@ =~= rest@.take(e as int));
                    string_of(v.as_slice())
                },
                None => String::new(),
            }
        },
    }
}

/// Lower-case hex digits of `n` without leading zeros (`format!("{:x}", n)`).
pub open spec fn hex_u32(n: u32) -> Seq<char>
    decreases n,
{
    if n < 16 {
        seq![crate::crypto::hex_digit(n as u8)]
    } else {
        hex_u32(n / 16) + seq![crate::crypto::hex_digit((n % 16) as u8)]
    }
}

/// `format!("{:x}", n)`.
pub fn lower_hex_u32(n: u32) -> (res: String)
    ensures
        res@ == hex_u32(n),
    decreases n,
{
    let d = (n % 16) as u8;
    let c = if d < 10 {
        (('0' as u8) + d) as char
    } else {
        (('a' as u8) + d - 10) as char
    };
    assert(c == crate::crypto::hex_digit(d));
    if n < 16 {
        let mut s = String::new();
        s.push(c);
        assert(s@ =~= seq![c]);
        s
    } else {
        let mut s = lower_hex_u32(n / 16);
        s.push(c);
        s
    }
}

/// The lower-case hex MD5 of the UTF-8 bytes of `s`.
pub open spec fn md5_hex(s: Seq<char>) -> Seq<char> {
    hex_lower(md5_digest(encode_utf8(s)))
}

fn md5_hex_of(s: &str) -> (res: String)
    ensures
        res@ == md5_hex(s@),
{
    let d = md5(s.as_bytes());
    hex_encode(d.as_slice())
}

/// The `Authorization` value that answers a Digest challenge (RFC 2617):
/// `HA1 = MD5(username:realm:password)`, `HA2 = MD5(method:uri)`, and
/// `response = MD5(HA1:nonce:00000001:cnonce:auth:HA2)` when the challenge's
/// `qop` mentions `auth`, `MD5(HA1:nonce:HA2)` otherwise; `qop`, `nc` and `cnonce`
/// are sent with the first form, and `opaque` whenever the challenge has one.
pub open spec fn digest_header_spec(
    username: Seq<char>,
    password: Seq<char>,
    method: Seq<char>,
    uri: Seq<char>,
    www_auth: Seq<char>,
    cnonce: Seq<char>,
) -> Seq<char> {
    let realm = digest_param(www_auth, "realm"@);
    let nonce = digest_param(www_auth, "nonce"@);
    let opaque = digest_param(www_auth, "opaque"@);
    let use_qop = contains(digest_param(www_auth, "qop"@), "auth"@);
    let ha1 = md5_hex(username + ":"@ + realm + ":"@ + password);
    let ha2 = md5_hex(method + ":"@ + uri);
    let response = if use_qop {
        md5_hex(ha1 + ":"@ + nonce + ":"@ + "00000001"@ + ":"@ + cnonce + ":auth:"@ + ha2)
    } else {
        md5_hex(ha1 + ":"@ + nonce + ":"@ + ha2)
    };
    "Digest username=\""@ + username + "\", realm=\""@ + realm + "\", nonce=\""@ + nonce
        + "\", uri=\""@ + uri + "\", response=\""@ + response + "\""@ + (if use_qop {
        ", qop=auth, nc="@ + "00000001"@ + ", cnonce=\""@ + cnonce + "\""@
    } else {
        seq![]
    }) + (if opaque.len() != 0 {
        ", opaque=\""@ + opaque + "\""@
    } else {
        seq![]
    })
}

/// The Digest `Authorization` header for `auth` (user name and password with
/// `{{variables}}` resolved from `env`) answering the challenge `www_auth` for
/// `method` on `uri`, with the client nonce `cnonce`.
pub fn build_digest_header(
    auth: &AuthConfig,
    env: &Vec<(String, String)>,
    method: &str,
    uri: &str,
    www_auth: &str,
    cnonce: &str,
) -> (res: String)
    ensures
        res@ == digest_header_spec(
            resolve(text_or_empty(auth.username), env.deep_view()),
            resolve(text_or_empty(auth.password), env.deep_view()),
            method@,
            uri@,
            www_auth@,
            cnonce@,
        ),
{
    let username = resolve_env(str_or_empty(&auth.username), env);
    let password = resolve_env(str_or_empty(&auth.password), env);
    let realm = digest_param_value(www_auth, "realm");
    let nonce = digest_param_value(www_auth, "nonce");
    let opaque = digest_param_value(www_auth, "opaque");
    let qop = digest_param_value(www_auth, "qop");
    let use_qop = str_contains(qop.as_str(), "auth");
    let mut a1 = String::new();
    push_str(&mut a1, username.as_str());
    push_str(&mut a1, ":");
    push_str(&mut a1, realm.as_str());
    push_str(&mut a1, ":");
    push_str(&mut a1, password.as_str());
    let ha1 = md5_hex_of(a1.as_str());
    let mut a2 = String::new();
    push_str(&mut a2, method);
    push_str(&mut a2, ":");
    push_str(&mut a2, uri);
    let ha2 = md5_hex_of(a2.as_str());
    let mut r = String::new();
    push_str(&mut r, ha1.as_str());
    push_str(&mut r, ":");
    push_str(&mut r, nonce.as_str());
    push_str(&mut r, ":");
    if use_qop {
        push_str(&mut r, "00000001");
        push_str(&mut r, ":");
        push_str(&mut r, cnonce);
        push_str(&mut r, ":auth:");
    }
    push_str(&mut r, ha2.as_str());
    let response = md5_hex_of(r.as_str());
    let mut h = String::new();
    push_str(&mut h, "Digest username=\"");
    push_str(&mut h, username.as_str());
    push_str(&mut h, "\", realm=\"");
    push_str(&mut h, realm.as_str());
    push_str(&mut h, "\", nonce=\"");
    push_str(&mut h, nonce.as_str());
    push_str(&mut h, "\", uri=\"");
    push_str(&mut h, uri);
    push_str(&mut h, "\", response=\"");
    push_str(&mut h, response.as_str());
    push_str(&mut h, "\"");
    let ghost base = h@;
    if use_qop {
        push_str(&mut h, ", qop=auth, nc=");
        push_str(&mut h, "00000001");
        push_str(&mut h, ", cnonce=\"");
        push_str(&mut h, cnonce);
        push_str(&mut h, "\"");
    }
    let ghost with_qop = h@;
    if !opaque.as_str().is_empty() {
        push_str(&mut h, ", opaque=\"");
        push_str(&mut h, opaque.as_str());
        push_str(&mut h, "\"");
    }
    assert(h@ =~= digest_header_spec(
        username@,
        password@,
        method@,
        uri@,
        www_auth@,
        cnonce@,
    ));
    h
}

/// The current time's sub-second nanoseconds (`SystemTime::now()` since the Unix
/// epoch; zero if the clock is before it). `Duration::subsec_nanos` is
/// documented to be less than one billion; nothing else is stated of the
/// clock's reading.
#[verifier::external_body]
fn subsec_nanos_now() -> (res: u32)
    ensures
        res < 1_000_000_000,
{
    std::time::SystemTime::now().duration_since(std::time::UNIX_EPOCH).unwrap_or_default()
        .subsec_nanos()
}

/// The nonce made from a sub-second nanosecond count: the count XOR `0xdeadbeef`.
pub open spec fn nonce_from_nanos(n: u32) -> u32 {
    n ^ 0xdeadbeefu32
}

/// A cheap per-call nonce source: the clock's sub-second nanoseconds XOR `0xdeadbeef`.
pub fn rand_u32() -> (res: u32)
    ensures
        exists|n: u32| n < 1_000_000_000 && res == #[trigger] nonce_from_nanos(n),
{
    let n = subsec_nanos_now();
    let r = n ^ 0xdeadbeefu32;
    assert(r == nonce_from_nanos(n));
    r
}

/// `build_digest_header` with a fresh client nonce (`rand_u32` in lower-case hex).
pub fn build_digest_header_now(
    auth: &AuthConfig,
    env: &Vec<(String, String)>,
    method: &str,
    uri: &str,
    www_auth: &str,
) -> (res: String)
    ensures
        exists|n: u32|
            res@ == digest_header_spec(
                resolve(text_or_empty(auth.username), env.deep_view()),
                resolve(text_or_empty(auth.password), env.deep_view()),
                method@,
                uri@,
                www_auth@,
                #[trigger] hex_u32(n),
            ),
{
    let n = rand_u32();
    let cnonce = lower_hex_u32(n);
    build_digest_header(auth, env, method, uri, www_auth, cnonce.as_str())
}


// ---------------------------------------------------------------------------
// URLs and method names
// ---------------------------------------------------------------------------

/// What `url::Url::parse` makes of a URL: its path, query and host, or `None`
/// when it does not parse.
pub uninterp spec fn url_parts(s: Seq<char>) -> Option<(Seq<char>, Option<Seq<char>>, Option<Seq<char>>)>;

/// `reqwest::Url::parse(s)` (the url crate), read back as `path()`, `query()` and
/// `host_str()`; `None` when the URL does not parse.
#[verifier::external_body]
pub(crate) fn parse_url_parts(s: &str) -> (res: Option<(String, Option<String>, Option<String>)>)
    ensures
        res.deep_view() == url_parts(s@),
{
    match reqwest::Url::parse(s) {
        Ok(u) => Some((
            u.path().to_string(),
            u.query().map(|q| q.to_string()),
            u.host_str().map(|h| h.to_string()),
        )),
        Err(_) => None,
    }
}

/// What `str::to_uppercase` makes of a text (Unicode upper-casing).
pub uninterp spec fn uppercased(s: Seq<char>) -> Seq<char>;

/// Whether every character of `s` is ASCII.
pub open spec fn all_ascii(s: Seq<char>) -> bool {
    forall|i: int| 0 <= i < s.len() ==> (s[i] as u32) < 128
}

/// `str::to_uppercase`: the Unicode upper-case of `s`; on ASCII text, the ASCII
/// upper-case.
#[verifier::external_body]
pub(crate) fn to_uppercase(s: &str) -> (res: String)
    ensures
        res@ == uppercased(s@),
        all_ascii(s@) ==> res@ == upper_ascii_seq(s@),
{
    s.to_uppercase()
}

// ---------------------------------------------------------------------------
// AWS Signature Version 4
// ---------------------------------------------------------------------------

/// The lower-case hex SHA-256 of some bytes.
pub open spec fn sha256_hex(data: Seq<u8>) -> Seq<char> {
    hex_lower(sha256_digest(data))
}

/// HMAC-SHA-256 keyed with `key` over the UTF-8 bytes of `data`.
pub open spec fn hmac_text(key: Seq<u8>, data: Seq<char>) -> Seq<u8> {
    hmac_sha256_digest(key, encode_utf8(data))
}

/// The headers that sign a request with AWS Signature V4, for a URL with path
/// `path`, query `query` and host `host`, a payload whose hash is `payload_hash`,
/// and the date stamps `datestamp` (`YYYYMMDD`) and `amzdate` (`YYYYMMDDTHHMMSSZ`).
pub open spec fn sigv4_spec(
    access_key: Seq<char>,
    secret_key: Seq<char>,
    region: Seq<char>,
    service: Seq<char>,
    method: Seq<char>,
    path: Seq<char>,
    query: Seq<char>,
    host: Seq<char>,
    payload_hash: Seq<char>,
    datestamp: Seq<char>,
    amzdate: Seq<char>,
) -> Seq<(Seq<char>, Seq<char>)> {
    let signed = "host;x-amz-content-sha256;x-amz-date"@;
    let canonical_headers = "host:"@ + host + "\nx-amz-content-sha256:"@ + payload_hash
        + "\nx-amz-date:"@ + amzdate + "\n"@;
    let canonical_request = method + "\n"@ + path + "\n"@ + query + "\n"@ + canonical_headers
        + "\n"@ + signed + "\n"@ + payload_hash;
    let scope = datestamp + "/"@ + region + "/"@ + service + "/aws4_request"@;
    let string_to_sign = "AWS4-HMAC-SHA256\n"@ + amzdate + "\n"@ + scope + "\n"@ + sha256_hex(
        encode_utf8(canonical_request),
    );
    let k_date = hmac_text(encode_utf8("AWS4"@ + secret_key), datestamp);
    let k_region = hmac_text(k_date, region);
    let k_service = hmac_text(k_region, service);
    let k_signing = hmac_text(k_service, "aws4_request"@);
    let signature = hex_lower(hmac_text(k_signing, string_to_sign));
    let authorization = "AWS4-HMAC-SHA256 Credential="@ + access_key + "/"@ + scope
        + ", SignedHeaders="@ + signed + ", Signature="@ + signature;
    seq![
        ("x-amz-date"@, amzdate),
        ("x-amz-content-sha256"@, payload_hash),
        ("Authorization"@, authorization),
    ]
}

fn text_entry(k: &str, v: &str) -> (res: (String, String))
    ensures
        res.0@ == k@,
        res.1@ == v@,
{
    (k.to_owned(), v.to_owned())
}

fn sha256_hex_of(data: &[u8]) -> (res: String)
    ensures
        res@ == sha256_hex(data@),
{
    let d = sha256(data);
    hex_encode(d.as_slice())
}

fn hmac_text_of(key: &[u8], data: &str) -> (res: Vec<u8>)
    ensures
        res@ == hmac_text(key@, data@),
{
    hmac_sha256(key, data.as_bytes())
}

/// The signature headers for a request to the URL `url`, with the method name
/// already upper-cased, the payload bytes `payload`, and the two date stamps;
/// `None` when the URL does not parse. The region defaults to `us-east-1`, the
/// service to `execute-api`, the keys to empty; all four have `{{variables}}`
/// resolved from `env`.
pub fn sigv4_headers(
    auth: &AuthConfig,
    env: &Vec<(String, String)>,
    method: &str,
    url: &str,
    payload: &[u8],
    datestamp: &str,
    amzdate: &str,
) -> (res: Option<Vec<(String, String)>>)
    ensures
        match url_parts(url@) {
            None => res is None,
            Some(parts) => res matches Some(h) && h.deep_view() == sigv4_spec(
                resolve(text_or_empty(auth.aws_access_key), env.deep_view()),
                resolve(text_or_empty(auth.aws_secret_key), env.deep_view()),
                resolve(text_or(auth.aws_region, "us-east-1"@), env.deep_view()),
                resolve(text_or(auth.aws_service, "execute-api"@), env.deep_view()),
                method@,
                parts.0,
                match parts.1 {
                    Some(q) => q,
                    None => seq![],
                },
                match parts.2 {
                    Some(h) => h,
                    None => seq![],
                },
                sha256_hex(payload@),
                datestamp@,
                amzdate@,
            ),
        },
{
    proof {
        reveal_strlit("us-east-1");
        reveal_strlit("execute-api");
    }
    let region_t = match &auth.aws_region {
        Some(r) => r.as_str(),
        None => "us-east-1",
    };
    let service_t = match &auth.aws_service {
        Some(r) => r.as_str(),
        None => "execute-api",
    };
    let region = resolve_env(region_t, env);
    let service = resolve_env(service_t, env);
    let access_key = resolve_env(str_or_empty(&auth.aws_access_key), env);
    let secret_key = resolve_env(str_or_empty(&auth.aws_secret_key), env);
    let parts = parse_url_parts(url);
    let (path, query, host) = match parts {
        None => return None,
        Some(p) => p,
    };
    let query = match query {
        Some(q) => q,
        None => String::new(),
    };
    let host = match host {
        Some(h) => h,
        None => String::new(),
    };
    let payload_hash = sha256_hex_of(payload);
    let signed = "host;x-amz-content-sha256;x-amz-date";
    let mut ch = concat("host:", host.as_str());
    push_str(&mut ch, "\nx-amz-content-sha256:");
    push_str(&mut ch, payload_hash.as_str());
    push_str(&mut ch, "\nx-amz-date:");
    push_str(&mut ch, amzdate);
    push_str(&mut ch, "\n");
    let mut cr = concat(method, "\n");
    push_str(&mut cr, path.as_str());
    push_str(&mut cr, "\n");
    push_str(&mut cr, query.as_str());
    push_str(&mut cr, "\n");
    push_str(&mut cr, ch.as_str());
    push_str(&mut cr, "\n");
    push_str(&mut cr, signed);
    push_str(&mut cr, "\n");
    push_str(&mut cr, payload_hash.as_str());
    let mut scope = concat(datestamp, "/");
    push_str(&mut scope, region.as_str());
    push_str(&mut scope, "/");
    push_str(&mut scope, service.as_str());
    push_str(&mut scope, "/aws4_request");
    let cr_hash = sha256_hex_of(cr.as_str().as_bytes());
    let mut sts = concat("AWS4-HMAC-SHA256\n", amzdate);
    push_str(&mut sts, "\n");
    push_str(&mut sts, scope.as_str());
    push_str(&mut sts, "\n");
    push_str(&mut sts, cr_hash.as_str());
    let date_key = concat("AWS4", secret_key.as_str());
    let k_date = hmac_text_of(date_key.as_str().as_bytes(), datestamp);
    let k_region = hmac_text_of(k_date.as_slice(), region.as_str());
    let k_service = hmac_text_of(k_region.as_slice(), service.as_str());
    let k_signing = hmac_text_of(k_service.as_slice(), "aws4_request");
    let sig_bytes = hmac_text_of(k_signing.as_slice(), sts.as_str());
    let signature = hex_encode(sig_bytes.as_slice());
    let mut authz = concat("AWS4-HMAC-SHA256 Credential=", access_key.as_str());
    push_str(&mut authz, "/");
    push_str(&mut authz, scope.as_str());
    push_str(&mut authz, ", SignedHeaders=");
    push_str(&mut authz, signed);
    push_str(&mut authz, ", Signature=");
    push_str(&mut authz, signature.as_str());
    let mut h: Vec<(String, String)> = Vec::new();
    h.push(text_entry("x-amz-date", amzdate));
    h.push(text_entry("x-amz-content-sha256", payload_hash.as_str()));
    h.push(text_entry("Authorization", authz.as_str()));
    assert(h.deep_view() =~= sigv4_spec(
        access_key@,
        secret_key@,
        region@,
        service@,
        method@,
        path@,
        query@,
        host@,
        payload_hash@,
        datestamp@,
        amzdate@,
    ));
    Some(h)
}


/// Two SigV4 stamps of one instant, as chrono's `%Y%m%d` and `%Y%m%dT%H%M%SZ`
/// write them: the date stamp is the year (four digits or more, with a sign
/// outside the years 0 to 9999), the month and the day; the time stamp is the
/// date stamp, `T`, six digits of hour, minute and second, and `Z`.
pub open spec fn stamp_pair(d: Seq<char>, a: Seq<char>) -> bool {
    &&& d.len() >= 8
    &&& digits_between(d, (d.len() - 4) as int, d.len() as int)
    &&& a.len() == d.len() + 8
    &&& a.take(d.len() as int) == d
    &&& a[d.len() as int] == 'T'
    &&& digits_between(a, (d.len() + 1) as int, (d.len() + 7) as int)
    &&& a[a.len() - 1] == 'Z'
}

/// The current UTC time as the two SigV4 stamps (`%Y%m%d` and `%Y%m%dT%H%M%SZ`,
/// chrono's `Utc::now().format`, both of the one reading). Only their shape
/// (`stamp_pair`) is stated, nothing of the clock's reading.
#[verifier::external_body]
fn utc_stamps() -> (res: (String, String))
    ensures
        stamp_pair(res.0@, res.1@),
{
    let now = chrono::Utc::now();
    (now.format("%Y%m%d").to_string(), now.format("%Y%m%dT%H%M%SZ").to_string())
}

/// The body of a request. `content` is the body's JSON document as JSON text;
/// `fields` lists its entries when it is a JSON object (each value's text when
/// it is a string, empty otherwise), in the document's order.
pub struct RequestBody {
    pub body_type: BodyType,
    pub content: String,
    pub fields: Option<Vec<(String, String)>>,
    pub raw: Option<String>,
}

/// The bytes that a request sends as its body, and that SigV4 signs: the UTF-8
/// text of what its body plans to send.
pub open spec fn payload_bytes(body: Option<RequestBody>, env: Seq<(Seq<char>, Seq<char>)>) -> Seq<u8> {
    match body {
        Some(b) => encode_utf8(plan_text(body_plan_spec(b, env))),
        None => encode_utf8(plan_text(BodyPlanView::NoBody)),
    }
}

/// The SigV4 headers for a request sent now: `sigv4_headers` with the method
/// upper-cased, the bytes that the body sends as payload, and the stamps of one
/// instant of the clock.
pub fn apply_sigv4(
    auth: &AuthConfig,
    env: &Vec<(String, String)>,
    method: &str,
    url: &str,
    body: &Option<RequestBody>,
) -> (res: Option<Vec<(String, String)>>)
    ensures
        match url_parts(url@) {
            None => res is None,
            Some(parts) => exists|d: Seq<char>, a: Seq<char>|
                #![trigger sigv4_spec(
                    resolve(text_or_empty(auth.aws_access_key), env.deep_view()),
                    resolve(text_or_empty(auth.aws_secret_key), env.deep_view()),
                    resolve(text_or(auth.aws_region, "us-east-1"@), env.deep_view()),
                    resolve(text_or(auth.aws_service, "execute-api"@), env.deep_view()),
                    uppercased(method@), parts.0, value_or_empty(parts.1),
                    value_or_empty(parts.2), sha256_hex(payload_bytes(*body, env.deep_view())), d, a)]
                stamp_pair(d, a) && (res matches Some(h) && h.deep_view() == sigv4_spec(
                    resolve(text_or_empty(auth.aws_access_key), env.deep_view()),
                    resolve(text_or_empty(auth.aws_secret_key), env.deep_view()),
                    resolve(text_or(auth.aws_region, "us-east-1"@), env.deep_view()),
                    resolve(text_or(auth.aws_service, "execute-api"@), env.deep_view()),
                    uppercased(method@),
                    parts.0,
                    value_or_empty(parts.1),
                    value_or_empty(parts.2),
                    sha256_hex(payload_bytes(*body, env.deep_view())),
                    d,
                    a,
                )),
        },
{
    let upper = to_uppercase(method);
    let (d, a) = utc_stamps();
    let plan = match body {
        Some(b) => body_plan(b, env),
        None => BodyPlan::NoBody,
    };
    let text = body_text(&plan);
    let payload: &[u8] = text.as_str().as_bytes();
    assert(payload@ == payload_bytes(*body, env.deep_view()));
    let res = sigv4_headers(auth, env, upper.as_str(), url, payload, d.as_str(), a.as_str());
    proof {
        if let Some(parts) = url_parts(url@) {
            let _ = sigv4_spec(
                resolve(text_or_empty(auth.aws_access_key), env.deep_view()),
                resolve(text_or_empty(auth.aws_secret_key), env.deep_view()),
                resolve(text_or(auth.aws_region, "us-east-1"@), env.deep_view()),
                resolve(text_or(auth.aws_service, "execute-api"@), env.deep_view()),
                uppercased(method@), parts.0, value_or_empty(parts.1),
                value_or_empty(parts.2), sha256_hex(payload_bytes(*body, env.deep_view())), d@, a@);
            assert(value_or_empty(parts.1) == match parts.1 {
                Some(q) => q,
                None => seq![],
            });
            assert(value_or_empty(parts.2) == match parts.2 {
                Some(q) => q,
                None => seq![],
            });
        }
    }
    res
}

/// An optional text, or the empty text.
pub open spec fn value_or_empty(o: Option<Seq<char>>) -> Seq<char> {
    match o {
        Some(v) => v,
        None => seq![],
    }
}


// ---------------------------------------------------------------------------
// Requests
// ---------------------------------------------------------------------------

/// A saved HTTP request. Headers, query parameters and the body's fields are
/// lists of name/value pairs in the order they are sent.
pub struct ParallaxRequest {
    pub id: String,
    pub name: String,
    pub method: String,
    pub url: String,
    pub headers: Vec<(String, String)>,
    pub params: Option<Vec<(String, String)>>,
    pub body: Option<RequestBody>,
    pub auth: Option<AuthConfig>,
    pub timeout_ms: Option<u64>,
    pub follow_redirects: Option<bool>,
    pub scripts: Option<RequestScripts>,
    /// Skip TLS certificate verification (insecure, for development).
    pub tls_skip_verify: Option<bool>,
    /// HTTP/HTTPS proxy URL, e.g. `http://127.0.0.1:8888`.
    pub proxy_url: Option<String>,
    /// PEM-encoded client certificate for mTLS.
    pub client_cert_pem: Option<String>,
    /// PEM-encoded client private key for mTLS.
    pub client_key_pem: Option<String>,
    /// Disable the cookie jar for this request.
    pub disable_cookies: Option<bool>,
}

/// An optional flag, false when absent.
pub open spec fn flag(o: Option<bool>) -> bool {
    match o {
        Some(b) => b,
        None => false,
    }
}

/// Whether a request needs a client of its own rather than the shared one: it
/// skips TLS verification, goes through a proxy, presents a client certificate,
/// or disables cookies.
pub open spec fn needs_custom_spec(req: &ParallaxRequest) -> bool {
    flag(req.tls_skip_verify) || req.proxy_url is Some || req.client_cert_pem is Some || flag(
        req.disable_cookies,
    )
}

/// Whether a request needs a client of its own (see `needs_custom_spec`).
pub fn needs_custom_client(req: &ParallaxRequest) -> (res: bool)
    ensures
        res == needs_custom_spec(req),
{
    let tls = match req.tls_skip_verify {
        Some(b) => b,
        None => false,
    };
    let no_cookies = match req.disable_cookies {
        Some(b) => b,
        None => false,
    };
    tls || req.proxy_url.is_some() || req.client_cert_pem.is_some() || no_cookies
}

/// How to build the client for a request.
pub struct ClientOptions {
    pub cookie_store: bool,
    pub accept_invalid_certs: bool,
    pub proxy: Option<String>,
    /// Certificate and key, joined by a newline, when both are given.
    pub identity_pem: Option<String>,
}

/// The client a request needs: a cookie store unless cookies are disabled,
/// invalid certificates accepted when TLS verification is skipped, its proxy,
/// and its certificate and key as one PEM text when it has both. For a request
/// that needs no client of its own these are the shared client's settings.
pub fn client_options(req: &ParallaxRequest) -> (res: ClientOptions)
    ensures
        res.cookie_store == !flag(req.disable_cookies),
        res.accept_invalid_certs == flag(req.tls_skip_verify),
        res.proxy.deep_view() == req.proxy_url.deep_view(),
        res.identity_pem.deep_view() == match (req.client_cert_pem, req.client_key_pem) {
            (Some(c), Some(k)) => Some(c@ + "\n"@ + k@),
            _ => None,
        },
        !needs_custom_spec(req) ==> res.cookie_store && !res.accept_invalid_certs
            && res.proxy is None && res.identity_pem is None,
{
    let no_cookies = match req.disable_cookies {
        Some(b) => b,
        None => false,
    };
    let tls = match req.tls_skip_verify {
        Some(b) => b,
        None => false,
    };
    let proxy = match &req.proxy_url {
        Some(p) => Some(p.clone()),
        None => None,
    };
    let identity_pem = match (&req.client_cert_pem, &req.client_key_pem) {
        (Some(c), Some(k)) => {
            let mut pem = concat(c.as_str(), "\n");
            push_str(&mut pem, k.as_str());
            Some(pem)
        },
        _ => None,
    };
    ClientOptions { cookie_store: !no_cookies, accept_invalid_certs: tls, proxy, identity_pem }
}

/// Whether some text is a JSON document (`serde_json::from_str::<Value>` accepts it).
pub uninterp spec fn json_valid(s: Seq<char>) -> bool;

/// `serde_json::from_str::<serde_json::Value>(s).is_ok()`.
#[verifier::external_body]
pub(crate) fn is_json(s: &str) -> (res: bool)
    ensures
        res == json_valid(s@),
{
    serde_json::from_str::<serde_json::Value>(s).is_ok()
}

/// What authentication adds to a request.
pub enum AuthAction {
    NoAuth,
    /// `Authorization: Bearer <token>`.
    Bearer(String),
    /// Basic authentication with a user name and password.
    Basic(String, String),
    /// One header.
    Header(String, String),
    /// Several headers.
    Headers(Vec<(String, String)>),
}

/// The mathematical value of an `AuthAction`.
pub enum AuthActionView {
    NoAuth,
    Bearer(Seq<char>),
    Basic(Seq<char>, Seq<char>),
    Header(Seq<char>, Seq<char>),
    Headers(Seq<(Seq<char>, Seq<char>)>),
}

impl View for AuthAction {
    type V = AuthActionView;

    open spec fn view(&self) -> AuthActionView {
        match self {
            AuthAction::NoAuth => AuthActionView::NoAuth,
            AuthAction::Bearer(t) => AuthActionView::Bearer(t@),
            AuthAction::Basic(u, p) => AuthActionView::Basic(u@, p@),
            AuthAction::Header(n, v) => AuthActionView::Header(n@, v@),
            AuthAction::Headers(h) => AuthActionView::Headers(h.deep_view()),
        }
    }
}

/// Whether an API key goes into the query string (`api_key_location` is `query`).
pub open spec fn in_query(location: Option<String>) -> bool {
    match location {
        Some(l) => l@ == "query"@,
        None => false,
    }
}

/// What an authentication setting adds to a request, `{{variables}}` resolved
/// from `env`: a bearer token when one is given; Basic credentials (empty when
/// missing); an API key header when the key is not sent in the query and both
/// its name and value are given; a provider session's headers when it has
/// them; nothing otherwise.
pub open spec fn auth_action_spec(auth: AuthConfig, env: Seq<(Seq<char>, Seq<char>)>) -> AuthActionView {
    match auth.auth_type {
        AuthType::Bearer => match auth.token {
            Some(t) => AuthActionView::Bearer(resolve(t@, env)),
            None => AuthActionView::NoAuth,
        },
        AuthType::Basic => AuthActionView::Basic(
            resolve(text_or_empty(auth.username), env),
            resolve(text_or_empty(auth.password), env),
        ),
        AuthType::ApiKey => if !in_query(auth.api_key_location) && auth.api_key_header is Some
            && auth.api_key_value is Some {
            AuthActionView::Header(
                resolve(auth.api_key_header->0@, env),
                resolve(auth.api_key_value->0@, env),
            )
        } else {
            AuthActionView::NoAuth
        },
        AuthType::EcosystemProvider => match auth.injected_headers {
            Some(h) => AuthActionView::Headers(h.deep_view()),
            None => AuthActionView::NoAuth,
        },
        _ => AuthActionView::NoAuth,
    }
}

fn is_query_location(location: &Option<String>) -> (res: bool)
    ensures
        res == in_query(*location),
{
    match location {
        Some(l) => crate::text::str_eq(l.as_str(), "query"),
        None => false,
    }
}

/// What an authentication setting adds to a request (see `auth_action_spec`).
pub fn auth_action(auth: &AuthConfig, env: &Vec<(String, String)>) -> (res: AuthAction)
    ensures
        res@ == auth_action_spec(*auth, env.deep_view()),
{
    match auth.auth_type {
        AuthType::Bearer => match &auth.token {
            Some(t) => AuthAction::Bearer(resolve_env(t.as_str(), env)),
            None => AuthAction::NoAuth,
        },
        AuthType::Basic => AuthAction::Basic(
            resolve_env(str_or_empty(&auth.username), env),
            resolve_env(str_or_empty(&auth.password), env),
        ),
        AuthType::ApiKey => {
            if !is_query_location(&auth.api_key_location) {
                match (&auth.api_key_header, &auth.api_key_value) {
                    (Some(h), Some(v)) => AuthAction::Header(
                        resolve_env(h.as_str(), env),
                        resolve_env(v.as_str(), env),
                    ),
                    _ => AuthAction::NoAuth,
                }
            } else {
                AuthAction::NoAuth
            }
        },
        AuthType::EcosystemProvider => match &auth.injected_headers {
            Some(h) => {
                let mut out: Vec<(String, String)> = Vec::new();
                for i in 0..h.len()
                    invariant
                        out.deep_view() =~= h.deep_view().take(i as int),
                {
                    out.push((h[i].0.clone(), h[i].1.clone()));
                    assert(h.deep_view().take(i + 1) =~= h.deep_view().take(i as int).push(
                        h.deep_view()[i as int],
                    ));
                }
                assert(h.deep_view().take(h.len() as int) =~= h.deep_view());
                AuthAction::Headers(out)
            },
            None => AuthAction::NoAuth,
        },
        _ => AuthAction::NoAuth,
    }
}

/// The pairs with `{{variables}}` resolved in names and values.
pub open spec fn resolve_pairs(p: Seq<(Seq<char>, Seq<char>)>, env: Seq<(Seq<char>, Seq<char>)>) -> Seq<
    (Seq<char>, Seq<char>),
> {
    p.map_values(|kv: (Seq<char>, Seq<char>)| (resolve(kv.0, env), resolve(kv.1, env)))
}

/// Resolves `{{variables}}` in every name and value.
pub fn resolve_pair_list(p: &Vec<(String, String)>, env: &Vec<(String, String)>) -> (res: Vec<
    (String, String),
>)
    ensures
        res.deep_view() == resolve_pairs(p.deep_view(), env.deep_view()),
{
    let mut out: Vec<(String, String)> = Vec::new();
    for i in 0..p.len()
        invariant
            out.deep_view() =~= resolve_pairs(p.deep_view().take(i as int), env.deep_view()),
    {
        let k = resolve_env(p[i].0.as_str(), env);
        let v = resolve_env(p[i].1.as_str(), env);
        let ghost before = out.deep_view();
        out.push((k, v));
        assert(out.deep_view() =~= before.push((k@, v@)));
        assert(p.deep_view().take(i + 1) =~= p.deep_view().take(i as int).push(
            p.deep_view()[i as int],
        ));
        assert(resolve_pairs(p.deep_view().take(i + 1), env.deep_view()) =~= resolve_pairs(
            p.deep_view().take(i as int),
            env.deep_view(),
        ).push((k@, v@)));
    }
    assert(p.deep_view().take(p.len() as int) =~= p.deep_view());
    out
}


/// What a request sends as its body.
pub enum BodyPlan {
    NoBody,
    /// A JSON document, as JSON text.
    Json(String),
    /// Raw text.
    Raw(String),
    /// A `application/x-www-form-urlencoded` form.
    Form(Vec<(String, String)>),
    /// A `multipart/form-data` form.
    Multipart(Vec<(String, String)>),
    /// A GraphQL request document (`{ query, variables }`), as JSON text.
    GraphQL(String),
    /// The JSON body, once its variables are resolved, is no JSON document.
    InvalidJson,
}

/// The mathematical value of a `BodyPlan`.
pub enum BodyPlanView {
    NoBody,
    Json(Seq<char>),
    Raw(Seq<char>),
    Form(Seq<(Seq<char>, Seq<char>)>),
    Multipart(Seq<(Seq<char>, Seq<char>)>),
    GraphQL(Seq<char>),
    InvalidJson,
}

impl View for BodyPlan {
    type V = BodyPlanView;

    open spec fn view(&self) -> BodyPlanView {
        match self {
            BodyPlan::NoBody => BodyPlanView::NoBody,
            BodyPlan::Json(t) => BodyPlanView::Json(t@),
            BodyPlan::Raw(t) => BodyPlanView::Raw(t@),
            BodyPlan::Form(f) => BodyPlanView::Form(f.deep_view()),
            BodyPlan::Multipart(f) => BodyPlanView::Multipart(f.deep_view()),
            BodyPlan::GraphQL(t) => BodyPlanView::GraphQL(t@),
            BodyPlan::InvalidJson => BodyPlanView::InvalidJson,
        }
    }
}

/// What a body sends, `{{variables}}` resolved from `env`: JSON text with its
/// variables resolved (when that is still JSON); raw text (empty when none);
/// the fields as a url-encoded or a multipart form; a GraphQL document as it
/// is; nothing for other kinds.
pub open spec fn body_plan_spec(body: RequestBody, env: Seq<(Seq<char>, Seq<char>)>) -> BodyPlanView {
    match body.body_type {
        BodyType::Json => if json_valid(resolve(body.content@, env)) {
            BodyPlanView::Json(resolve(body.content@, env))
        } else {
            BodyPlanView::InvalidJson
        },
        BodyType::Raw => BodyPlanView::Raw(resolve(text_or_empty(body.raw), env)),
        BodyType::UrlEncoded => match body.fields {
            Some(f) => BodyPlanView::Form(resolve_pairs(f.deep_view(), env)),
            None => BodyPlanView::NoBody,
        },
        BodyType::FormData => match body.fields {
            Some(f) => BodyPlanView::Multipart(resolve_pairs(f.deep_view(), env)),
            None => BodyPlanView::NoBody,
        },
        BodyType::GraphQL => BodyPlanView::GraphQL(body.content@),
        _ => BodyPlanView::NoBody,
    }
}

/// What a body sends (see `body_plan_spec`).
pub fn body_plan(body: &RequestBody, env: &Vec<(String, String)>) -> (res: BodyPlan)
    ensures
        res@ == body_plan_spec(*body, env.deep_view()),
{
    match body.body_type {
        BodyType::Json => {
            let text = resolve_env(body.content.as_str(), env);
            if is_json(text.as_str()) {
                BodyPlan::Json(text)
            } else {
                BodyPlan::InvalidJson
            }
        },
        BodyType::Raw => BodyPlan::Raw(resolve_env(str_or_empty(&body.raw), env)),
        BodyType::UrlEncoded => match &body.fields {
            Some(f) => BodyPlan::Form(resolve_pair_list(f, env)),
            None => BodyPlan::NoBody,
        },
        BodyType::FormData => match &body.fields {
            Some(f) => BodyPlan::Multipart(resolve_pair_list(f, env)),
            None => BodyPlan::NoBody,
        },
        BodyType::GraphQL => BodyPlan::GraphQL(body.content.clone()),
        _ => BodyPlan::NoBody,
    }
}

/// The text that a body plan sends: the JSON, raw or GraphQL text as it is, a
/// form in url-encoded or multipart form, and nothing otherwise.
pub open spec fn plan_text(plan: BodyPlanView) -> Seq<char> {
    match plan {
        BodyPlanView::Json(t) => t,
        BodyPlanView::Raw(t) => t,
        BodyPlanView::GraphQL(t) => t,
        BodyPlanView::Form(p) => form_text(p),
        BodyPlanView::Multipart(p) => multipart_text(p),
        _ => seq![],
    }
}

/// The content type that a body plan is sent with, if it sets one.
pub open spec fn plan_content_type(plan: BodyPlanView) -> Option<Seq<char>> {
    match plan {
        BodyPlanView::Json(_) => Some("application/json"@),
        BodyPlanView::GraphQL(_) => Some("application/json"@),
        BodyPlanView::Form(_) => Some("application/x-www-form-urlencoded"@),
        BodyPlanView::Multipart(_) => Some("multipart/form-data; boundary=parallax-form-boundary"@),
        _ => None,
    }
}

/// The text that a body plan sends (see `plan_text`).
pub fn body_text(plan: &BodyPlan) -> (res: String)
    ensures
        res@ == plan_text(plan@),
{
    match plan {
        BodyPlan::Json(t) => t.clone(),
        BodyPlan::Raw(t) => t.clone(),
        BodyPlan::GraphQL(t) => t.clone(),
        BodyPlan::Form(p) => form_body(p),
        BodyPlan::Multipart(p) => multipart_body(p),
        _ => String::new(),
    }
}

/// The content type that a body plan is sent with (see `plan_content_type`).
pub fn body_content_type(plan: &BodyPlan) -> (res: Option<String>)
    ensures
        res.deep_view() == plan_content_type(plan@),
{
    match plan {
        BodyPlan::Json(_) => Some("application/json".to_owned()),
        BodyPlan::GraphQL(_) => Some("application/json".to_owned()),
        BodyPlan::Form(_) => Some("application/x-www-form-urlencoded".to_owned()),
        BodyPlan::Multipart(_) => Some(multipart_content_type().to_owned()),
        _ => None,
    }
}

/// Everything that sending a request needs besides the network: the URL with
/// its variables resolved, the query pairs to append to it, the method name,
/// the timeout, the headers, what authentication adds, the body, and whether
/// the request is signed with SigV4 once its body is set.
pub struct RequestPlan {
    pub url: String,
    pub query: Vec<(String, String)>,
    pub method: String,
    pub timeout_ms: Option<u64>,
    pub headers: Vec<(String, String)>,
    pub auth: AuthAction,
    pub body: BodyPlan,
    pub sign_sigv4: bool,
}

/// The query pairs of a request: its parameters, then, for an API key sent in
/// the query with both a name and a value, the key; all resolved from `env`.
pub open spec fn query_spec(req: &ParallaxRequest, env: Seq<(Seq<char>, Seq<char>)>) -> Seq<
    (Seq<char>, Seq<char>),
> {
    let params = match req.params {
        Some(p) => resolve_pairs(p.deep_view(), env),
        None => seq![],
    };
    let key = match req.auth {
        Some(a) => if a.auth_type == AuthType::ApiKey && in_query(a.api_key_location)
            && a.api_key_header is Some && a.api_key_value is Some {
            seq![(resolve(a.api_key_header->0@, env), resolve(a.api_key_value->0@, env))]
        } else {
            seq![]
        },
        None => seq![],
    };
    params + key
}

/// How a request is sent (see `RequestPlan`); the method is upper-cased.
pub fn plan_request(req: &ParallaxRequest, env: &Vec<(String, String)>) -> (res: RequestPlan)
    ensures
        res.url@ == resolve(req.url@, env.deep_view()),
        res.query.deep_view() == query_spec(req, env.deep_view()),
        res.method@ == uppercased(req.method@),
        res.timeout_ms == req.timeout_ms,
        res.headers.deep_view() == resolve_pairs(req.headers.deep_view(), env.deep_view()),
        res.auth@ == match req.auth {
            Some(a) => auth_action_spec(a, env.deep_view()),
            None => AuthActionView::NoAuth,
        },
        res.body@ == match req.body {
            Some(b) => body_plan_spec(b, env.deep_view()),
            None => BodyPlanView::NoBody,
        },
        res.sign_sigv4 == (req.auth matches Some(a) && a.auth_type == AuthType::AwsSigV4),
{
    let url = resolve_env(req.url.as_str(), env);
    let mut query: Vec<(String, String)> = match &req.params {
        Some(p) => resolve_pair_list(p, env),
        None => Vec::new(),
    };
    let ghost params = query.deep_view();
    if let Some(a) = &req.auth {
        if a.auth_type == AuthType::ApiKey && is_query_location(&a.api_key_location) {
            if let (Some(k), Some(v)) = (&a.api_key_header, &a.api_key_value) {
                let k = resolve_env(k.as_str(), env);
                let v = resolve_env(v.as_str(), env);
                query.push((k, v));
            }
        }
    }
    assert(query.deep_view() =~= query_spec(req, env.deep_view()));
    let method = to_uppercase(req.method.as_str());
    let headers = resolve_pair_list(&req.headers, env);
    let auth = match &req.auth {
        Some(a) => auth_action(a, env),
        None => AuthAction::NoAuth,
    };
    let body = match &req.body {
        Some(b) => body_plan(b, env),
        None => BodyPlan::NoBody,
    };
    let sign_sigv4 = match &req.auth {
        Some(a) => a.auth_type == AuthType::AwsSigV4,
        None => false,
    };
    RequestPlan { url, query, method, timeout_ms: req.timeout_ms, headers, auth, body, sign_sigv4 }
}

/// Whether a reply calls for the Digest retry: the request uses Digest
/// authentication, the status is 401, and the reply has a `WWW-Authenticate`
/// challenge.
pub fn digest_retry_needed(auth: &Option<AuthConfig>, status: u16, challenge: &Option<String>) -> (res: bool)
    ensures
        res == (auth matches Some(a) && a.auth_type == AuthType::Digest && status == 401
            && challenge is Some),
{
    match auth {
        Some(a) => a.auth_type == AuthType::Digest && status == 401 && challenge.is_some(),
        None => false,
    }
}

/// The path of a URL, or `/` when it does not parse.
pub open spec fn path_or_root(url: Seq<char>) -> Seq<char> {
    match url_parts(url) {
        Some(p) => p.0,
        None => "/"@,
    }
}

/// The `Authorization` value of the Digest retry: the challenge answered for the
/// upper-cased method on the URL's path, with a fresh client nonce.
pub fn digest_authorization(
    auth: &AuthConfig,
    env: &Vec<(String, String)>,
    method: &str,
    url: &str,
    challenge: &str,
) -> (res: String)
    ensures
        exists|n: u32|
            res@ == digest_header_spec(
                resolve(text_or_empty(auth.username), env.deep_view()),
                resolve(text_or_empty(auth.password), env.deep_view()),
                uppercased(method@),
                path_or_root(url@),
                challenge@,
                #[trigger] hex_u32(n),
            ),
{
    let upper = to_uppercase(method);
    let path = match parse_url_parts(url) {
        Some(p) => p.0,
        None => "/".to_owned(),
    };
    proof {
        reveal_strlit("/");
    }
    build_digest_header_now(auth, env, upper.as_str(), path.as_str(), challenge)
}


// ---------------------------------------------------------------------------
// Responses
// ---------------------------------------------------------------------------

/// The body of a response: its text (ill-formed UTF-8 replaced), the text again
/// when the content type is JSON and the text parses as JSON, and the content type.
pub struct ResponseBody {
    pub raw: String,
    pub json: Option<String>,
    pub content_type: String,
}

/// A response as the client shows it. Header names are unique.
pub struct ParallaxResponse {
    pub status: u16,
    pub status_text: String,
    pub headers: Vec<(String, String)>,
    pub body: ResponseBody,
    pub timing: ResponseTiming,
    pub cookies: Vec<CookieInfo>,
    pub size_bytes: usize,
    pub redirects: Vec<String>,
}

/// The reason phrase that the `http` crate's `StatusCode::canonical_reason` gives
/// a status, if any.
pub uninterp spec fn canonical_reason(status: u16) -> Option<Seq<char>>;

/// `StatusCode::from_u16(status)` then `canonical_reason()` (the `http` crate, as
/// re-exported by reqwest): the standard reason phrase, if the code has one.
#[verifier::external_body]
pub(crate) fn reason_phrase(status: u16) -> (res: Option<String>)
    ensures
        res.deep_view() == canonical_reason(status),
{
    reqwest::StatusCode::from_u16(status).ok().and_then(|s| s.canonical_reason()).map(|r| r.to_string())
}

/// Whether the `i`-th pair is the last one with its name.
pub open spec fn is_last_of_name(h: Seq<(Seq<char>, Seq<char>)>, i: int) -> bool {
    forall|j: int| i < j < h.len() ==> h[j].0 != h[i].0
}

/// The first `n` pairs, without those whose name comes again later in `h`.
pub open spec fn collapse_upto(h: Seq<(Seq<char>, Seq<char>)>, n: int) -> Seq<(Seq<char>, Seq<char>)>
    decreases n,
{
    if n <= 0 {
        seq![]
    } else {
        collapse_upto(h, n - 1) + if is_last_of_name(h, n - 1) {
            seq![h[n - 1]]
        } else {
            seq![]
        }
    }
}

/// The pairs as a map keeps them: for each name, its last value.
pub open spec fn collapse(h: Seq<(Seq<char>, Seq<char>)>) -> Seq<(Seq<char>, Seq<char>)> {
    collapse_upto(h, h.len() as int)
}

/// Keeps, for each name, only its last pair (see `collapse`).
pub fn collapse_pairs(h: &Vec<(String, String)>) -> (res: Vec<(String, String)>)
    ensures
        res.deep_view() == collapse(h.deep_view()),
{
    let ghost hv = h.deep_view();
    let mut out: Vec<(String, String)> = Vec::new();
    let mut i: usize = 0;
    while i < h.len()
        invariant
            i <= h.len(),
            hv == h.deep_view(),
            out.deep_view() == collapse_upto(hv, i as int),
        decreases h.len() - i,
    {
        let mut later = false;
        let mut j: usize = i + 1;
        while j < h.len()
            invariant
                i < j <= h.len(),
                hv == h.deep_view(),
                later <==> exists|k: int| i < k < j && hv[k].0 == hv[i as int].0,
            decreases h.len() - j,
        {
            assert(hv[j as int].0 == h[j as int].0@ && hv[i as int].0 == h[i as int].0@);
            if crate::text::str_eq(h[j].0.as_str(), h[i].0.as_str()) {
                later = true;
                assert(hv[j as int].0 == hv[i as int].0);
            } else {
                assert(hv[j as int].0 != hv[i as int].0);
            }
            j = j + 1;
        }
        let ghost before = out.deep_view();
        if !later {
            out.push((h[i].0.clone(), h[i].1.clone()));
            assert(out.deep_view() =~= before + seq![hv[i as int]]);
        } else {
            assert(!is_last_of_name(hv, i as int));
            assert(out.deep_view() =~= before + seq![]);
        }
        i = i + 1;
    }
    out
}

proof fn lemma_last_value_index(h: Seq<(Seq<char>, Seq<char>)>, k: Seq<char>)
    ensures
        last_value(h, k) is None ==> forall|j: int| 0 <= j < h.len() ==> h[j].0 != k,
        last_value(h, k) matches Some(v) ==> exists|l: int|
            0 <= l < h.len() && h[l].0 == k && h[l].1 == v && forall|j: int|
                l < j < h.len() ==> #[trigger] h[j].0 != k,
    decreases h.len(),
{
    if h.len() > 0 {
        lemma_last_value_index(h.drop_last(), k);
        if h.last().0 == k {
            assert(h[h.len() - 1].0 == k);
        } else {
            assert forall|j: int| 0 <= j < h.len() - 1 implies h[j] == #[trigger] h.drop_last()[j] by {}
            if last_value(h, k) is None {
                assert forall|j: int| 0 <= j < h.len() implies h[j].0 != k by {
                    if j < h.len() - 1 {
                        assert(h.drop_last()[j].0 != k);
                    }
                }
            }
            if let Some(v) = last_value(h, k) {
                let l = choose|l: int|
                    0 <= l < h.drop_last().len() && h.drop_last()[l].0 == k && h.drop_last()[l].1 == v
                        && forall|j: int| l < j < h.drop_last().len() ==> #[trigger] h.drop_last()[j].0 != k;
                assert(h[l].0 == k && h[l].1 == v);
                assert forall|j: int| l < j < h.len() implies #[trigger] h[j].0 != k by {
                    if j < h.len() - 1 {
                        assert(h.drop_last()[j].0 != k);
                    }
                }
            }
        }
    }
}

proof fn lemma_collapse_upto_value(h: Seq<(Seq<char>, Seq<char>)>, k: Seq<char>, n: int, l: int)
    requires
        0 <= n <= h.len(),
        0 <= l < h.len(),
        h[l].0 == k,
        forall|j: int| l < j < h.len() ==> #[trigger] h[j].0 != k,
    ensures
        n <= l ==> header_value(collapse_upto(h, n), k) is None,
        n > l ==> header_value(collapse_upto(h, n), k) == Some(h[l].1),
    decreases n,
{
    if n > 0 {
        lemma_collapse_upto_value(h, k, n - 1, l);
        let prev = collapse_upto(h, n - 1);
        let x = h[n - 1];
        if is_last_of_name(h, n - 1) {
            assert(collapse_upto(h, n) == prev.push(x));
            assert(prev.push(x).drop_last() =~= prev);
            if n - 1 < l && x.0 == k {
                assert(!is_last_of_name(h, n - 1)) by {
                    assert(h[l].0 == h[n - 1].0);
                }
            }
        } else {
            assert(collapse_upto(h, n) =~= prev);
            if n - 1 == l {
                assert(is_last_of_name(h, l));
            }
        }
    }
}

proof fn lemma_collapse_upto_none(h: Seq<(Seq<char>, Seq<char>)>, k: Seq<char>, n: int)
    requires
        0 <= n <= h.len(),
        forall|j: int| 0 <= j < h.len() ==> h[j].0 != k,
    ensures
        header_value(collapse_upto(h, n), k) is None,
    decreases n,
{
    if n > 0 {
        lemma_collapse_upto_none(h, k, n - 1);
        let prev = collapse_upto(h, n - 1);
        if is_last_of_name(h, n - 1) {
            assert(collapse_upto(h, n).drop_last() =~= prev);
        } else {
            assert(collapse_upto(h, n) =~= prev);
        }
    }
}

/// Reading a header of a response gives what the reply's last header of that
/// name said: the kept headers answer a lookup of any name with its last value.
pub proof fn law_collapse_keeps_last(h: Seq<(Seq<char>, Seq<char>)>, k: Seq<char>)
    ensures
        header_value(collapse(h), k) == last_value(h, k),
{
    lemma_last_value_index(h, k);
    match last_value(h, k) {
        None => {
            lemma_collapse_upto_none(h, k, h.len() as int);
        },
        Some(v) => {
            let l = choose|l: int|
                0 <= l < h.len() && h[l].0 == k && h[l].1 == v && forall|j: int|
                    l < j < h.len() ==> #[trigger] h[j].0 != k;
            lemma_collapse_upto_value(h, k, h.len() as int, l);
        },
    }
}

/// The values of the pairs named `set-cookie` (in any case), in order.
pub open spec fn set_cookie_values(h: Seq<(Seq<char>, Seq<char>)>) -> Seq<Seq<char>>
    decreases h.len(),
{
    if h.len() == 0 {
        seq![]
    } else {
        set_cookie_values(h.drop_last()) + if lowercase_equals(h.last().0, "set-cookie"@) {
            seq![h.last().1]
        } else {
            seq![]
        }
    }
}

/// The parts of a cookie, as `set_cookie_spec` gives them.
pub open spec fn cookie_parts(c: CookieInfo) -> (
    Seq<char>,
    Seq<char>,
    Option<Seq<char>>,
    Option<Seq<char>>,
    bool,
    bool,
) {
    (c.name@, c.value@, opt_view(c.domain), opt_view(c.path), c.secure, c.http_only)
}

/// The cookies that the `set-cookie` pairs of `h` set, in order.
pub fn cookies_of(h: &Vec<(String, String)>) -> (res: Vec<CookieInfo>)
    ensures
        res@.map_values(|c: CookieInfo| cookie_parts(c)) == set_cookie_values(h.deep_view()).map_values(
            |v: Seq<char>| set_cookie_spec(v),
        ),
{
    let ghost hv = h.deep_view();
    let name = chars_of("set-cookie");
    let mut out: Vec<CookieInfo> = Vec::new();
    let mut i: usize = 0;
    while i < h.len()
        invariant
            i <= h.len(),
            hv == h.deep_view(),
            name@ == "set-cookie"@,
            out@.map_values(|c: CookieInfo| cookie_parts(c)) == set_cookie_values(
                hv.take(i as int),
            ).map_values(|v: Seq<char>| set_cookie_spec(v)),
        decreases h.len() - i,
    {
        assert(hv.take(i + 1).drop_last() =~= hv.take(i as int));
        assert(hv.take(i + 1).last() == hv[i as int]);
        let n = chars_of(h[i].0.as_str());
        let ghost before = out@;
        if chars_lowercase_equals(n.as_slice(), name.as_slice()) {
            let c = parse_set_cookie(h[i].1.as_str());
            out.push(c);
            assert(out@ =~= before.push(c));
            assert(out@.map_values(|c: CookieInfo| cookie_parts(c)) =~= before.map_values(
                |c: CookieInfo| cookie_parts(c),
            ).push(cookie_parts(c)));
            assert(set_cookie_values(hv.take(i + 1)) =~= set_cookie_values(hv.take(i as int)).push(
                hv[i as int].1,
            ));
            assert(set_cookie_values(hv.take(i + 1)).map_values(|v: Seq<char>| set_cookie_spec(v))
                =~= set_cookie_values(hv.take(i as int)).map_values(
                |v: Seq<char>| set_cookie_spec(v),
            ).push(set_cookie_spec(hv[i as int].1)));
        } else {
            assert(set_cookie_values(hv.take(i + 1)) =~= set_cookie_values(hv.take(i as int)));
        }
        i = i + 1;
    }
    assert(hv.take(h.len() as int) =~= hv);
    out
}

/// The content type of a reply: its last `content-type` header, or empty.
pub open spec fn content_type_of(h: Seq<(Seq<char>, Seq<char>)>) -> Seq<char> {
    value_or(last_value(h, "content-type"@), seq![])
}

/// The response that a reply amounts to, given its status, the reason phrase of
/// the status (if it has one), its headers (names in lower case, in order),
/// its body as text, whether that text parses as JSON, its size in bytes and the
/// time it took: headers kept as a map keeps them, one cookie per
/// `set-cookie` header in order, and the text again as JSON when the content type
/// mentions `application/json` and the text parses.
pub fn assemble_response(
    status: u16,
    reason: Option<String>,
    headers: &Vec<(String, String)>,
    raw: String,
    raw_parses: bool,
    size_bytes: usize,
    total_ms: u128,
) -> (res: ParallaxResponse)
    ensures
        res.status == status,
        res.status_text@ == value_or(reason.deep_view(), "Unknown"@),
        res.headers.deep_view() == collapse(headers.deep_view()),
        res.body.raw@ == raw@,
        res.body.content_type@ == content_type_of(headers.deep_view()),
        res.body.json.deep_view() == if contains(content_type_of(headers.deep_view()), "application/json"@)
            && raw_parses {
            Some(raw@)
        } else {
            None
        },
        res.cookies@.map_values(|c: CookieInfo| cookie_parts(c)) == set_cookie_values(
            headers.deep_view(),
        ).map_values(|v: Seq<char>| set_cookie_spec(v)),
        res.size_bytes == size_bytes,
        res.timing.total_ms == total_ms,
        res.timing.dns_ms is None && res.timing.connect_ms is None && res.timing.ttfb_ms is None,
        res.redirects@.len() == 0,
{
    let status_text = match reason {
        Some(r) => r,
        None => "Unknown".to_owned(),
    };
    let kept = collapse_pairs(headers);
    let content_type = match find_last(headers, "content-type") {
        Some(c) => c,
        None => String::new(),
    };
    let cookies = cookies_of(headers);
    let json = if str_contains(content_type.as_str(), "application/json") && raw_parses {
        Some(raw.clone())
    } else {
        None
    };
    ParallaxResponse {
        status,
        status_text,
        headers: kept,
        body: ResponseBody { raw, json, content_type },
        timing: ResponseTiming { total_ms, dns_ms: None, connect_ms: None, ttfb_ms: None },
        cookies,
        size_bytes,
        redirects: Vec::new(),
    }
}

/// The response that a reply amounts to, from its status, its headers (names in
/// lower case, in order, values that are not visible ASCII read as empty), its
/// body bytes and the time it took (see `assemble_response`): the status's
/// standard reason phrase, and the body as lossy UTF-8 text, checked for JSON
/// only when the content type mentions `application/json`.
pub fn parse_response(status: u16, headers: &Vec<(String, String)>, body: &[u8], total_ms: u128) -> (res: ParallaxResponse)
    ensures
        res.status == status,
        res.status_text@ == value_or(canonical_reason(status), "Unknown"@),
        res.headers.deep_view() == collapse(headers.deep_view()),
        res.body.raw@ == utf8_lossy(body@),
        res.body.content_type@ == content_type_of(headers.deep_view()),
        res.body.json.deep_view() == if contains(content_type_of(headers.deep_view()), "application/json"@)
            && json_valid(utf8_lossy(body@)) {
            Some(utf8_lossy(body@))
        } else {
            None
        },
        res.cookies@.map_values(|c: CookieInfo| cookie_parts(c)) == set_cookie_values(
            headers.deep_view(),
        ).map_values(|v: Seq<char>| set_cookie_spec(v)),
        res.size_bytes == body.len(),
        res.timing.total_ms == total_ms,
        res.timing.dns_ms is None && res.timing.connect_ms is None && res.timing.ttfb_ms is None,
        res.redirects@.len() == 0,
{
    let reason = reason_phrase(status);
    let raw = utf8_lossy_string(body);
    let content_type = match find_last(headers, "content-type") {
        Some(c) => c,
        None => String::new(),
    };
    let parses = if str_contains(content_type.as_str(), "application/json") {
        is_json(raw.as_str())
    } else {
        false
    };
    assemble_response(status, reason, headers, raw, parses, body.len(), total_ms)
}


/// The challenge's `opaque` is echoed whenever it has one, with `qop` or
/// without: the `Authorization` value then ends with `, opaque="<opaque>"`.
pub proof fn law_digest_echoes_opaque(
    username: Seq<char>,
    password: Seq<char>,
    method: Seq<char>,
    uri: Seq<char>,
    www_auth: Seq<char>,
    cnonce: Seq<char>,
)
    ensures
        digest_param(www_auth, "opaque"@).len() != 0 ==> has_suffix(
            digest_header_spec(username, password, method, uri, www_auth, cnonce),
            ", opaque=\""@ + digest_param(www_auth, "opaque"@) + "\""@,
        ),
{
    let o = digest_param(www_auth, "opaque"@);
    if o.len() != 0 {
        let h = digest_header_spec(username, password, method, uri, www_auth, cnonce);
        let suffix = ", opaque=\""@ + o + "\""@;
        let front = h.take(h.len() - suffix.len());
        assert(h.skip(h.len() - suffix.len()) =~= suffix);
    }
}

} // verus!
