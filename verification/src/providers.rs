//! Ecosystem-aware authentication: which framework a server runs, and for each
//! one the requests that log in and the session that the replies amount to.
//! Sending the requests is the caller's part; every decision and every value
//! that goes out or comes back is computed here.
use vstd::prelude::*;
use crate::text::{lowers_to, chars_of, chars_lowercase_equals, lowercase_equals, concat, push_str, contains, str_contains, has_prefix, has_suffix, starts_with, ends_with};
use crate::grpc::{header_value, find_header};
use crate::form::percent_decode_bytes;
use crate::text::utf8_lossy;
use crate::schema::{captures_all, regex_captures, group, group_text};
use crate::crypto::{b64_encode, base64_standard, base64_url_no_pad, sha256, sha256_digest};
use vstd::utf8::*;
use vstd::string::StringSliceAdditionalSpecFns;

verus! {

/// The frameworks whose login flows the library knows.
#[derive(Clone, Copy, Debug, PartialEq, Eq, Structural)]
pub enum EcosystemProvider {
    Frappe,
    Django,
    Laravel,
    Rails,
    WordPress,
    FastAPI,
    OAuth2,
    Generic,
}

/// The provider that a name selects, compared after lower-casing: `frappe` or
/// `erpnext`, `django`, `laravel`, `rails` or `ruby_on_rails`, `wordpress` or `wp`,
/// `fastapi`, `oauth2` or `oauth2_pkce`; any other name selects `Generic`.
pub open spec fn provider_named(s: Seq<char>) -> EcosystemProvider {
    if lowercase_equals(s, "frappe"@) || lowercase_equals(s, "erpnext"@) {
        EcosystemProvider::Frappe
    } else if lowercase_equals(s, "django"@) {
        EcosystemProvider::Django
    } else if lowercase_equals(s, "laravel"@) {
        EcosystemProvider::Laravel
    } else if lowercase_equals(s, "rails"@) || lowercase_equals(s, "ruby_on_rails"@) {
        EcosystemProvider::Rails
    } else if lowercase_equals(s, "wordpress"@) || lowercase_equals(s, "wp"@) {
        EcosystemProvider::WordPress
    } else if lowercase_equals(s, "fastapi"@) {
        EcosystemProvider::FastAPI
    } else if lowercase_equals(s, "oauth2"@) || lowercase_equals(s, "oauth2_pkce"@) {
        EcosystemProvider::OAuth2
    } else {
        EcosystemProvider::Generic
    }
}

fn lower_is(s: &[char], name: &str) -> (res: bool)
    ensures
        res == lowercase_equals(s@, name@),
{
    let t = chars_of(name);
    chars_lowercase_equals(s, t.as_slice())
}

impl EcosystemProvider {
    /// The provider named `s` (see `provider_named`).
    pub fn from_str(s: &str) -> (res: Self)
        ensures
            res == provider_named(s@),
    {
        let c = chars_of(s);
        let c = c.as_slice();
        if lower_is(c, "frappe") || lower_is(c, "erpnext") {
            EcosystemProvider::Frappe
        } else if lower_is(c, "django") {
            EcosystemProvider::Django
        } else if lower_is(c, "laravel") {
            EcosystemProvider::Laravel
        } else if lower_is(c, "rails") || lower_is(c, "ruby_on_rails") {
            EcosystemProvider::Rails
        } else if lower_is(c, "wordpress") || lower_is(c, "wp") {
            EcosystemProvider::WordPress
        } else if lower_is(c, "fastapi") {
            EcosystemProvider::FastAPI
        } else if lower_is(c, "oauth2") || lower_is(c, "oauth2_pkce") {
            EcosystemProvider::OAuth2
        } else {
            EcosystemProvider::Generic
        }
    }

    /// The name shown to users.
    pub open spec fn display_text(self) -> Seq<char> {
        match self {
            EcosystemProvider::Frappe => "Frappe / ERPNext"@,
            EcosystemProvider::Django => "Django"@,
            EcosystemProvider::Laravel => "Laravel"@,
            EcosystemProvider::Rails => "Ruby on Rails"@,
            EcosystemProvider::WordPress => "WordPress"@,
            EcosystemProvider::FastAPI => "FastAPI"@,
            EcosystemProvider::OAuth2 => "OAuth2 / PKCE"@,
            EcosystemProvider::Generic => "Generic Session"@,
        }
    }

    /// The name shown to users (see `display_text`).
    pub fn display_name(&self) -> (res: &'static str)
        ensures
            res@ == self.display_text(),
    {
        match self {
            EcosystemProvider::Frappe => "Frappe / ERPNext",
            EcosystemProvider::Django => "Django",
            EcosystemProvider::Laravel => "Laravel",
            EcosystemProvider::Rails => "Ruby on Rails",
            EcosystemProvider::WordPress => "WordPress",
            EcosystemProvider::FastAPI => "FastAPI",
            EcosystemProvider::OAuth2 => "OAuth2 / PKCE",
            EcosystemProvider::Generic => "Generic Session",
        }
    }
}


/// What the user supplies to log in. `extra` holds provider-specific fields as
/// name/value pairs; when a name occurs more than once, lookups read its first
/// occurrence.
pub struct ProviderCredentials {
    pub base_url: String,
    pub username: Option<String>,
    pub password: Option<String>,
    pub api_key: Option<String>,
    pub api_secret: Option<String>,
    pub extra: Option<Vec<(String, String)>>,
}

/// A value kept in a session's data: a string, an integer, or a JSON document
/// (as JSON text) that a server returned.
pub enum SessionValue {
    Text(String),
    Int(i64),
    Json(String),
}

/// The mathematical value of a `SessionValue`.
pub enum SessionDatum {
    Text(Seq<char>),
    Int(i64),
    Json(Seq<char>),
}

impl View for SessionValue {
    type V = SessionDatum;

    open spec fn view(&self) -> SessionDatum {
        match self {
            SessionValue::Text(s) => SessionDatum::Text(s@),
            SessionValue::Int(n) => SessionDatum::Int(*n),
            SessionValue::Json(s) => SessionDatum::Json(s@),
        }
    }
}

/// A logged-in session: the headers and cookies to inject into later requests,
/// what the login returned, and when the session expires (Unix seconds).
pub struct AuthSession {
    pub provider: String,
    pub base_url: String,
    pub injected_headers: Vec<(String, String)>,
    pub injected_cookies: Vec<(String, String)>,
    pub session_data: Vec<(String, SessionValue)>,
    pub expires_at: Option<i64>,
}

/// The mathematical value of an `AuthSession`.
pub struct SessionSpec {
    pub provider: Seq<char>,
    pub base_url: Seq<char>,
    pub headers: Seq<(Seq<char>, Seq<char>)>,
    pub cookies: Seq<(Seq<char>, Seq<char>)>,
    pub data: Seq<(Seq<char>, SessionDatum)>,
    pub expires_at: Option<i64>,
}

impl View for AuthSession {
    type V = SessionSpec;

    open spec fn view(&self) -> SessionSpec {
        SessionSpec {
            provider: self.provider@,
            base_url: self.base_url@,
            headers: self.injected_headers.deep_view(),
            cookies: self.injected_cookies.deep_view(),
            data: self.session_data@.map_values(|p: (String, SessionValue)| p@),
            expires_at: self.expires_at,
        }
    }
}

/// The text of an optional string, or the empty text.
pub open spec fn or_empty(o: Option<String>) -> Seq<char> {
    match o {
        Some(s) => s@,
        None => seq![],
    }
}

fn owned_or_empty(o: &Option<String>) -> (res: String)
    ensures
        res@ == or_empty(*o),
{
    match o {
        Some(s) => s.clone(),
        None => String::new(),
    }
}

fn text_entry(k: &str, v: &str) -> (res: (String, String))
    ensures
        res.0@ == k@,
        res.1@ == v@,
{
    (k.to_owned(), v.to_owned())
}

fn text_datum(k: &str, v: &str) -> (res: (String, SessionValue))
    ensures
        res@ == (k@, SessionDatum::Text(v@)),
{
    (k.to_owned(), SessionValue::Text(v.to_owned()))
}

/// The value of the last pair named `key`: what collecting the pairs into a map
/// keeps for it.
pub open spec fn last_value(h: Seq<(Seq<char>, Seq<char>)>, key: Seq<char>) -> Option<Seq<char>>
    decreases h.len(),
{
    if h.len() == 0 {
        None
    } else if h.last().0 == key {
        Some(h.last().1)
    } else {
        last_value(h.drop_last(), key)
    }
}

/// The value of the last pair named `key`.
pub fn find_last(pairs: &Vec<(String, String)>, key: &str) -> (res: Option<String>)
    ensures
        res.deep_view() == last_value(pairs.deep_view(), key@),
{
    let ghost h = pairs.deep_view();
    let mut i: usize = pairs.len();
    assert(h.take(i as int) =~= h);
    while i > 0
        invariant
            i <= pairs.len(),
            h == pairs.deep_view(),
            last_value(h, key@) == last_value(h.take(i as int), key@),
        decreases i,
    {
        assert(h.take(i as int).drop_last() =~= h.take(i - 1));
        assert(h.take(i as int).last() == h[i - 1]);
        if crate::text::str_eq(pairs[i - 1].0.as_str(), key) {
            return Some(pairs[i - 1].1.clone());
        }
        i = i - 1;
    }
    None
}

/// `value` when present, else `default`.
pub open spec fn value_or(o: Option<Seq<char>>, default: Seq<char>) -> Seq<char> {
    match o {
        Some(v) => v,
        None => default,
    }
}

fn string_or_empty(o: Option<String>) -> (res: String)
    ensures
        res@ == value_or(o.deep_view(), seq![]),
{
    match o {
        Some(s) => s,
        None => String::new(),
    }
}


// ---------------------------------------------------------------------------
// Frappe / ERPNext: a `sid` cookie and the `X-Frappe-CSRF-Token` header
// ---------------------------------------------------------------------------

/// The login endpoint of a Frappe site.
pub fn frappe_login_url(creds: &ProviderCredentials) -> (res: String)
    ensures
        res@ == creds.base_url@ + "/api/method/login"@,
{
    concat(creds.base_url.as_str(), "/api/method/login")
}

/// The endpoint that reports the logged-in user (and the CSRF token).
pub fn frappe_user_url(base_url: &str) -> (res: String)
    ensures
        res@ == base_url@ + "/api/method/frappe.auth.get_logged_user"@,
{
    concat(base_url, "/api/method/frappe.auth.get_logged_user")
}

/// The login form: `usr` and `pwd` (empty when not given).
pub fn frappe_login_form(creds: &ProviderCredentials) -> (res: Vec<(String, String)>)
    ensures
        res.deep_view() == seq![
            ("usr"@, or_empty(creds.username)),
            ("pwd"@, or_empty(creds.password)),
        ],
{
    let u = owned_or_empty(&creds.username);
    let p = owned_or_empty(&creds.password);
    let mut v: Vec<(String, String)> = Vec::new();
    v.push(text_entry("usr", u.as_str()));
    v.push(text_entry("pwd", p.as_str()));
    assert(v.deep_view() =~= seq![
        ("usr"@, or_empty(creds.username)),
        ("pwd"@, or_empty(creds.password)),
    ]);
    v
}

/// The `sid` that the login set: the last `sid` cookie, or empty.
pub fn frappe_sid(login_cookies: &Vec<(String, String)>) -> (res: String)
    ensures
        res@ == value_or(last_value(login_cookies.deep_view(), "sid"@), seq![]),
{
    string_or_empty(find_last(login_cookies, "sid"))
}

/// The `Cookie` header that carries a Frappe session id.
pub fn frappe_cookie_header(sid: &str) -> (res: String)
    ensures
        res@ == "sid="@ + sid@,
{
    concat("sid=", sid)
}

/// A Frappe session from its `sid` and CSRF token.
pub open spec fn frappe_session_spec(base: Seq<char>, sid: Seq<char>, csrf: Seq<char>) -> SessionSpec {
    SessionSpec {
        provider: "frappe"@,
        base_url: base,
        headers: seq![("X-Frappe-CSRF-Token"@, csrf), ("Cookie"@, "sid="@ + sid)],
        cookies: seq![("sid"@, sid)],
        data: seq![("sid"@, SessionDatum::Text(sid)), ("csrf_token"@, SessionDatum::Text(csrf))],
        expires_at: None,
    }
}

/// The Frappe session that a login amounts to: the `sid` cookie of the login
/// reply and the `x-frappe-csrf-token` header (names in lower case) of the
/// logged-user reply, each empty when missing.
pub fn frappe_session(
    creds: &ProviderCredentials,
    login_cookies: &Vec<(String, String)>,
    user_headers: &Vec<(String, String)>,
) -> (res: AuthSession)
    ensures
        res@ == frappe_session_spec(
            creds.base_url@,
            value_or(last_value(login_cookies.deep_view(), "sid"@), seq![]),
            value_or(header_value(user_headers.deep_view(), "x-frappe-csrf-token"@), seq![]),
        ),
{
    let sid = frappe_sid(login_cookies);
    let csrf = string_or_empty(find_header(user_headers, "x-frappe-csrf-token"));
    let cookie = frappe_cookie_header(sid.as_str());
    let mut headers: Vec<(String, String)> = Vec::new();
    headers.push(text_entry("X-Frappe-CSRF-Token", csrf.as_str()));
    headers.push(text_entry("Cookie", cookie.as_str()));
    let mut cookies: Vec<(String, String)> = Vec::new();
    cookies.push(text_entry("sid", sid.as_str()));
    let mut data: Vec<(String, SessionValue)> = Vec::new();
    data.push(text_datum("sid", sid.as_str()));
    data.push(text_datum("csrf_token", csrf.as_str()));
    let res = AuthSession {
        provider: "frappe".to_owned(),
        base_url: creds.base_url.clone(),
        injected_headers: headers,
        injected_cookies: cookies,
        session_data: data,
        expires_at: None,
    };
    assert(res@.headers =~= seq![("X-Frappe-CSRF-Token"@, csrf@), ("Cookie"@, "sid="@ + sid@)]);
    assert(res@.cookies =~= seq![("sid"@, sid@)]);
    assert(res@.data =~= seq![("sid"@, SessionDatum::Text(sid@)), ("csrf_token"@, SessionDatum::Text(csrf@))]);
    res
}


// ---------------------------------------------------------------------------
// Django: the `csrftoken` cookie, `X-CSRFToken`, and the `sessionid` cookie
// ---------------------------------------------------------------------------

/// The login page of a Django site.
pub fn django_login_url(creds: &ProviderCredentials) -> (res: String)
    ensures
        res@ == creds.base_url@ + "/accounts/login/"@,
{
    concat(creds.base_url.as_str(), "/accounts/login/")
}

/// The first cookie named `name`'s value, or empty.
pub fn cookie_or_empty(cookies: &Vec<(String, String)>, name: &str) -> (res: String)
    ensures
        res@ == value_or(header_value(cookies.deep_view(), name@), seq![]),
{
    string_or_empty(find_header(cookies, name))
}

/// The login form: user name, password and the CSRF token from the login page.
pub fn django_login_form(creds: &ProviderCredentials, csrf: &str) -> (res: Vec<(String, String)>)
    ensures
        res.deep_view() == seq![
            ("username"@, or_empty(creds.username)),
            ("password"@, or_empty(creds.password)),
            ("csrfmiddlewaretoken"@, csrf@),
        ],
{
    let u = owned_or_empty(&creds.username);
    let p = owned_or_empty(&creds.password);
    let mut v: Vec<(String, String)> = Vec::new();
    v.push(text_entry("username", u.as_str()));
    v.push(text_entry("password", p.as_str()));
    v.push(text_entry("csrfmiddlewaretoken", csrf));
    assert(v.deep_view() =~= seq![
        ("username"@, or_empty(creds.username)),
        ("password"@, or_empty(creds.password)),
        ("csrfmiddlewaretoken"@, csrf@),
    ]);
    v
}

/// The headers of the login post: the page as `Referer`, the token as `X-CSRFToken`.
pub fn django_login_headers(login_url: &str, csrf: &str) -> (res: Vec<(String, String)>)
    ensures
        res.deep_view() == seq![("Referer"@, login_url@), ("X-CSRFToken"@, csrf@)],
{
    let mut v: Vec<(String, String)> = Vec::new();
    v.push(text_entry("Referer", login_url));
    v.push(text_entry("X-CSRFToken", csrf));
    assert(v.deep_view() =~= seq![("Referer"@, login_url@), ("X-CSRFToken"@, csrf@)]);
    v
}

/// A Django session from its CSRF token and session id.
pub open spec fn django_session_spec(base: Seq<char>, csrf: Seq<char>, sid: Seq<char>) -> SessionSpec {
    SessionSpec {
        provider: "django"@,
        base_url: base,
        headers: seq![
            ("X-CSRFToken"@, csrf),
            ("Cookie"@, "csrftoken="@ + csrf + "; sessionid="@ + sid),
        ],
        cookies: seq![("csrftoken"@, csrf), ("sessionid"@, sid)],
        data: seq![("csrf_token"@, SessionDatum::Text(csrf)), ("session_id"@, SessionDatum::Text(sid))],
        expires_at: None,
    }
}

/// The Django session that a login amounts to: the `csrftoken` cookie of the
/// login page and the `sessionid` cookie of the login reply (the first of each,
/// empty when missing).
pub fn django_session(
    creds: &ProviderCredentials,
    page_cookies: &Vec<(String, String)>,
    login_cookies: &Vec<(String, String)>,
) -> (res: AuthSession)
    ensures
        res@ == django_session_spec(
            creds.base_url@,
            value_or(header_value(page_cookies.deep_view(), "csrftoken"@), seq![]),
            value_or(header_value(login_cookies.deep_view(), "sessionid"@), seq![]),
        ),
{
    let csrf = cookie_or_empty(page_cookies, "csrftoken");
    let sid = cookie_or_empty(login_cookies, "sessionid");
    let mut cookie = concat("csrftoken=", csrf.as_str());
    push_str(&mut cookie, "; sessionid=");
    push_str(&mut cookie, sid.as_str());
    let mut headers: Vec<(String, String)> = Vec::new();
    headers.push(text_entry("X-CSRFToken", csrf.as_str()));
    headers.push(text_entry("Cookie", cookie.as_str()));
    let mut cookies: Vec<(String, String)> = Vec::new();
    cookies.push(text_entry("csrftoken", csrf.as_str()));
    cookies.push(text_entry("sessionid", sid.as_str()));
    let mut data: Vec<(String, SessionValue)> = Vec::new();
    data.push(text_datum("csrf_token", csrf.as_str()));
    data.push(text_datum("session_id", sid.as_str()));
    let res = AuthSession {
        provider: "django".to_owned(),
        base_url: creds.base_url.clone(),
        injected_headers: headers,
        injected_cookies: cookies,
        session_data: data,
        expires_at: None,
    };
    assert(res@.headers =~= seq![
        ("X-CSRFToken"@, csrf@),
        ("Cookie"@, "csrftoken="@ + csrf@ + "; sessionid="@ + sid@),
    ]);
    assert(res@.cookies =~= seq![("csrftoken"@, csrf@), ("sessionid"@, sid@)]);
    assert(res@.data =~= seq![
        ("csrf_token"@, SessionDatum::Text(csrf@)),
        ("session_id"@, SessionDatum::Text(sid@)),
    ]);
    res
}

// ---------------------------------------------------------------------------
// Laravel (Sanctum): the `XSRF-TOKEN` cookie and, in API mode, a bearer token
// ---------------------------------------------------------------------------

/// What `percent_encoding::percent_decode_str(s).decode_utf8_lossy()` gives:
/// the UTF-8 bytes of `s` with their `%XX` escapes decoded, read back as text
/// as `String::from_utf8_lossy` reads it.
pub open spec fn percent_decoded(s: Seq<char>) -> Seq<char> {
    utf8_lossy(percent_decode_bytes(encode_utf8(s)))
}

/// `percent_encoding::percent_decode_str(s).decode_utf8_lossy()`: `%XX` escapes
/// decoded to bytes, the bytes read as UTF-8 with ill-formed parts replaced.
/// Text without `%` comes back unchanged.
#[verifier::external_body]
fn urlencoding_decode(s: &str) -> (res: String)
    ensures
        res@ == percent_decoded(s@),
        !s@.contains('%') ==> res@ == s@,
{
    percent_encoding::percent_decode_str(s).decode_utf8_lossy().to_string()
}

/// The Sanctum endpoint that sets the CSRF cookie.
pub fn laravel_csrf_cookie_url(creds: &ProviderCredentials) -> (res: String)
    ensures
        res@ == creds.base_url@ + "/sanctum/csrf-cookie"@,
{
    concat(creds.base_url.as_str(), "/sanctum/csrf-cookie")
}

/// The XSRF token: the first `XSRF-TOKEN` cookie that the Sanctum CSRF-cookie
/// reply sets, percent-decoded, or empty.
pub fn laravel_xsrf(csrf_cookies: &Vec<(String, String)>) -> (res: String)
    ensures
        res@ == match header_value(csrf_cookies.deep_view(), "XSRF-TOKEN"@) {
            Some(v) => percent_decoded(v),
            None => seq![],
        },
{
    match find_header(csrf_cookies, "XSRF-TOKEN") {
        Some(v) => urlencoding_decode(v.as_str()),
        None => String::new(),
    }
}

/// The JSON fields of the login post: `email` and `password`.
pub fn laravel_login_fields(creds: &ProviderCredentials) -> (res: Vec<(String, String)>)
    ensures
        res.deep_view() == seq![
            ("email"@, or_empty(creds.username)),
            ("password"@, or_empty(creds.password)),
        ],
{
    let u = owned_or_empty(&creds.username);
    let p = owned_or_empty(&creds.password);
    let mut v: Vec<(String, String)> = Vec::new();
    v.push(text_entry("email", u.as_str()));
    v.push(text_entry("password", p.as_str()));
    assert(v.deep_view() =~= seq![
        ("email"@, or_empty(creds.username)),
        ("password"@, or_empty(creds.password)),
    ]);
    v
}

/// The bearer token of a login reply: the `token` field if the reply has one,
/// else `access_token`, when that field is a string; empty otherwise. Each
/// argument is `None` when the reply has no such field, `Some(None)` when the
/// field is not a string.
pub open spec fn laravel_bearer_spec(
    token: Option<Option<Seq<char>>>,
    access_token: Option<Option<Seq<char>>>,
) -> Seq<char> {
    let chosen = match token {
        Some(t) => t,
        None => match access_token {
            Some(a) => a,
            None => None,
        },
    };
    value_or(chosen, seq![])
}

/// A Laravel session from its XSRF token and bearer token.
pub open spec fn laravel_session_spec(base: Seq<char>, xsrf: Seq<char>, bearer: Seq<char>) -> SessionSpec {
    SessionSpec {
        provider: "laravel"@,
        base_url: base,
        headers: seq![("X-XSRF-TOKEN"@, xsrf)] + if bearer.len() > 0 {
            seq![("Authorization"@, "Bearer "@ + bearer)]
        } else {
            seq![]
        },
        cookies: seq![],
        data: seq![("xsrf_token"@, SessionDatum::Text(xsrf)), ("bearer"@, SessionDatum::Text(bearer))],
        expires_at: None,
    }
}

/// The Laravel session that a login amounts to (see `laravel_bearer_spec`).
pub fn laravel_session(
    creds: &ProviderCredentials,
    xsrf: &str,
    token: Option<Option<String>>,
    access_token: Option<Option<String>>,
) -> (res: AuthSession)
    ensures
        res@ == laravel_session_spec(
            creds.base_url@,
            xsrf@,
            laravel_bearer_spec(token.deep_view(), access_token.deep_view()),
        ),
{
    let chosen: Option<String> = match token {
        Some(t) => t,
        None => match access_token {
            Some(a) => a,
            None => None,
        },
    };
    let bearer = string_or_empty(chosen);
    let mut headers: Vec<(String, String)> = Vec::new();
    headers.push(text_entry("X-XSRF-TOKEN", xsrf));
    if !bearer.as_str().is_empty() {
        let value = concat("Bearer ", bearer.as_str());
        headers.push(text_entry("Authorization", value.as_str()));
    }
    let cookies: Vec<(String, String)> = Vec::new();
    let mut data: Vec<(String, SessionValue)> = Vec::new();
    data.push(text_datum("xsrf_token", xsrf));
    data.push(text_datum("bearer", bearer.as_str()));
    let res = AuthSession {
        provider: "laravel".to_owned(),
        base_url: creds.base_url.clone(),
        injected_headers: headers,
        injected_cookies: cookies,
        session_data: data,
        expires_at: None,
    };
    assert(res@.headers =~= seq![("X-XSRF-TOKEN"@, xsrf@)] + if bearer@.len() > 0 {
        seq![("Authorization"@, "Bearer "@ + bearer@)]
    } else {
        seq![]
    });
    assert(res@.cookies =~= seq![]);
    assert(res@.data =~= seq![
        ("xsrf_token"@, SessionDatum::Text(xsrf@)),
        ("bearer"@, SessionDatum::Text(bearer@)),
    ]);
    res
}


// ---------------------------------------------------------------------------
// Ruby on Rails (Devise): the form's `authenticity_token` and the session cookie
// ---------------------------------------------------------------------------

/// The pattern that finds the value of the input named `field`:
/// `name="<field>"\s+value="([^"]+)"` (the name is put in as it is).
pub open spec fn input_value_pattern(field: Seq<char>) -> Seq<char> {
    "name=\""@ + field + "\"\\s+value=\"([^\"]+)\""@
}

/// What group 1 of the first match captured, or the empty text when there is
/// no match.
pub open spec fn first_capture(caps: Seq<(Seq<Option<Seq<char>>>, Seq<char>)>) -> Seq<char> {
    if caps.len() == 0 {
        seq![]
    } else {
        group(caps[0].0, 1)
    }
}

/// The value of the input named `field` in `html`: what the first match of
/// `input_value_pattern(field)` captures, or empty.
pub open spec fn input_value(html: Seq<char>, field: Seq<char>) -> Seq<char> {
    first_capture(regex_captures(input_value_pattern(field), html))
}

/// What group 1 of the first match captured (see `first_capture`).
pub fn first_capture_of(caps: &Vec<(Vec<Option<String>>, String)>) -> (res: String)
    ensures
        res@ == first_capture(caps.deep_view()),
{
    if caps.len() > 0 {
        group_text(&caps[0].0, 1)
    } else {
        String::new()
    }
}

/// The value of the input named `field_name` in `html` (see `input_value`).
fn extract_html_input_value(html: &str, field_name: &str) -> (res: String)
    ensures
        res@ == input_value(html@, field_name@),
{
    let start = concat("name=\"", field_name);
    let pattern = concat(start.as_str(), "\"\\s+value=\"([^\"]+)\"");
    let caps = captures_all(pattern.as_str(), html);
    first_capture_of(&caps)
}

/// The sign-in page of a Rails (Devise) site.
pub fn rails_login_url(creds: &ProviderCredentials) -> (res: String)
    ensures
        res@ == creds.base_url@ + "/users/sign_in"@,
{
    concat(creds.base_url.as_str(), "/users/sign_in")
}

/// The `authenticity_token` of the sign-in page's HTML.
pub fn rails_authenticity_token(page: &str) -> (res: String)
    ensures
        res@ == input_value(page@, "authenticity_token"@),
{
    extract_html_input_value(page, "authenticity_token")
}

/// The sign-in form: the authenticity token, `user[email]` and `user[password]`.
pub fn rails_login_form(creds: &ProviderCredentials, token: &str) -> (res: Vec<(String, String)>)
    ensures
        res.deep_view() == seq![
            ("authenticity_token"@, token@),
            ("user[email]"@, or_empty(creds.username)),
            ("user[password]"@, or_empty(creds.password)),
        ],
{
    let u = owned_or_empty(&creds.username);
    let p = owned_or_empty(&creds.password);
    let mut v: Vec<(String, String)> = Vec::new();
    v.push(text_entry("authenticity_token", token));
    v.push(text_entry("user[email]", u.as_str()));
    v.push(text_entry("user[password]", p.as_str()));
    assert(v.deep_view() =~= seq![
        ("authenticity_token"@, token@),
        ("user[email]"@, or_empty(creds.username)),
        ("user[password]"@, or_empty(creds.password)),
    ]);
    v
}

/// A Rails session cookie name: `_…_session`.
pub open spec fn is_session_cookie_name(n: Seq<char>) -> bool {
    has_prefix(n, "_"@) && has_suffix(n, "_session"@)
}

/// The first cookie whose name is a Rails session cookie name.
pub open spec fn first_session_cookie(h: Seq<(Seq<char>, Seq<char>)>) -> Option<(Seq<char>, Seq<char>)>
    decreases h.len(),
{
    if h.len() == 0 {
        None
    } else {
        match first_session_cookie(h.drop_last()) {
            Some(c) => Some(c),
            None => if is_session_cookie_name(h.last().0) {
                Some(h.last())
            } else {
                None
            },
        }
    }
}

proof fn lemma_first_session_cookie_prefix(h: Seq<(Seq<char>, Seq<char>)>, i: int)
    requires
        0 <= i <= h.len(),
    ensures
        first_session_cookie(h.take(i)) is Some ==> first_session_cookie(h)
            == first_session_cookie(h.take(i)),
    decreases h.len() - i,
{
    if i < h.len() {
        lemma_first_session_cookie_prefix(h, i + 1);
        assert(h.take(i + 1).drop_last() =~= h.take(i));
    } else {
        assert(h.take(i) =~= h);
    }
}

/// The session cookie as `name=value`: the first cookie named `_…_session`, or empty.
pub open spec fn rails_cookie_spec(h: Seq<(Seq<char>, Seq<char>)>) -> Seq<char> {
    match first_session_cookie(h) {
        Some(c) => c.0 + "="@ + c.1,
        None => seq![],
    }
}

/// The session cookie that the sign-in reply set, as `name=value` (see
/// `rails_cookie_spec`).
pub fn rails_session_cookie(cookies: &Vec<(String, String)>) -> (res: String)
    ensures
        res@ == rails_cookie_spec(cookies.deep_view()),
{
    let ghost h = cookies.deep_view();
    let under = chars_of("_");
    let suffix = chars_of("_session");
    let mut i: usize = 0;
    while i < cookies.len()
        invariant
            i <= cookies.len(),
            h == cookies.deep_view(),
            under@ == "_"@,
            suffix@ == "_session"@,
            first_session_cookie(h.take(i as int)) is None,
        decreases cookies.len() - i,
    {
        assert(h.take(i + 1).drop_last() =~= h.take(i as int));
        assert(h.take(i + 1).last() == h[i as int]);
        let name = chars_of(cookies[i].0.as_str());
        if starts_with(name.as_slice(), under.as_slice()) && ends_with(
            name.as_slice(),
            suffix.as_slice(),
        ) {
            proof {
                lemma_first_session_cookie_prefix(h, i as int + 1);
            }
            let mut c = concat(cookies[i].0.as_str(), "=");
            push_str(&mut c, cookies[i].1.as_str());
            return c;
        }
        i = i + 1;
    }
    assert(h.take(cookies.len() as int) =~= h);
    String::new()
}

/// A Rails session from its authenticity token and session cookie.
pub open spec fn rails_session_spec(base: Seq<char>, token: Seq<char>, cookie: Seq<char>) -> SessionSpec {
    SessionSpec {
        provider: "rails"@,
        base_url: base,
        headers: seq![("Cookie"@, cookie), ("X-CSRF-Token"@, token)],
        cookies: seq![],
        data: seq![
            ("authenticity_token"@, SessionDatum::Text(token)),
            ("session"@, SessionDatum::Text(cookie)),
        ],
        expires_at: None,
    }
}

/// The Rails session that a sign-in amounts to.
pub fn rails_session(
    creds: &ProviderCredentials,
    token: &str,
    login_cookies: &Vec<(String, String)>,
) -> (res: AuthSession)
    ensures
        res@ == rails_session_spec(creds.base_url@, token@, rails_cookie_spec(login_cookies.deep_view())),
{
    let cookie = rails_session_cookie(login_cookies);
    let mut headers: Vec<(String, String)> = Vec::new();
    headers.push(text_entry("Cookie", cookie.as_str()));
    headers.push(text_entry("X-CSRF-Token", token));
    let cookies: Vec<(String, String)> = Vec::new();
    let mut data: Vec<(String, SessionValue)> = Vec::new();
    data.push(text_datum("authenticity_token", token));
    data.push(text_datum("session", cookie.as_str()));
    let res = AuthSession {
        provider: "rails".to_owned(),
        base_url: creds.base_url.clone(),
        injected_headers: headers,
        injected_cookies: cookies,
        session_data: data,
        expires_at: None,
    };
    assert(res@.headers =~= seq![("Cookie"@, cookie@), ("X-CSRF-Token"@, token@)]);
    assert(res@.cookies =~= seq![]);
    assert(res@.data =~= seq![
        ("authenticity_token"@, SessionDatum::Text(token@)),
        ("session"@, SessionDatum::Text(cookie@)),
    ]);
    res
}


// ---------------------------------------------------------------------------
// WordPress: application passwords over Basic authentication
// ---------------------------------------------------------------------------

/// The endpoint that tests the credentials.
pub fn wordpress_me_url(creds: &ProviderCredentials) -> (res: String)
    ensures
        res@ == creds.base_url@ + "/wp-json/wp/v2/users/me"@,
{
    concat(creds.base_url.as_str(), "/wp-json/wp/v2/users/me")
}

/// The user name and password that the test request authenticates with.
pub fn wordpress_basic_credentials(creds: &ProviderCredentials) -> (res: (String, String))
    ensures
        res.0@ == or_empty(creds.username),
        res.1@ == or_empty(creds.password),
{
    (owned_or_empty(&creds.username), owned_or_empty(&creds.password))
}

/// A WordPress session: Basic credentials, the REST nonce when the server sent
/// one, and the user record (JSON text) that the test request returned.
pub open spec fn wordpress_session_spec(
    base: Seq<char>,
    user: Seq<char>,
    password: Seq<char>,
    nonce: Seq<char>,
    user_json: Seq<char>,
) -> SessionSpec {
    SessionSpec {
        provider: "wordpress"@,
        base_url: base,
        headers: seq![
            ("Authorization"@, "Basic "@ + b64_encode(encode_utf8(user + ":"@ + password), false, true)),
        ] + if nonce.len() > 0 {
            seq![("X-WP-Nonce"@, nonce)]
        } else {
            seq![]
        },
        cookies: seq![],
        data: seq![("user"@, SessionDatum::Json(user_json)), ("nonce"@, SessionDatum::Text(nonce))],
        expires_at: None,
    }
}

/// The WordPress session that the test request amounts to: the first
/// `x-wp-nonce` header of its reply (empty when missing) and its body.
pub fn wordpress_session(
    creds: &ProviderCredentials,
    reply_headers: &Vec<(String, String)>,
    user_json: &str,
) -> (res: AuthSession)
    requires
        encode_utf8(or_empty(creds.username) + ":"@ + or_empty(creds.password)).len() < usize::MAX
            / 2,
    ensures
        res@ == wordpress_session_spec(
            creds.base_url@,
            or_empty(creds.username),
            or_empty(creds.password),
            value_or(header_value(reply_headers.deep_view(), "x-wp-nonce"@), seq![]),
            user_json@,
        ),
{
    let nonce = string_or_empty(find_header(reply_headers, "x-wp-nonce"));
    let u = owned_or_empty(&creds.username);
    let p = owned_or_empty(&creds.password);
    let mut pair = concat(u.as_str(), ":");
    push_str(&mut pair, p.as_str());
    let basic = base64_standard(pair.as_str().as_bytes());
    let value = concat("Basic ", basic.as_str());
    let mut headers: Vec<(String, String)> = Vec::new();
    headers.push(text_entry("Authorization", value.as_str()));
    if !nonce.as_str().is_empty() {
        headers.push(text_entry("X-WP-Nonce", nonce.as_str()));
    }
    let cookies: Vec<(String, String)> = Vec::new();
    let mut data: Vec<(String, SessionValue)> = Vec::new();
    data.push(("user".to_owned(), SessionValue::Json(user_json.to_owned())));
    data.push(text_datum("nonce", nonce.as_str()));
    let res = AuthSession {
        provider: "wordpress".to_owned(),
        base_url: creds.base_url.clone(),
        injected_headers: headers,
        injected_cookies: cookies,
        session_data: data,
        expires_at: None,
    };
    assert(res@.headers =~= seq![("Authorization"@, value@)] + if nonce@.len() > 0 {
        seq![("X-WP-Nonce"@, nonce@)]
    } else {
        seq![]
    });
    assert(res@.cookies =~= seq![]);
    assert(res@.data =~= seq![
        ("user"@, SessionDatum::Json(user_json@)),
        ("nonce"@, SessionDatum::Text(nonce@)),
    ]);
    res
}

// ---------------------------------------------------------------------------
// Token endpoints: FastAPI's password flow and OAuth2 with PKCE
// ---------------------------------------------------------------------------

/// What a token endpoint replied, as the flows read it: each string field when
/// the reply has it as a string, `expires_in` when it is an integer that fits
/// an `i64`, and the whole reply as JSON text.
pub struct TokenReply {
    pub access_token: Option<String>,
    pub refresh_token: Option<String>,
    pub token_type: Option<String>,
    pub expires_in: Option<i64>,
    pub error: Option<String>,
    pub error_description: Option<String>,
    pub json: String,
}

/// The value of the field `key` among the credentials' extra fields.
pub open spec fn extra_field(extra: Option<Vec<(String, String)>>, key: Seq<char>) -> Option<
    Seq<char>,
> {
    match extra {
        Some(v) => header_value(v.deep_view(), key),
        None => None,
    }
}

/// The value of an extra field.
pub fn extra_value(extra: &Option<Vec<(String, String)>>, key: &str) -> (res: Option<String>)
    ensures
        res.deep_view() == extra_field(*extra, key@),
{
    match extra {
        Some(v) => find_header(v, key),
        None => None,
    }
}

/// Seconds until a token expires: `expires_in` when given, else one hour.
pub open spec fn lifetime(expires_in: Option<i64>) -> int {
    match expires_in {
        Some(n) => n as int,
        None => 3600,
    }
}

/// The FastAPI token endpoint: the `token_url` extra field, else `{base}/token`.
pub fn fastapi_token_url(creds: &ProviderCredentials) -> (res: String)
    ensures
        res@ == value_or(extra_field(creds.extra, "token_url"@), creds.base_url@ + "/token"@),
{
    match extra_value(&creds.extra, "token_url") {
        Some(u) => u,
        None => concat(creds.base_url.as_str(), "/token"),
    }
}

/// The password-grant form.
pub fn fastapi_token_form(creds: &ProviderCredentials) -> (res: Vec<(String, String)>)
    ensures
        res.deep_view() == seq![
            ("username"@, or_empty(creds.username)),
            ("password"@, or_empty(creds.password)),
            ("grant_type"@, "password"@),
        ],
{
    let u = owned_or_empty(&creds.username);
    let p = owned_or_empty(&creds.password);
    let mut v: Vec<(String, String)> = Vec::new();
    v.push(text_entry("username", u.as_str()));
    v.push(text_entry("password", p.as_str()));
    v.push(text_entry("grant_type", "password"));
    assert(v.deep_view() =~= seq![
        ("username"@, or_empty(creds.username)),
        ("password"@, or_empty(creds.password)),
        ("grant_type"@, "password"@),
    ]);
    v
}

/// A FastAPI session: the access token as a bearer token, the whole reply as data,
/// expiring `lifetime` seconds after `now`.
pub open spec fn fastapi_session_spec(base: Seq<char>, reply: TokenReply, now: i64) -> SessionSpec {
    SessionSpec {
        provider: "fastapi"@,
        base_url: base,
        headers: seq![("Authorization"@, "Bearer "@ + value_or(reply.access_token.deep_view(), seq![]))],
        cookies: seq![],
        data: seq![("token_response"@, SessionDatum::Json(reply.json@))],
        expires_at: Some((now + lifetime(reply.expires_in)) as i64),
    }
}

/// The FastAPI session that a token reply amounts to, at time `now` (Unix seconds).
pub fn fastapi_session(creds: &ProviderCredentials, reply: &TokenReply, now: i64) -> (res: AuthSession)
    requires
        i64::MIN <= now + lifetime(reply.expires_in) <= i64::MAX,
    ensures
        res@ == fastapi_session_spec(creds.base_url@, *reply, now),
{
    let token = match &reply.access_token {
        Some(t) => t.clone(),
        None => String::new(),
    };
    let expires_in: i64 = match reply.expires_in {
        Some(n) => n,
        None => 3600,
    };
    let value = concat("Bearer ", token.as_str());
    let mut headers: Vec<(String, String)> = Vec::new();
    headers.push(text_entry("Authorization", value.as_str()));
    let cookies: Vec<(String, String)> = Vec::new();
    let mut data: Vec<(String, SessionValue)> = Vec::new();
    data.push(("token_response".to_owned(), SessionValue::Json(reply.json.clone())));
    let res = AuthSession {
        provider: "fastapi".to_owned(),
        base_url: creds.base_url.clone(),
        injected_headers: headers,
        injected_cookies: cookies,
        session_data: data,
        expires_at: Some(now + expires_in),
    };
    assert(res@.headers =~= seq![
        ("Authorization"@, "Bearer "@ + value_or(reply.access_token.deep_view(), seq![])),
    ]);
    assert(res@.cookies =~= seq![]);
    assert(res@.data =~= seq![("token_response"@, SessionDatum::Json(reply.json@))]);
    res
}

/// The first required OAuth2 extra field that is missing, as its error message.
pub open spec fn oauth2_missing(extra: Option<Vec<(String, String)>>) -> Option<Seq<char>> {
    if extra is None {
        Some("OAuth2: extra fields required"@)
    } else if extra_field(extra, "token_url"@) is None {
        Some("OAuth2: token_url required"@)
    } else if extra_field(extra, "client_id"@) is None {
        Some("OAuth2: client_id required"@)
    } else if extra_field(extra, "code"@) is None {
        Some("OAuth2: code required"@)
    } else if extra_field(extra, "redirect_uri"@) is None {
        Some("OAuth2: redirect_uri required"@)
    } else if extra_field(extra, "code_verifier"@) is None {
        Some("OAuth2: code_verifier required"@)
    } else {
        None
    }
}

/// The PKCE challenge of a verifier: BASE64URL (no padding) of its SHA-256.
pub open spec fn pkce_challenge(verifier: Seq<char>) -> Seq<char> {
    b64_encode(sha256_digest(encode_utf8(verifier)), true, false)
}

/// The authorization-code form with its PKCE fields.
pub open spec fn oauth2_form_spec(
    client_id: Seq<char>,
    code: Seq<char>,
    redirect_uri: Seq<char>,
    verifier: Seq<char>,
) -> Seq<(Seq<char>, Seq<char>)> {
    seq![
        ("grant_type"@, "authorization_code"@),
        ("code"@, code),
        ("redirect_uri"@, redirect_uri),
        ("client_id"@, client_id),
        ("code_verifier"@, verifier),
        ("code_challenge"@, pkce_challenge(verifier)),
        ("code_challenge_method"@, "S256"@),
    ]
}

/// The OAuth2 token endpoint and the form to post there, or the message of the
/// first missing field (see `oauth2_missing`).
pub fn oauth2_token_request(creds: &ProviderCredentials) -> (res: Result<
    (String, Vec<(String, String)>),
    String,
>)
    ensures
        match res {
            Err(e) => oauth2_missing(creds.extra) == Some(e@),
            Ok((url, form)) => {
                &&& oauth2_missing(creds.extra) is None
                &&& extra_field(creds.extra, "token_url"@) == Some(url@)
                &&& form.deep_view() == oauth2_form_spec(
                    extra_field(creds.extra, "client_id"@)->0,
                    extra_field(creds.extra, "code"@)->0,
                    extra_field(creds.extra, "redirect_uri"@)->0,
                    extra_field(creds.extra, "code_verifier"@)->0,
                )
            },
        },
{
    if creds.extra.is_none() {
        return Err("OAuth2: extra fields required".to_owned());
    }
    let token_url = match extra_value(&creds.extra, "token_url") {
        Some(v) => v,
        None => return Err("OAuth2: token_url required".to_owned()),
    };
    let client_id = match extra_value(&creds.extra, "client_id") {
        Some(v) => v,
        None => return Err("OAuth2: client_id required".to_owned()),
    };
    let code = match extra_value(&creds.extra, "code") {
        Some(v) => v,
        None => return Err("OAuth2: code required".to_owned()),
    };
    let redirect_uri = match extra_value(&creds.extra, "redirect_uri") {
        Some(v) => v,
        None => return Err("OAuth2: redirect_uri required".to_owned()),
    };
    let verifier = match extra_value(&creds.extra, "code_verifier") {
        Some(v) => v,
        None => return Err("OAuth2: code_verifier required".to_owned()),
    };
    let digest = sha256(verifier.as_str().as_bytes());
    let challenge = base64_url_no_pad(digest.as_slice());
    let mut form: Vec<(String, String)> = Vec::new();
    form.push(text_entry("grant_type", "authorization_code"));
    form.push(text_entry("code", code.as_str()));
    form.push(text_entry("redirect_uri", redirect_uri.as_str()));
    form.push(text_entry("client_id", client_id.as_str()));
    form.push(text_entry("code_verifier", verifier.as_str()));
    form.push(text_entry("code_challenge", challenge.as_str()));
    form.push(text_entry("code_challenge_method", "S256"));
    assert(form.deep_view() =~= oauth2_form_spec(client_id@, code@, redirect_uri@, verifier@));
    Ok((token_url, form))
}

/// The message for an error reply: `OAuth2 error: <error> — <description>`.
pub open spec fn oauth2_error_text(error: Seq<char>, description: Option<Seq<char>>) -> Seq<char> {
    "OAuth2 error: "@ + error + " \u{2014} "@ + value_or(description, seq![])
}

/// An OAuth2 session from a successful token reply, expiring `lifetime` seconds
/// after `now`; the `Authorization` header uses the reply's token type (default
/// `Bearer`).
pub open spec fn oauth2_session_spec(base: Seq<char>, reply: TokenReply, now: i64) -> SessionSpec {
    let access = value_or(reply.access_token.deep_view(), seq![]);
    let refresh = value_or(reply.refresh_token.deep_view(), seq![]);
    let token_type = value_or(reply.token_type.deep_view(), "Bearer"@);
    let expires_in = lifetime(reply.expires_in);
    SessionSpec {
        provider: "oauth2"@,
        base_url: base,
        headers: seq![("Authorization"@, token_type + " "@ + access)],
        cookies: seq![],
        data: seq![
            ("access_token"@, SessionDatum::Text(access)),
            ("refresh_token"@, SessionDatum::Text(refresh)),
            ("token_type"@, SessionDatum::Text(token_type)),
            ("expires_in"@, SessionDatum::Int(expires_in as i64)),
        ],
        expires_at: Some((now + expires_in) as i64),
    }
}

/// The OAuth2 session that a token reply amounts to at time `now`, or the
/// reply's error when it has one.
pub fn oauth2_session(creds: &ProviderCredentials, reply: &TokenReply, now: i64) -> (res: Result<
    AuthSession,
    String,
>)
    requires
        i64::MIN <= now + lifetime(reply.expires_in) <= i64::MAX,
    ensures
        match reply.error {
            Some(e) => res matches Err(m) && m@ == oauth2_error_text(
                e@,
                reply.error_description.deep_view(),
            ),
            None => res matches Ok(s) && s@ == oauth2_session_spec(creds.base_url@, *reply, now),
        },
{
    if let Some(e) = &reply.error {
        let mut m = concat("OAuth2 error: ", e.as_str());
        push_str(&mut m, " \u{2014} ");
        match &reply.error_description {
            Some(d) => push_str(&mut m, d.as_str()),
            None => {},
        }
        return Err(m);
    }
    let access = match &reply.access_token {
        Some(t) => t.clone(),
        None => String::new(),
    };
    let refresh = match &reply.refresh_token {
        Some(t) => t.clone(),
        None => String::new(),
    };
    let token_type = match &reply.token_type {
        Some(t) => t.clone(),
        None => "Bearer".to_owned(),
    };
    let expires_in: i64 = match reply.expires_in {
        Some(n) => n,
        None => 3600,
    };
    let mut value = concat(token_type.as_str(), " ");
    push_str(&mut value, access.as_str());
    let mut headers: Vec<(String, String)> = Vec::new();
    headers.push(text_entry("Authorization", value.as_str()));
    let cookies: Vec<(String, String)> = Vec::new();
    let mut data: Vec<(String, SessionValue)> = Vec::new();
    data.push(text_datum("access_token", access.as_str()));
    data.push(text_datum("refresh_token", refresh.as_str()));
    data.push(text_datum("token_type", token_type.as_str()));
    data.push(("expires_in".to_owned(), SessionValue::Int(expires_in)));
    let res = AuthSession {
        provider: "oauth2".to_owned(),
        base_url: creds.base_url.clone(),
        injected_headers: headers,
        injected_cookies: cookies,
        session_data: data,
        expires_at: Some(now + expires_in),
    };
    assert(res@.headers =~= seq![("Authorization"@, token_type@ + " "@ + access@)]);
    assert(res@.cookies =~= seq![]);
    assert(res@.data =~= seq![
        ("access_token"@, SessionDatum::Text(access@)),
        ("refresh_token"@, SessionDatum::Text(refresh@)),
        ("token_type"@, SessionDatum::Text(token_type@)),
        ("expires_in"@, SessionDatum::Int(expires_in)),
    ]);
    Ok(res)
}

// ---------------------------------------------------------------------------
// Generic: a bearer token that the user supplies
// ---------------------------------------------------------------------------

/// A session that sends the credentials' API key as a bearer token.
pub open spec fn generic_session_spec(base: Seq<char>, key: Seq<char>) -> SessionSpec {
    SessionSpec {
        provider: "generic"@,
        base_url: base,
        headers: seq![("Authorization"@, "Bearer "@ + key)],
        cookies: seq![],
        data: seq![],
        expires_at: None,
    }
}

/// The session for the generic provider: the API key (empty when none) as bearer.
pub fn auth_generic_bearer(creds: &ProviderCredentials) -> (res: AuthSession)
    ensures
        res@ == generic_session_spec(creds.base_url@, or_empty(creds.api_key)),
{
    let key = owned_or_empty(&creds.api_key);
    let value = concat("Bearer ", key.as_str());
    let mut headers: Vec<(String, String)> = Vec::new();
    headers.push(text_entry("Authorization", value.as_str()));
    let cookies: Vec<(String, String)> = Vec::new();
    let data: Vec<(String, SessionValue)> = Vec::new();
    let res = AuthSession {
        provider: "generic".to_owned(),
        base_url: creds.base_url.clone(),
        injected_headers: headers,
        injected_cookies: cookies,
        session_data: data,
        expires_at: None,
    };
    assert(res@.headers =~= seq![("Authorization"@, "Bearer "@ + key@)]);
    assert(res@.cookies =~= seq![]);
    assert(res@.data =~= seq![]);
    res
}


// ---------------------------------------------------------------------------
// Detecting the framework behind a base URL
// ---------------------------------------------------------------------------

/// The probes that detection sends, in order.
#[derive(Clone, Copy, Debug, PartialEq, Eq, Structural)]
pub enum DetectProbe {
    Frappe,
    Django,
    Laravel,
    WordPress,
}

/// What detection does next: send another probe, or stop with a verdict.
#[derive(Clone, Copy, Debug, PartialEq, Eq, Structural)]
pub enum DetectStep {
    Probe(DetectProbe),
    Detected(EcosystemProvider),
}

/// The reply to a probe: its status, its body (empty when it could not be read)
/// and its headers (names in lower case, values that are not visible ASCII read
/// as empty).
pub struct ProbeReply {
    pub status: u16,
    pub body: String,
    pub headers: Vec<(String, String)>,
}

/// Detection starts with the Frappe probe.
pub fn detect_start() -> (res: DetectProbe)
    ensures
        res == DetectProbe::Frappe,
{
    DetectProbe::Frappe
}

/// The URL that a probe fetches under `base`.
pub open spec fn probe_path(p: DetectProbe) -> Seq<char> {
    match p {
        DetectProbe::Frappe => "/api/method/frappe.auth.get_logged_user"@,
        DetectProbe::Django => "/admin/"@,
        DetectProbe::Laravel => "/api/user"@,
        DetectProbe::WordPress => "/wp-json/wp/v2"@,
    }
}

/// The URL that probe `p` fetches under `base`.
pub fn probe_url(p: DetectProbe, base: &str) -> (res: String)
    ensures
        res@ == base@ + probe_path(p),
{
    match p {
        DetectProbe::Frappe => concat(base, "/api/method/frappe.auth.get_logged_user"),
        DetectProbe::Django => concat(base, "/admin/"),
        DetectProbe::Laravel => concat(base, "/api/user"),
        DetectProbe::WordPress => concat(base, "/wp-json/wp/v2"),
    }
}

/// Whether a reply shows the probed framework: Frappe answers 200 or 403; a
/// Django admin page mentions `csrfmiddlewaretoken` or `Django`; Laravel sends
/// `x-ratelimit-limit` or an `x-powered-by` (its first value) that mentions
/// `PHP`; the WordPress REST index answers with a 2xx status.
pub open spec fn probe_matches(p: DetectProbe, status: u16, body: Seq<char>, headers: Seq<(Seq<char>, Seq<char>)>) -> bool {
    match p {
        DetectProbe::Frappe => status == 403 || status == 200,
        DetectProbe::Django => contains(body, "csrfmiddlewaretoken"@) || contains(body, "Django"@),
        DetectProbe::Laravel => header_value(headers, "x-ratelimit-limit"@) is Some || match header_value(headers, "x-powered-by"@) {
            Some(v) => contains(v, "PHP"@),
            None => false,
        },
        DetectProbe::WordPress => 200 <= status <= 299,
    }
}

/// The provider that a matching probe reveals.
pub open spec fn probe_provider(p: DetectProbe) -> EcosystemProvider {
    match p {
        DetectProbe::Frappe => EcosystemProvider::Frappe,
        DetectProbe::Django => EcosystemProvider::Django,
        DetectProbe::Laravel => EcosystemProvider::Laravel,
        DetectProbe::WordPress => EcosystemProvider::WordPress,
    }
}

/// The probe after `p`, if any.
pub open spec fn next_probe(p: DetectProbe) -> Option<DetectProbe> {
    match p {
        DetectProbe::Frappe => Some(DetectProbe::Django),
        DetectProbe::Django => Some(DetectProbe::Laravel),
        DetectProbe::Laravel => Some(DetectProbe::WordPress),
        DetectProbe::WordPress => None,
    }
}

/// The step after probe `p` got `reply` (`None` when the request failed): the
/// probe's provider when the reply matches, else the next probe, and `Generic`
/// after the last one.
pub open spec fn detect_step(p: DetectProbe, reply: Option<(u16, Seq<char>, Seq<(Seq<char>, Seq<char>)>)>) -> DetectStep {
    let matched = match reply {
        Some(r) => probe_matches(p, r.0, r.1, r.2),
        None => false,
    };
    if matched {
        DetectStep::Detected(probe_provider(p))
    } else {
        match next_probe(p) {
            Some(q) => DetectStep::Probe(q),
            None => DetectStep::Detected(EcosystemProvider::Generic),
        }
    }
}

/// The step after probe `p` got `reply` (see `detect_step`).
pub fn detect_next(p: DetectProbe, reply: &Option<ProbeReply>) -> (res: DetectStep)
    ensures
        res == detect_step(
            p,
            match reply {
                Some(r) => Some((r.status, r.body@, r.headers.deep_view())),
                None => None,
            },
        ),
{
    let matched = match reply {
        None => false,
        Some(r) => match p {
            DetectProbe::Frappe => r.status == 403 || r.status == 200,
            DetectProbe::Django => str_contains(r.body.as_str(), "csrfmiddlewaretoken")
                || str_contains(r.body.as_str(), "Django"),
            DetectProbe::Laravel => {
                let limit = find_header(&r.headers, "x-ratelimit-limit");
                if limit.is_some() {
                    true
                } else {
                    match find_header(&r.headers, "x-powered-by") {
                        Some(v) => str_contains(v.as_str(), "PHP"),
                        None => false,
                    }
                }
            },
            DetectProbe::WordPress => 200 <= r.status && r.status <= 299,
        },
    };
    if matched {
        DetectStep::Detected(
            match p {
                DetectProbe::Frappe => EcosystemProvider::Frappe,
                DetectProbe::Django => EcosystemProvider::Django,
                DetectProbe::Laravel => EcosystemProvider::Laravel,
                DetectProbe::WordPress => EcosystemProvider::WordPress,
            },
        )
    } else {
        match p {
            DetectProbe::Frappe => DetectStep::Probe(DetectProbe::Django),
            DetectProbe::Django => DetectStep::Probe(DetectProbe::Laravel),
            DetectProbe::Laravel => DetectStep::Probe(DetectProbe::WordPress),
            DetectProbe::WordPress => DetectStep::Detected(EcosystemProvider::Generic),
        }
    }
}

/// The verdict of detection for a list of probe replies, from probe `p` on.
pub open spec fn detect_run(p: DetectProbe, replies: Seq<Option<(u16, Seq<char>, Seq<(Seq<char>, Seq<char>)>)>>) -> Option<EcosystemProvider>
    decreases replies.len(),
{
    if replies.len() == 0 {
        None
    } else {
        match detect_step(p, replies[0]) {
            DetectStep::Detected(e) => Some(e),
            DetectStep::Probe(q) => detect_run(q, replies.skip(1)),
        }
    }
}

/// What detection reports: the provider's id and its display name.
pub struct DetectFrameworkResult {
    pub provider: String,
    pub display_name: String,
}

/// A provider's id: its variant name in lower case.
pub open spec fn provider_id_text(p: EcosystemProvider) -> Seq<char> {
    match p {
        EcosystemProvider::Frappe => "frappe"@,
        EcosystemProvider::Django => "django"@,
        EcosystemProvider::Laravel => "laravel"@,
        EcosystemProvider::Rails => "rails"@,
        EcosystemProvider::WordPress => "wordpress"@,
        EcosystemProvider::FastAPI => "fastapi"@,
        EcosystemProvider::OAuth2 => "oauth2"@,
        EcosystemProvider::Generic => "generic"@,
    }
}

/// What detection reports for a provider.
pub fn detect_result(p: EcosystemProvider) -> (res: DetectFrameworkResult)
    ensures
        res.provider@ == provider_id_text(p),
        res.display_name@ == p.display_text(),
{
    let id = match p {
        EcosystemProvider::Frappe => "frappe",
        EcosystemProvider::Django => "django",
        EcosystemProvider::Laravel => "laravel",
        EcosystemProvider::Rails => "rails",
        EcosystemProvider::WordPress => "wordpress",
        EcosystemProvider::FastAPI => "fastapi",
        EcosystemProvider::OAuth2 => "oauth2",
        EcosystemProvider::Generic => "generic",
    };
    DetectFrameworkResult { provider: id.to_owned(), display_name: p.display_name().to_owned() }
}

/// The id that detection reports for a provider names that provider again when
/// it is given back to log in.
pub proof fn law_provider_id_roundtrip(p: EcosystemProvider)
    ensures
        provider_named(provider_id_text(p)) == p,
{
    let id = provider_id_text(p);
    assert(forall|i: int| 0 <= i < id.len() ==> lowers_to(id[i], id[i])) by {
        reveal_strlit("frappe");
        reveal_strlit("django");
        reveal_strlit("laravel");
        reveal_strlit("rails");
        reveal_strlit("wordpress");
        reveal_strlit("fastapi");
        reveal_strlit("oauth2");
        reveal_strlit("generic");
    }
    proof_names_differ(p);
}

proof fn proof_names_differ(p: EcosystemProvider)
    ensures
        ({
            let id = provider_id_text(p);
            &&& (p != EcosystemProvider::Frappe ==> !lowercase_equals(id, "frappe"@)
                && !lowercase_equals(id, "erpnext"@))
            &&& (p != EcosystemProvider::Django ==> !lowercase_equals(id, "django"@))
            &&& (p != EcosystemProvider::Laravel ==> !lowercase_equals(id, "laravel"@))
            &&& (p != EcosystemProvider::Rails ==> !lowercase_equals(id, "rails"@)
                && !lowercase_equals(id, "ruby_on_rails"@))
            &&& (p != EcosystemProvider::WordPress ==> !lowercase_equals(id, "wordpress"@)
                && !lowercase_equals(id, "wp"@))
            &&& (p != EcosystemProvider::FastAPI ==> !lowercase_equals(id, "fastapi"@))
            &&& (p != EcosystemProvider::OAuth2 ==> !lowercase_equals(id, "oauth2"@)
                && !lowercase_equals(id, "oauth2_pkce"@))
        }),
{
    reveal_strlit("frappe");
    reveal_strlit("erpnext");
    reveal_strlit("django");
    reveal_strlit("laravel");
    reveal_strlit("rails");
    reveal_strlit("ruby_on_rails");
    reveal_strlit("wordpress");
    reveal_strlit("wp");
    reveal_strlit("fastapi");
    reveal_strlit("oauth2");
    reveal_strlit("oauth2_pkce");
    reveal_strlit("generic");
    let id = provider_id_text(p);
    if p != EcosystemProvider::Frappe {
        assert(!lowercase_equals(id, "frappe"@) && !lowercase_equals(id, "erpnext"@)) by {
            if id.len() == 6 {
                assert(!lowers_to(id[0], 'f') || !lowers_to(id[1], 'r') || !lowers_to(id[5], 'e'));
            }
            if id.len() == 7 {
                assert(!lowers_to(id[0], 'e') || !lowers_to(id[1], 'r'));
            }
        }
    }
    if p != EcosystemProvider::Django {
        assert(!lowercase_equals(id, "django"@)) by {
            if id.len() == 6 {
                assert(!lowers_to(id[0], 'd'));
            }
        }
    }
    if p != EcosystemProvider::Laravel {
        assert(!lowercase_equals(id, "laravel"@)) by {
            if id.len() == 7 {
                assert(!lowers_to(id[0], 'l'));
            }
        }
    }
    if p != EcosystemProvider::Rails {
        assert(!lowercase_equals(id, "rails"@) && !lowercase_equals(id, "ruby_on_rails"@)) by {
            if id.len() == 5 {
                assert(!lowers_to(id[0], 'r'));
            }
        }
    }
    if p != EcosystemProvider::WordPress {
        assert(!lowercase_equals(id, "wordpress"@) && !lowercase_equals(id, "wp"@)) by {
            if id.len() == 9 {
                assert(!lowers_to(id[0], 'w'));
            }
        }
    }
    if p != EcosystemProvider::FastAPI {
        assert(!lowercase_equals(id, "fastapi"@)) by {
            if id.len() == 7 {
                assert(!lowers_to(id[0], 'f') || !lowers_to(id[1], 'a'));
            }
        }
    }
    if p != EcosystemProvider::OAuth2 {
        assert(!lowercase_equals(id, "oauth2"@) && !lowercase_equals(id, "oauth2_pkce"@)) by {
            if id.len() == 6 {
                assert(!lowers_to(id[0], 'o'));
            }
        }
    }
}

/// A request to log in: the provider's name and the credentials.
pub struct PerformAuthInput {
    pub provider: String,
    pub credentials: ProviderCredentials,
}

/// Refreshing a session is not supported: the caller is told to log in again.
pub fn refresh_auth_error() -> (res: String)
    ensures
        res@ == "refresh_auth: not yet implemented \u{2014} re-login to refresh"@,
{
    "refresh_auth: not yet implemented \u{2014} re-login to refresh".to_owned()
}

/// Detection always ends: from the first probe, four replies yield a verdict.
pub proof fn law_detection_terminates(replies: Seq<Option<(u16, Seq<char>, Seq<(Seq<char>, Seq<char>)>)>>)
    requires
        replies.len() == 4,
    ensures
        detect_run(DetectProbe::Frappe, replies) is Some,
{
    reveal_with_fuel(detect_run, 5);
    assert(replies.skip(1).skip(1).skip(1).len() == 1);
}


/// The Frappe probe detects Frappe exactly when its reply has status 200 or
/// 403, whatever the body and headers; any other reply, or none, moves on to
/// the Django probe.
pub proof fn law_frappe_probe(status: u16, body: Seq<char>, headers: Seq<(Seq<char>, Seq<char>)>)
    ensures
        (status == 200 || status == 403) ==> detect_step(DetectProbe::Frappe, Some((status, body, headers)))
            == DetectStep::Detected(EcosystemProvider::Frappe),
        !(status == 200 || status == 403) ==> detect_step(DetectProbe::Frappe, Some((status, body, headers)))
            == DetectStep::Probe(DetectProbe::Django),
        detect_step(DetectProbe::Frappe, None) == DetectStep::Probe(DetectProbe::Django),
{
}

} // verus!
