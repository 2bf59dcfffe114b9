use parallax::cookie::parse_set_cookie;
use parallax::http_engine::{
    apply_sigv4, auth_action, body_content_type, body_plan, body_text, build_digest_header, client_options, collapse_pairs,
    digest_authorization, digest_param_value, digest_retry_needed, lower_hex_u32,
    needs_custom_client, parse_response, plan_request, rand_u32, sigv4_headers, AuthAction, AuthConfig, AuthType, BodyPlan, BodyType, ParallaxRequest,
    RequestBody,
};
use parallax::template::resolve_env;

fn pairs(v: &[(&str, &str)]) -> Vec<(String, String)> {
    v.iter().map(|(a, b)| (a.to_string(), b.to_string())).collect()
}

fn auth(t: AuthType) -> AuthConfig {
    AuthConfig {
        auth_type: t,
        token: None,
        username: None,
        password: None,
        api_key_header: None,
        api_key_value: None,
        api_key_location: None,
        provider: None,
        injected_headers: None,
        aws_access_key: None,
        aws_secret_key: None,
        aws_region: None,
        aws_service: None,
    }
}

fn request(method: &str, url: &str) -> ParallaxRequest {
    ParallaxRequest {
        id: "r1".to_string(),
        name: "req".to_string(),
        method: method.to_string(),
        url: url.to_string(),
        headers: vec![],
        params: None,
        body: None,
        auth: None,
        timeout_ms: None,
        follow_redirects: None,
        scripts: None,
        tls_skip_verify: None,
        proxy_url: None,
        client_cert_pem: None,
        client_key_pem: None,
        disable_cookies: None,
    }
}

#[test]
fn resolve_env_replaces_placeholders() {
    let env = pairs(&[("host", "example.com"), ("id", "42")]);
    assert_eq!(resolve_env("https://{{host}}/items/{{id}}", &env), "https://example.com/items/42");
}

#[test]
fn resolve_env_leaves_unknown_and_plain_text() {
    let env = pairs(&[("a", "1")]);
    assert_eq!(resolve_env("{{b}} and text", &env), "{{b}} and text");
    assert_eq!(resolve_env("no braces here", &env), "no braces here");
    assert_eq!(resolve_env("{{a}}", &vec![]), "{{a}}");
}

#[test]
fn digest_param_extraction() {
    let c = r#"Digest realm="testrealm@host.com", qop="auth,auth-int", nonce="abc""#;
    assert_eq!(digest_param_value(c, "realm"), "testrealm@host.com");
    assert_eq!(digest_param_value(c, "nonce"), "abc");
    assert_eq!(digest_param_value(c, "opaque"), "");
}

#[test]
fn digest_header_rfc2617_example() {
    let mut a = auth(AuthType::Digest);
    a.username = Some("Mufasa".to_string());
    a.password = Some("Circle Of Life".to_string());
    let challenge = r#"Digest realm="testrealm@host.com", qop="auth,auth-int", nonce="dcd98b7102dd2f0e8b11d0f600bfb0c093", opaque="5ccc069c403ebaf9f0171e9517f40e41""#;
    let h = build_digest_header(&a, &vec![], "GET", "/dir/index.html", challenge, "0a4f113b");
    assert_eq!(
        h,
        "Digest username=\"Mufasa\", realm=\"testrealm@host.com\", nonce=\"dcd98b7102dd2f0e8b11d0f600bfb0c093\", uri=\"/dir/index.html\", response=\"6629fae49393a05397450978507c4ef1\", qop=auth, nc=00000001, cnonce=\"0a4f113b\", opaque=\"5ccc069c403ebaf9f0171e9517f40e41\""
    );
}

#[test]
fn digest_header_without_qop() {
    let mut a = auth(AuthType::Digest);
    a.username = Some("Mufasa".to_string());
    a.password = Some("{{pw}}".to_string());
    let env = pairs(&[("pw", "Circle Of Life")]);
    let challenge = r#"Digest realm="testrealm@host.com", nonce="dcd98b7102dd2f0e8b11d0f600bfb0c093""#;
    let h = build_digest_header(&a, &env, "GET", "/dir/index.html", challenge, "ignored");
    assert_eq!(
        h,
        "Digest username=\"Mufasa\", realm=\"testrealm@host.com\", nonce=\"dcd98b7102dd2f0e8b11d0f600bfb0c093\", uri=\"/dir/index.html\", response=\"670fd8c2df070c60b045671b8b24ff02\""
    );
}

#[test]
fn lower_hex_formatting() {
    assert_eq!(lower_hex_u32(0), "0");
    assert_eq!(lower_hex_u32(255), "ff");
    assert_eq!(lower_hex_u32(0xdeadbeef), "deadbeef");
    assert!(rand_u32() ^ 0xdeadbeef < 1_000_000_000);
}

#[test]
fn digest_authorization_uses_url_path() {
    let mut a = auth(AuthType::Digest);
    a.username = Some("u".to_string());
    a.password = Some("p".to_string());
    let h = digest_authorization(&a, &vec![], "get", "http://h/x/y?z=1", r#"Digest realm="r", nonce="n""#);
    assert!(h.starts_with("Digest username=\"u\", realm=\"r\", nonce=\"n\", uri=\"/x/y\", response=\""));
    let h2 = digest_authorization(&a, &vec![], "get", "not a url", r#"Digest realm="r", nonce="n""#);
    assert!(h2.contains("uri=\"/\""));
}

#[test]
fn methods_are_upper_cased() {
    assert_eq!(plan_request(&request("get", "http://x"), &vec![]).method, "GET");
    assert_eq!(plan_request(&request("straße", "http://x"), &vec![]).method, "STRASSE");
}

#[test]
fn sigv4_signature_known_value() {
    let mut a = auth(AuthType::AwsSigV4);
    a.aws_access_key = Some("AKIDEXAMPLE".to_string());
    a.aws_secret_key = Some("wJalrXUtnFEMI/K7MDENG+bPxRfiCYEXAMPLEKEY".to_string());
    let h = sigv4_headers(
        &a,
        &vec![],
        "GET",
        "https://api.example.com/prod/items?a=1",
        b"",
        "20240101",
        "20240101T000000Z",
    )
    .unwrap();
    assert_eq!(h[0], ("x-amz-date".to_string(), "20240101T000000Z".to_string()));
    assert_eq!(
        h[1].1,
        "e3b0c44298fc1c149afbf4c8996fb92427ae41e4649b934ca495991b7852b855"
    );
    assert_eq!(h[2].0, "Authorization");
    assert_eq!(
        h[2].1,
        "AWS4-HMAC-SHA256 Credential=AKIDEXAMPLE/20240101/us-east-1/execute-api/aws4_request, SignedHeaders=host;x-amz-content-sha256;x-amz-date, Signature=89cee44db8650adc6555b44d1acdf9a24269a20eb352cb4bfaff7069a284223e"
    );
    assert!(sigv4_headers(&a, &vec![], "GET", "nope", b"", "d", "a").is_none());
}

#[test]
fn apply_sigv4_hashes_the_body() {
    let a = auth(AuthType::AwsSigV4);
    let body = Some(RequestBody {
        body_type: BodyType::Json,
        content: "{\"a\":1}".to_string(),
        fields: None,
        raw: None,
    });
    let h = apply_sigv4(&a, &vec![], "post", "https://h.example/p", &body).unwrap();
    assert_eq!(h[1].1, "015abd7f5cc57a2dd94b7590f04ad8084273905ee33ec5cebeae62276a97f862");
    assert!(h[2].1.contains("/us-east-1/execute-api/aws4_request"));
    assert!(apply_sigv4(&a, &vec![], "post", "bad url", &body).is_none());
    let date = h[0].1.clone();
    assert_eq!(date.len(), 16);
    assert!(date.ends_with('Z') && &date[8..9] == "T");
    assert!(h[2].1.contains(&format!("/{}/us-east-1/", &date[..8])));
    let raw = Some(RequestBody { body_type: BodyType::Raw, content: "null".to_string(), fields: None, raw: Some("hello".to_string()) });
    let h = apply_sigv4(&a, &vec![], "put", "https://h.example/p", &raw).unwrap();
    assert_eq!(h[1].1, "2cf24dba5fb0a30e26e83b2ac5b9e29e1b161e5c1fa7425e73043362938b9824");
    let none = apply_sigv4(&a, &vec![], "get", "https://h.example/p", &None).unwrap();
    assert_eq!(none[1].1, "e3b0c44298fc1c149afbf4c8996fb92427ae41e4649b934ca495991b7852b855");
}

#[test]
fn bodies_as_sent() {
    let env = pairs(&[("n", "5")]);
    let fd = RequestBody { body_type: BodyType::FormData, content: "{}".to_string(), fields: Some(pairs(&[("a", "{{n}}"), ("b", "x y")])), raw: None };
    let plan = body_plan(&fd, &env);
    assert!(matches!(&plan, BodyPlan::Multipart(f) if *f == pairs(&[("a", "5"), ("b", "x y")])));
    assert_eq!(
        body_text(&plan),
        "--parallax-form-boundary\r\nContent-Disposition: form-data; name=\"a\"\r\n\r\n5\r\n--parallax-form-boundary\r\nContent-Disposition: form-data; name=\"b\"\r\n\r\nx y\r\n--parallax-form-boundary--\r\n"
    );
    assert_eq!(body_content_type(&plan).as_deref(), Some("multipart/form-data; boundary=parallax-form-boundary"));
    let form = BodyPlan::Form(pairs(&[("q", "a b&c"), ("\u{e9}", "*-._~")]));
    assert_eq!(body_text(&form), "q=a+b%26c&%C3%A9=*-._%7E");
    assert_eq!(body_content_type(&form).as_deref(), Some("application/x-www-form-urlencoded"));
    assert_eq!(body_text(&BodyPlan::Form(vec![])), "");
    assert_eq!(body_text(&BodyPlan::Raw("r".to_string())), "r");
    assert_eq!(body_content_type(&BodyPlan::Raw("r".to_string())), None);
    assert_eq!(body_text(&BodyPlan::NoBody), "");
    assert_eq!(body_content_type(&BodyPlan::Json("{}".to_string())).as_deref(), Some("application/json"));
}

#[test]
fn client_options_follow_the_request() {
    let mut r = request("GET", "http://x");
    assert!(!needs_custom_client(&r));
    let o = client_options(&r);
    assert!(o.cookie_store && !o.accept_invalid_certs && o.proxy.is_none() && o.identity_pem.is_none());
    r.disable_cookies = Some(true);
    r.tls_skip_verify = Some(true);
    r.client_cert_pem = Some("CERT".to_string());
    r.client_key_pem = Some("KEY".to_string());
    r.proxy_url = Some("http://127.0.0.1:8888".to_string());
    assert!(needs_custom_client(&r));
    let o = client_options(&r);
    assert!(!o.cookie_store);
    assert!(o.accept_invalid_certs);
    assert_eq!(o.proxy.as_deref(), Some("http://127.0.0.1:8888"));
    assert_eq!(o.identity_pem.as_deref(), Some("CERT\nKEY"));
}

#[test]
fn auth_actions() {
    let env = pairs(&[("t", "secret")]);
    let mut b = auth(AuthType::Bearer);
    b.token = Some("{{t}}".to_string());
    assert!(matches!(auth_action(&b, &env), AuthAction::Bearer(t) if t == "secret"));
    assert!(matches!(auth_action(&auth(AuthType::Bearer), &env), AuthAction::NoAuth));
    let mut basic = auth(AuthType::Basic);
    basic.username = Some("u".to_string());
    assert!(matches!(auth_action(&basic, &env), AuthAction::Basic(u, p) if u == "u" && p.is_empty()));
    let mut key = auth(AuthType::ApiKey);
    key.api_key_header = Some("X-Key".to_string());
    key.api_key_value = Some("{{t}}".to_string());
    assert!(matches!(auth_action(&key, &env), AuthAction::Header(n, v) if n == "X-Key" && v == "secret"));
    key.api_key_location = Some("query".to_string());
    assert!(matches!(auth_action(&key, &env), AuthAction::NoAuth));
    let mut eco = auth(AuthType::EcosystemProvider);
    eco.injected_headers = Some(pairs(&[("X-CSRFToken", "c")]));
    assert!(matches!(auth_action(&eco, &env), AuthAction::Headers(h) if h == pairs(&[("X-CSRFToken", "c")])));
    assert!(matches!(auth_action(&auth(AuthType::OAuth2), &env), AuthAction::NoAuth));
}

#[test]
fn body_plans() {
    let env = pairs(&[("n", "5")]);
    let json = RequestBody { body_type: BodyType::Json, content: "{\"a\":{{n}}}".to_string(), fields: None, raw: None };
    assert!(matches!(body_plan(&json, &env), BodyPlan::Json(t) if t == "{\"a\":5}"));
    let broken = RequestBody { body_type: BodyType::Json, content: "{\"a\":{{m}}}".to_string(), fields: None, raw: None };
    assert!(matches!(body_plan(&broken, &env), BodyPlan::InvalidJson));
    let raw = RequestBody { body_type: BodyType::Raw, content: "null".to_string(), fields: None, raw: Some("n={{n}}".to_string()) };
    assert!(matches!(body_plan(&raw, &env), BodyPlan::Raw(t) if t == "n=5"));
    let form = RequestBody { body_type: BodyType::UrlEncoded, content: "{}".to_string(), fields: Some(pairs(&[("k{{n}}", "v{{n}}")])), raw: None };
    assert!(matches!(body_plan(&form, &env), BodyPlan::Form(f) if f == pairs(&[("k5", "v5")])));
    let not_object = RequestBody { body_type: BodyType::UrlEncoded, content: "[]".to_string(), fields: None, raw: None };
    assert!(matches!(body_plan(&not_object, &env), BodyPlan::NoBody));
    let gql = RequestBody { body_type: BodyType::GraphQL, content: "{\"query\":\"{{n}}\"}".to_string(), fields: None, raw: None };
    assert!(matches!(body_plan(&gql, &env), BodyPlan::GraphQL(t) if t == "{\"query\":\"{{n}}\"}"));
    let bin = RequestBody { body_type: BodyType::Binary, content: "null".to_string(), fields: None, raw: None };
    assert!(matches!(body_plan(&bin, &env), BodyPlan::NoBody));
}

#[test]
fn request_plan() {
    let env = pairs(&[("h", "example.com"), ("v", "1")]);
    let mut r = request("post", "https://{{h}}/x");
    r.params = Some(pairs(&[("a", "{{v}}")]));
    r.headers = pairs(&[("X-V", "{{v}}")]);
    r.timeout_ms = Some(500);
    let mut k = auth(AuthType::ApiKey);
    k.api_key_header = Some("key".to_string());
    k.api_key_value = Some("{{v}}".to_string());
    k.api_key_location = Some("query".to_string());
    r.auth = Some(k);
    let p = plan_request(&r, &env);
    assert_eq!(p.url, "https://example.com/x");
    assert_eq!(p.query, pairs(&[("a", "1"), ("key", "1")]));
    assert_eq!(p.method, "POST");
    assert_eq!(p.timeout_ms, Some(500));
    assert_eq!(p.headers, pairs(&[("X-V", "1")]));
    assert!(matches!(p.auth, AuthAction::NoAuth));
    assert!(matches!(p.body, BodyPlan::NoBody));
    assert!(!p.sign_sigv4);
    r.auth = Some(auth(AuthType::AwsSigV4));
    assert!(plan_request(&r, &env).sign_sigv4);
}

#[test]
fn digest_retry_decision() {
    let d = Some(auth(AuthType::Digest));
    let challenge = Some("Digest realm=\"r\"".to_string());
    assert!(digest_retry_needed(&d, 401, &challenge));
    assert!(!digest_retry_needed(&d, 200, &challenge));
    assert!(!digest_retry_needed(&d, 401, &None));
    assert!(!digest_retry_needed(&Some(auth(AuthType::Basic)), 401, &challenge));
    assert!(!digest_retry_needed(&None, 401, &challenge));
}

#[test]
fn set_cookie_parsing() {
    let c = parse_set_cookie("sid=abc123; Path=/; Domain=example.com; HttpOnly; secure");
    assert_eq!(c.name, "sid");
    assert_eq!(c.value, "abc123");
    assert_eq!(c.path.as_deref(), Some("/"));
    assert_eq!(c.domain.as_deref(), Some("example.com"));
    assert!(c.http_only && c.secure);
    let bare = parse_set_cookie("justvalue");
    assert_eq!(bare.name, "");
    assert_eq!(bare.value, "justvalue");
    assert!(!bare.secure && !bare.http_only && bare.domain.is_none());
}

#[test]
fn response_parsing() {
    let headers = pairs(&[
        ("content-type", "text/plain"),
        ("set-cookie", "a=1"),
        ("content-type", "application/json; charset=utf-8"),
        ("set-cookie", "b=2; Secure"),
    ]);
    let r = parse_response(200, &headers, b"{\"ok\":true}", 12);
    assert_eq!(r.status, 200);
    assert_eq!(r.status_text, "OK");
    assert_eq!(r.headers, pairs(&[("content-type", "application/json; charset=utf-8"), ("set-cookie", "b=2; Secure")]));
    assert_eq!(r.body.content_type, "application/json; charset=utf-8");
    assert_eq!(r.body.raw, "{\"ok\":true}");
    assert_eq!(r.body.json.as_deref(), Some("{\"ok\":true}"));
    assert_eq!(r.cookies.len(), 2);
    assert_eq!((r.cookies[0].name.as_str(), r.cookies[0].value.as_str()), ("a", "1"));
    assert_eq!(r.cookies[1].name, "b");
    assert!(r.cookies[1].secure);
    assert_eq!(r.size_bytes, 11);
    assert_eq!(r.timing.total_ms, 12);
    assert!(r.redirects.is_empty());
    let odd = parse_response(599, &vec![], &[0xff, b'a'], 0);
    assert_eq!(odd.status_text, "Unknown");
    assert_eq!(odd.body.raw, "\u{fffd}a");
    assert!(odd.body.json.is_none());
    assert_eq!(odd.body.content_type, "");
}

#[test]
fn collapsed_headers_keep_the_last_value() {
    let h = pairs(&[("a", "1"), ("b", "2"), ("a", "3")]);
    assert_eq!(collapse_pairs(&h), pairs(&[("b", "2"), ("a", "3")]));
}
