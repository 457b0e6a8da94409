// SPDX-License-Identifier: GPL-3.0-or-later
//! The FortiGate provider: logging in, HTTP, and tunnel parameters.

use crosswire::address::Ipv4;
use crosswire::cli::Config;
use crosswire::fortinet::auth::{
    auth_id_uri, credentials_body, parse_response_value, saml_outcome, sso_url, Login, LoginError,
    Next, SamlError, SVPNCOOKIE,
};
use crosswire::fortinet::http::{
    backoff, is_redirection, is_success, request_with, Exchange, HttpResponse, HttpSession, Method,
    Pair, Reaction, MAX_RECONNECTS, MAX_REDIRECTS,
};
use crosswire::fortinet::status::{serving, IdCapture, Serving, TERMINAL_GRACE_SECS};
use crosswire::fortinet::xml::{
    mask_to_prefix, parse_tunnel_params, tunnel_params_from_nodes, MaskError, ParamsError,
    XmlAttribute, XmlNode,
};
use crosswire::fortinet::{AuthPlan, EmptyCookie, FetchError, Fortinet};
use crosswire::progress::Status;
use crosswire::provider::{ProviderContext, Route, Session};
use crosswire::transport::tls::TlsFactory;
use std::sync::Arc;
use std::time::Duration;

const SAMPLE: &str = "<?xml version='1.0' encoding='utf-8'?><sslvpn-tunnel ver='1' patch='1'><ipv4><dns ip='2.2.2.2' domain='corp.example' /><dns ip='8.8.8.8' /><assigned-addr ipv4='123.123.123.123' /><split-tunnel-info><addr ip='172.16.0.0' mask='255.240.0.0' /><addr ip='10.0.0.0' mask='255.0.0.0' /></split-tunnel-info></ipv4></sslvpn-tunnel>";

#[test]
fn test_parse() {
    let p = parse_tunnel_params(SAMPLE).unwrap();
    assert_eq!(
        p.dns,
        vec![
            Ipv4::parse("2.2.2.2").unwrap(),
            Ipv4::parse("8.8.8.8").unwrap()
        ]
    );
    assert_eq!(p.dns_suffix.as_deref(), Some("corp.example"));
    assert_eq!(p.assigned_addr, Some(Ipv4::parse("123.123.123.123").unwrap()));
    assert_eq!(
        p.routes,
        vec![
            Route {
                dest: Ipv4::parse("172.16.0.0").unwrap(),
                prefix: 12
            },
            Route {
                dest: Ipv4::parse("10.0.0.0").unwrap(),
                prefix: 8
            },
        ]
    );
}

#[test]
fn test_mask_to_prefix() {
    assert_eq!(mask_to_prefix("255.255.255.0").unwrap(), 24);
    assert_eq!(mask_to_prefix("255.240.0.0").unwrap(), 12);
    assert_eq!(mask_to_prefix("0.0.0.0").unwrap(), 0);
    assert_eq!(mask_to_prefix("255.255.255.255").unwrap(), 32);
    assert!(mask_to_prefix("255.0.255.0").is_err());
    assert!(mask_to_prefix("255.255.255").is_err());
}

#[test]
fn masks_fail_in_three_ways() {
    assert_eq!(mask_to_prefix("255.0.255.0"), Err(MaskError::NonContiguous));
    assert_eq!(mask_to_prefix("255.255.255"), Err(MaskError::Count));
    assert_eq!(mask_to_prefix("255.255.255.0.0"), Err(MaskError::Count));
    assert_eq!(mask_to_prefix("255.256.0.0"), Err(MaskError::Format));
    assert_eq!(mask_to_prefix(""), Err(MaskError::Format));
    // Every prefix length is found again.
    for p in 0u32..=32 {
        let mask: u32 = if p == 0 { 0 } else { u32::MAX << (32 - p) };
        let text = Ipv4::new((mask >> 24) as u8, (mask >> 16) as u8, (mask >> 8) as u8, mask as u8);
        assert_eq!(mask_to_prefix(&text.text()), Ok(p as u8));
    }
}

#[test]
fn parameters_skip_what_makes_no_sense() {
    let p = parse_tunnel_params(
        "<c xmlns:n='urn:n'><dns ip='bad' domain=''/><dns domain='a'/><dns n:ip='1.1.1.1' domain='b'/>\
         <split-tunnel-info><addr ip='10.0.0.0'/><x><addr ip='9.0.0.0' mask='255.0.0.0'/></x>\
         <addr ip='nope' mask='bad'/></split-tunnel-info></c>",
    )
    .unwrap();
    assert!(p.dns.is_empty());
    assert_eq!(p.dns_suffix.as_deref(), Some("a"));
    assert_eq!(p.assigned_addr, None);
    assert!(p.routes.is_empty());
}

#[test]
fn parameters_fail_on_bad_xml_and_bad_masks() {
    assert!(matches!(parse_tunnel_params("<a>"), Err(ParamsError::BadXml(_))));
    assert!(matches!(
        parse_tunnel_params(
            "<s><split-tunnel-info><addr ip='1.0.0.0' mask='255.0.255.0'/></split-tunnel-info></s>"
        ),
        Err(ParamsError::BadMask(MaskError::NonContiguous))
    ));
}

#[test]
fn parameters_from_nodes() {
    let attr = |name: &str, value: &str| XmlAttribute {
        namespace: None,
        name: name.to_string(),
        value: value.to_string(),
    };
    let node = |tag: &str, parent: Option<usize>, attributes: Vec<XmlAttribute>| XmlNode {
        tag: tag.to_string(),
        parent,
        attributes,
    };
    let nodes = vec![
        node("", None, Vec::new()),
        node("s", Some(0), Vec::new()),
        node("split-tunnel-info", Some(1), Vec::new()),
        node("addr", Some(2), vec![attr("ip", "10.1.0.0"), attr("mask", "255.255.0.0")]),
        node("addr", Some(1), vec![attr("ip", "10.2.0.0"), attr("mask", "255.255.0.0")]),
        node("assigned-addr", Some(1), vec![attr("ipv4", "10.9.9.9")]),
        node("assigned-addr", Some(1), vec![attr("ipv4", "10.8.8.8")]),
    ];
    let p = tunnel_params_from_nodes(&nodes).unwrap();
    assert_eq!(p.routes, vec![Route { dest: Ipv4::new(10, 1, 0, 0), prefix: 16 }]);
    assert_eq!(p.assigned_addr, Some(Ipv4::new(10, 9, 9, 9)));
}

#[test]
fn addresses_as_text() {
    assert_eq!(Ipv4::parse("10.0.0.255"), Some(Ipv4::new(10, 0, 0, 255)));
    for bad in ["10.0.0", "10.0.0.256", "010.0.0.1", "1.2.3.4.5", "+1.2.3.4", "1..2.3", ""] {
        assert_eq!(Ipv4::parse(bad), None);
    }
    assert_eq!(Ipv4::new(1, 20, 255, 0).text(), "1.20.255.0");
    assert_eq!(Ipv4::parse(&Ipv4::new(0, 9, 10, 199).text()), Some(Ipv4::new(0, 9, 10, 199)));
}

#[test]
fn test_parse_response_value() {
    assert_eq!(
        parse_response_value("ret=1,redir=/x", "ret").as_deref(),
        Some("1")
    );
    assert_eq!(
        parse_response_value("ret=1,redir=/x", "redir").as_deref(),
        Some("/x")
    );
    assert_eq!(
        parse_response_value("foo=bar&ret=0", "ret").as_deref(),
        Some("0")
    );
    assert_eq!(
        parse_response_value("tokeninfo=... ,x", "tokeninfo").as_deref(),
        Some("...")
    );
    assert_eq!(parse_response_value("nope", "ret"), None);
}

fn alice() -> Config {
    Config {
        username: Some("alice@corp".to_string()),
        password: Some("s3cr3t & more".to_string()),
        realm: Some("r/1".to_string()),
        ..Default::default()
    }
}

#[test]
fn credentials_are_percent_encoded() {
    assert_eq!(
        credentials_body(&alice()),
        "ajax=1&username=alice%40corp&credential=s3cr3t%20%26%20more&realm=r%2F1"
    );
    assert_eq!(credentials_body(&Config::default()), "ajax=1");
    let c = Config { username: Some("ä~".to_string()), ..Default::default() };
    assert_eq!(credentials_body(&c), "ajax=1&username=%C3%A4~");
}

const CHALLENGE: &str = "ret=2,reqid=7,polid=1-2,grp=g,magic=m&x,tokeninfo=ftm";

#[test]
fn login_without_a_second_factor() {
    let config = alice();
    let (mut login, body) = Login::start(&config);
    assert_eq!(body, credentials_body(&config));
    assert!(matches!(login.answered(&config, "ret=1,redir=/x", true), Next::LoggedIn));

    let (mut login, _) = Login::start(&config);
    match login.answered(&config, "ret=1", false) {
        Next::Failed(e) => {
            assert_eq!(e.message(), "Login succeeded but no SVPNCOOKIE cookie was returned")
        }
        _ => panic!("expected a failure"),
    }
    let (mut login, _) = Login::start(&config);
    match login.answered(&config, "ret=0,redir=/x", true) {
        Next::Failed(e) => assert_eq!(e.message(), "Authentication failed (ret=0)"),
        _ => panic!("expected a failure"),
    }
    let (mut login, _) = Login::start(&config);
    match login.answered(&config, "", false) {
        Next::Failed(e) => assert_eq!(e.message(), "Authentication failed (ret=<missing>)"),
        _ => panic!("expected a failure"),
    }
}

#[test]
fn login_by_push_then_by_prompt() {
    let config = Config { otp_delay: 3, otp_prompt: Some("Token? ".to_string()), ..alice() };
    let (mut login, _) = Login::start(&config);
    match login.answered(&config, CHALLENGE, false) {
        Next::Post { delay, body } => {
            assert_eq!(delay, 0);
            assert_eq!(
                body,
                "ajax=1&username=alice%40corp&realm=r%2F1&reqid=7&polid=1-2&grp=g&magic=m&code=&code2=&ftmpush=1"
            );
        }
        _ => panic!("expected a push"),
    }
    match login.answered(&config, "ret=0", false) {
        Next::Ask { prompt } => assert_eq!(prompt, "Token? "),
        _ => panic!("expected a prompt"),
    }
    match login.entered(&config, " 12 34\n") {
        Next::Post { delay, body } => {
            assert_eq!(delay, 3);
            assert!(body.ends_with("&magic=m&code=12%2034&code2="));
        }
        _ => panic!("expected a code"),
    }
    match login.answered(&config, "ret=0", false) {
        Next::Failed(e) => assert_eq!(e.message(), "Two-factor authentication failed"),
        _ => panic!("expected a failure"),
    }
}

#[test]
fn an_approved_push_is_enough() {
    let config = alice();
    let (mut login, _) = Login::start(&config);
    login.answered(&config, CHALLENGE, false);
    assert!(matches!(login.answered(&config, "", true), Next::LoggedIn));
    let (mut login, _) = Login::start(&config);
    login.answered(&config, CHALLENGE, false);
    assert!(matches!(
        login.answered(&config, "ret=1", false),
        Next::Failed(LoginError::NoCookie)
    ));
}

#[test]
fn a_configured_code_is_sent_at_once() {
    let config = Config { otp: Some("654321".to_string()), ..alice() };
    let (mut login, _) = Login::start(&config);
    match login.answered(&config, CHALLENGE, false) {
        Next::Post { body, .. } => assert!(body.ends_with("&code=654321&code2=")),
        _ => panic!("expected a code"),
    }
    assert!(matches!(login.answered(&config, "ret=1", true), Next::LoggedIn));
    // Without pushes and without a code, the user is asked.
    let config = Config { no_ftm_push: true, ..alice() };
    let (mut login, _) = Login::start(&config);
    match login.answered(&config, CHALLENGE, false) {
        Next::Ask { prompt } => assert_eq!(prompt, "Two-factor token: "),
        _ => panic!("expected a prompt"),
    }
}

#[test]
fn saml_addresses_and_outcomes() {
    assert_eq!(
        sso_url("vpn.example.com", 10443),
        "https://vpn.example.com:10443/remote/saml/start?redirect=1"
    );
    assert_eq!(auth_id_uri("a b/c"), "/remote/saml/auth_id?id=a%20b%2Fc");
    assert_eq!(saml_outcome(200, true), Ok(()));
    assert_eq!(saml_outcome(302, true), Ok(()));
    assert_eq!(saml_outcome(200, false), Err(SamlError::NoCookie));
    assert_eq!(saml_outcome(403, true), Err(SamlError::Exchange { status: 403 }));
}

#[test]
fn backoff_grows_then_caps() {
    let backoff = |n: u32| Duration::from_millis(backoff(n));
    // 1-based: 0.5s, 1s, 2s, 4s, then capped at 5s.
    assert_eq!(backoff(1), Duration::from_millis(500));
    assert_eq!(backoff(2), Duration::from_millis(1_000));
    assert_eq!(backoff(3), Duration::from_millis(2_000));
    assert_eq!(backoff(4), Duration::from_millis(4_000));
    assert_eq!(backoff(5), Duration::from_millis(5_000)); // 8s capped to 5s
    assert_eq!(backoff(9), Duration::from_millis(5_000)); // stays capped
}

#[test]
fn total_retry_budget_fits_nm_connect_timeout() {
    // Sum of all backoffs must stay well under NM's 60s connect timeout,
    // or an in-flight reconnect would outlive the connection attempt.
    let total: Duration = (1..=MAX_RECONNECTS).map(|n| Duration::from_millis(backoff(n))).sum();
    assert!(total < Duration::from_secs(30), "retry budget {total:?} too large");
    assert_eq!(total, Duration::from_millis(12_500));
}

fn session() -> HttpSession {
    let config = Config { host: "gw".to_string(), port: 8443, ..Default::default() };
    HttpSession::new(&TlsFactory::from_config(&config))
}

#[test]
fn cookies_are_kept_by_name() {
    let mut http = session();
    assert_eq!(http.cookie(SVPNCOOKIE), None);
    http.set_cookie(SVPNCOOKIE, "one");
    http.set_cookie("other", "x");
    http.set_cookie(SVPNCOOKIE, "two");
    assert_eq!(http.cookie(SVPNCOOKIE).as_deref(), Some("two"));
    assert_eq!(http.cookie("other").as_deref(), Some("x"));
    http.take_cookies(&[
        " SVPNCOOKIE = three ; path=/; secure; httponly".to_string(),
        "nonsense".to_string(),
        "=value".to_string(),
        "SVPNNETWORK=; expires=Thu, 01-Jan-1970 00:00:00 GMT".to_string(),
    ]);
    assert_eq!(http.cookie(SVPNCOOKIE).as_deref(), Some("three"));
    assert_eq!(http.cookie("SVPNNETWORK").as_deref(), Some(""));
    assert_eq!(http.cookie(""), None);
}

#[test]
fn requests_carry_what_the_gateway_expects() {
    let mut http = session();
    let exchange = Exchange::new("/remote/index", true);
    let r = http.request(&exchange, Method::Get, "");
    assert_eq!(r.uri, "https://gw:8443/remote/index");
    let headers: Vec<(&str, &str)> = r.headers.iter().map(|h| (h.name, h.value.as_str())).collect();
    assert_eq!(headers, vec![("Host", "gw:8443"), ("User-Agent", "crosswire")]);

    http.set_cookie("a", "1");
    http.set_cookie("b", "2");
    let r = http.build_request(Method::Post, "https://gw:8443/x", "ajax=1");
    assert_eq!(r.method, Method::Post);
    assert_eq!(r.body, "ajax=1");
    let cookie = &r.headers[2];
    assert_eq!(cookie.name, "Cookie");
    assert!(cookie.value == "a=1; b=2" || cookie.value == "b=2; a=1");
    assert_eq!(r.headers[3].name, "Content-Type");
    assert_eq!(r.headers[3].value, "application/x-www-form-urlencoded");

    let pairs = [
        Pair { name: "b".to_string(), value: "2".to_string() },
        Pair { name: "a".to_string(), value: "1".to_string() },
    ];
    let r = request_with("h", 1, Method::Get, "u", "", &pairs);
    assert_eq!(r.headers[2].value, "b=2; a=1");
    assert_eq!(http.full_uri("https://elsewhere/"), "https://elsewhere/");
}

#[test]
fn redirects_are_followed_only_so_far() {
    let mut http = session();
    let mut exchange = Exchange::new("/start", true);
    let go = || Some("/next".to_string());
    for _ in 0..MAX_REDIRECTS {
        assert_eq!(http.receive(&mut exchange, 302, go(), &[]), Reaction::Redirected);
    }
    assert_eq!(exchange.uri(), "/next");
    assert_eq!(
        http.receive(&mut exchange, 302, go(), &["c=1".to_string()]),
        Reaction::TooManyRedirects
    );
    assert_eq!(http.cookie("c").as_deref(), Some("1"));
    // Not asked to follow, nothing to follow, or no redirect at all.
    let mut still = Exchange::new("/start", false);
    assert_eq!(still.on_response(302, go()), Reaction::Finished);
    let mut nowhere = Exchange::new("/start", true);
    assert_eq!(nowhere.on_response(302, None), Reaction::Finished);
    assert_eq!(nowhere.on_response(200, go()), Reaction::Finished);
    assert_eq!(nowhere.uri(), "/start");
    assert!(is_success(204) && !is_success(302) && is_redirection(302) && !is_redirection(404));
}

#[test]
fn dropped_connections_are_retried_only_so_often() {
    let mut exchange = Exchange::new("/x", true);
    let mut waits = Vec::new();
    while let Some(ms) = exchange.on_failure(true) {
        waits.push(ms);
    }
    assert_eq!(waits, vec![500, 1000, 2000, 4000, 5000]);
    assert_eq!(exchange.attempt(), MAX_RECONNECTS);
    // A redirect starts the count anew; another kind of failure ends it.
    assert_eq!(exchange.on_response(301, Some("/y".to_string())), Reaction::Redirected);
    assert_eq!(exchange.on_failure(true), Some(500));
    assert_eq!(exchange.on_failure(false), None);
}

#[test]
fn response_text_is_lossy() {
    let r = HttpResponse { status: 200, body: vec![b'o', b'k', 0xff] };
    assert_eq!(r.text(), "ok\u{fffd}");
}

#[test]
fn sessions_come_from_cookies_first() {
    let p = Fortinet;
    assert_eq!(p.name(), "fortinet");
    let both = Config {
        cookie_on_stdin: true,
        cookie: Some("c".to_string()),
        saml_port: Some(8020),
        ..Default::default()
    };
    assert!(matches!(p.auth_plan(&both), AuthPlan::ReadCookie));
    let cookie = Config { cookie_on_stdin: false, ..both };
    match p.auth_plan(&cookie) {
        AuthPlan::Have(s) => assert_eq!(s.cookie, "c"),
        _ => panic!("expected the cookie"),
    }
    let saml = Config { saml_port: Some(8020), ..Default::default() };
    assert!(matches!(p.auth_plan(&saml), AuthPlan::Saml(8020)));
    assert!(matches!(p.auth_plan(&Config::default()), AuthPlan::Password));
    assert_eq!(p.session_from_line("  abc \n").unwrap().cookie, "abc");
    assert!(matches!(p.session_from_line(" \n"), Err(EmptyCookie)));
    assert_eq!(p.session(Some("x".to_string())).unwrap().cookie, "x");
    assert!(p.session(None).is_none());
}

#[test]
fn a_cookie_may_come_with_its_name() {
    let p = Fortinet;
    let have = |cookie: &str| {
        let config = Config { cookie: Some(cookie.to_string()), ..Default::default() };
        match p.auth_plan(&config) {
            AuthPlan::Have(s) => s,
            _ => panic!("expected the cookie"),
        }
    };
    let named = have("SVPNCOOKIE=abc");
    assert_eq!(named.cookie, "abc");
    assert_eq!(
        p.tunnel_request(&named),
        "GET /remote/sslvpn-tunnel HTTP/1.1\r\nHost: sslvpn\r\nCookie: SVPNCOOKIE=abc\r\n\r\n"
    );
    assert_eq!(have("abc").cookie, "abc");
    assert_eq!(have("a=SVPNCOOKIE=").cookie, "a=SVPNCOOKIE=");
    // A line from standard input is the value as it stands.
    assert_eq!(p.session_from_line(" SVPNCOOKIE=abc\n").unwrap().cookie, "SVPNCOOKIE=abc");
}

#[test]
fn tunnel_parameters_need_a_good_answer() {
    let p = Fortinet;
    assert!(matches!(p.params(403, SAMPLE.as_bytes()), Err(FetchError::Status(403))));
    assert!(matches!(
        p.params(200, b"<a"),
        Err(FetchError::Params(ParamsError::BadXml(_)))
    ));
    assert_eq!(p.params(200, SAMPLE.as_bytes()).unwrap().dns.len(), 2);
}

#[test]
fn the_tunnel_request_is_exact() {
    let s = Session { cookie: "abc".to_string() };
    assert_eq!(
        Fortinet.tunnel_request(&s),
        "GET /remote/sslvpn-tunnel HTTP/1.1\r\nHost: sslvpn\r\nCookie: SVPNCOOKIE=abc\r\n\r\n"
    );
}

#[test]
fn the_context_hands_out_its_factory() {
    let config = Config { host: "gw".to_string(), port: 444, ..Default::default() };
    let tls = TlsFactory::from_config(&config);
    let ctx = ProviderContext::new(Arc::new(config), tls);
    assert_eq!(ctx.tls().host(), "gw");
    assert_eq!(ctx.tls().port(), 444);
    assert_eq!(ctx.config.host, "gw");
}

#[test]
fn the_status_server_stops_in_time() {
    assert_eq!(serving(&Status::FetchingConfig, false), Serving::Continue);
    assert_eq!(serving(&Status::FetchingConfig, true), Serving::StopNow);
    assert_eq!(
        serving(&Status::Up, true),
        Serving::StopAfter { secs: TERMINAL_GRACE_SECS }
    );
    let mut capture = IdCapture::new();
    assert_eq!(capture.offer("first".to_string()).as_deref(), Some("first"));
    assert_eq!(capture.offer("second".to_string()), None);
}
