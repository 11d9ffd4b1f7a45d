use taylorhub::github::{
    after_poll_reply, begin_device_poll, device_start_from, granted_limit, poll_tick,
    token_to_store, DeviceCodeReply, DevicePoll, PollOutcome, TokenReply,
    DEFAULT_CODE_LIFETIME_SECS, DEFAULT_POLL_INTERVAL_SECS, DEFAULT_RATE_LIMIT,
};

fn reply(code: Option<&str>) -> DeviceCodeReply {
    DeviceCodeReply {
        device_code: code.map(|s| s.to_string()),
        user_code: Some("ABCD-1234".to_string()),
        verification_uri: Some("https://github.com/login/device".to_string()),
        interval: None,
        expires_in: Some(600),
        raw: "{\"error\":\"x\"}".to_string(),
    }
}

fn token(access: Option<&str>, error: Option<&str>) -> TokenReply {
    TokenReply { access_token: access.map(|s| s.to_string()), error: error.map(|s| s.to_string()) }
}

#[test]
fn device_start_takes_the_codes_and_defaults() {
    let d = device_start_from(reply(Some("dc"))).unwrap();
    assert_eq!(d.device_code, "dc");
    assert_eq!(d.user_code, "ABCD-1234");
    assert_eq!(d.verification_uri, "https://github.com/login/device");
    assert_eq!(d.interval, DEFAULT_POLL_INTERVAL_SECS);
    assert_eq!(d.interval, 5);
    assert_eq!(d.expires_in, 600);
    let mut r = reply(Some("dc"));
    r.expires_in = None;
    r.user_code = None;
    let d = device_start_from(r).unwrap();
    assert_eq!(d.expires_in, DEFAULT_CODE_LIFETIME_SECS);
    assert_eq!(d.expires_in, 900);
    assert_eq!(d.user_code, "");
}

#[test]
fn device_start_without_code_reports_the_reply() {
    let e = device_start_from(reply(None)).err().unwrap();
    assert_eq!(e, "GitHub não iniciou o login: {\"error\":\"x\"}");
    let e = device_start_from(reply(Some(""))).err().unwrap();
    assert_eq!(e, "GitHub não iniciou o login: {\"error\":\"x\"}");
}

#[test]
fn poll_lifetime_is_clamped_and_wait_floored() {
    let p = begin_device_poll(1000, 2, 10);
    assert_eq!(p.deadline, 1060);
    assert_eq!(p.wait, 5);
    let p = begin_device_poll(1000, 7, 5000);
    assert_eq!(p.deadline, 2800);
    assert_eq!(p.wait, 7);
    let p = begin_device_poll(1000, 5, 900);
    assert_eq!(p.deadline, 1900);
}

#[test]
fn poll_tick_times_out_after_the_deadline() {
    let p = DevicePoll { deadline: 100, wait: 5 };
    assert_eq!(poll_tick(&p, 100), Ok(5));
    assert_eq!(poll_tick(&p, 101), Err("Tempo esgotado — tente de novo".to_string()));
}

fn pending(o: PollOutcome) -> DevicePoll {
    match o {
        PollOutcome::Pending(p) => p,
        other => panic!("expected a pending poll, got {:?}", other),
    }
}

fn failed(o: PollOutcome) -> String {
    match o {
        PollOutcome::Failed(m) => m,
        other => panic!("expected a failure, got {:?}", other),
    }
}

#[test]
fn poll_replies_drive_the_wait() {
    let p = DevicePoll { deadline: 100, wait: 5 };
    match after_poll_reply(p, token(Some("gho_x"), Some("slow_down"))) {
        PollOutcome::Authorized(t) => assert_eq!(t, "gho_x"),
        other => panic!("expected a token, got {:?}", other),
    }
    let q = pending(after_poll_reply(p, token(None, None)));
    assert_eq!((q.deadline, q.wait), (100, 5));
    let q = pending(after_poll_reply(p, token(None, Some("authorization_pending"))));
    assert_eq!((q.deadline, q.wait), (100, 5));
    let q = pending(after_poll_reply(p, token(None, Some("slow_down"))));
    assert_eq!((q.deadline, q.wait), (100, 10));
    assert_eq!(
        failed(after_poll_reply(p, token(None, Some("expired_token")))),
        "O código expirou — tente de novo"
    );
    assert_eq!(
        failed(after_poll_reply(p, token(None, Some("access_denied")))),
        "Login cancelado no GitHub"
    );
    assert_eq!(
        failed(after_poll_reply(p, token(None, Some("unsupported_grant_type")))),
        "GitHub: unsupported_grant_type"
    );
}

#[test]
fn rate_limit_defaults_to_the_authenticated_limit() {
    assert_eq!(granted_limit(Some(60)), 60);
    assert_eq!(granted_limit(None), DEFAULT_RATE_LIMIT);
    assert_eq!(granted_limit(None), 5000);
}

#[test]
fn pasted_token_is_trimmed_and_blank_clears() {
    assert_eq!(token_to_store("  ghp_abc \n"), Some("ghp_abc".to_string()));
    assert_eq!(token_to_store(" \t "), None);
    assert_eq!(token_to_store(""), None);
}
