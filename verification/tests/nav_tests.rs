use bili_account::{status_is_success, NavAttempt, NavFetch, NavStep, NAV_MAX_ATTEMPTS, NAV_URL};

fn send_failed(e: &str) -> NavAttempt {
    NavAttempt::SendFailed { error: e.to_string() }
}

#[test]
fn lookup_constants() {
    assert_eq!(NAV_MAX_ATTEMPTS, 3);
    assert_eq!(NAV_URL, "https://api.bilibili.com/x/web-interface/nav");
}

#[test]
fn success_status_range() {
    assert!(!status_is_success(199));
    assert!(status_is_success(200));
    assert!(status_is_success(204));
    assert!(status_is_success(299));
    assert!(!status_is_success(300));
    assert!(!status_is_success(404));
}

#[test]
fn first_attempt_succeeds() {
    let mut f = NavFetch::new();
    assert_eq!(f.attempt(), 1);
    assert_eq!(f.last_error(), "");
    let step = f.record(NavAttempt::Received {
        status: 200,
        content_length: Some(10),
        body_len: 10,
        parse_error: None,
    });
    assert!(matches!(step, NavStep::Done));
    assert_eq!(f.attempt(), 1);
}

#[test]
fn three_failures_give_up() {
    let mut f = NavFetch::new();
    match f.record(send_failed("timeout")) {
        NavStep::Retry { delay_ms } => assert_eq!(delay_ms, 200),
        _ => panic!("expected a retry"),
    }
    assert_eq!(f.attempt(), 2);
    assert_eq!(f.last_error(), "请求账号信息失败: timeout");
    match f.record(send_failed("reset")) {
        NavStep::Retry { delay_ms } => assert_eq!(delay_ms, 400),
        _ => panic!("expected a retry"),
    }
    assert_eq!(f.attempt(), 3);
    match f.record(send_failed("refused")) {
        NavStep::GiveUp { error } => {
            assert_eq!(error, "请求账号信息失败: refused（已尝试 3 次）")
        }
        _ => panic!("expected to give up"),
    }
}

#[test]
fn success_after_a_failure() {
    let mut f = NavFetch::new();
    assert!(matches!(f.record(send_failed("x")), NavStep::Retry { delay_ms: 200 }));
    let step = f.record(NavAttempt::Received {
        status: 200,
        content_length: None,
        body_len: 3,
        parse_error: None,
    });
    assert!(matches!(step, NavStep::Done));
}

#[test]
fn read_failure_message() {
    let mut f = NavFetch::new();
    f.record(NavAttempt::ReadFailed {
        status: 200,
        content_length: Some(512),
        error: "body error".to_string(),
    });
    assert_eq!(
        f.last_error(),
        "读取账号信息响应失败 (HTTP 200 OK, Content-Length Some(512)): body error"
    );
}

#[test]
fn bad_status_message() {
    let mut f = NavFetch::new();
    f.record(NavAttempt::Received {
        status: 412,
        content_length: None,
        body_len: 1234,
        parse_error: Some("ignored".to_string()),
    });
    assert_eq!(f.last_error(), "获取账号信息失败 (HTTP 412 Precondition Failed, 响应体 1234 字节)");
}

#[test]
fn parse_failure_message() {
    let mut f = NavFetch::new();
    f.record(NavAttempt::Received {
        status: 200,
        content_length: None,
        body_len: 0,
        parse_error: Some("EOF while parsing a value at line 1 column 0".to_string()),
    });
    f.record(send_failed("a"));
    match f.record(NavAttempt::Received {
        status: 200,
        content_length: None,
        body_len: 0,
        parse_error: Some("EOF while parsing a value at line 1 column 0".to_string()),
    }) {
        NavStep::GiveUp { error } => assert_eq!(
            error,
            "解析账号信息响应失败 (HTTP 200 OK, 响应体 0 字节, Content-Length None): EOF while parsing a value at line 1 column 0（已尝试 3 次）"
        ),
        _ => panic!("expected to give up"),
    }
}

#[test]
fn unknown_status_reason() {
    let mut f = NavFetch::new();
    f.record(NavAttempt::Received { status: 599, content_length: None, body_len: 2, parse_error: None });
    assert_eq!(f.last_error(), "获取账号信息失败 (HTTP 599 <unknown status code>, 响应体 2 字节)");
}
