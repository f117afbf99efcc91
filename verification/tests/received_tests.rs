use bili_account::{add_account, received_attempt, status_is_valid, NavAttempt};

const FULL: &str = r#"{"code":0,"message":"0","data":{"isLogin":true,"mid":777,"uname":"测试","level_info":{"current_level":5},"vip_label":{"text":"大会员"},"face":"https://example.com/f.png"}}"#;

#[test]
fn received_body_is_read_as_json() {
    let (attempt, reply) = received_attempt(200, Some(FULL.len() as u64), FULL.as_bytes());
    match attempt {
        NavAttempt::Received { status, content_length, body_len, parse_error } => {
            assert_eq!(status, 200);
            assert_eq!(content_length, Some(FULL.len() as u64));
            assert_eq!(body_len, FULL.len());
            assert!(parse_error.is_none());
        }
        _ => panic!("expected a received attempt"),
    }
    let reply = reply.expect("description");
    assert_eq!(reply.code, Some(0));
    let data = reply.data.as_ref().expect("data");
    assert_eq!(data.mid, Some(777));
    assert_eq!(data.uname.as_deref(), Some("测试"));
    assert_eq!(data.current_level, Some(5));
    assert_eq!(data.vip_label_text.as_deref(), Some("大会员"));
    assert_eq!(data.face.as_deref(), Some("https://example.com/f.png"));
    let account = add_account("bili_jct=t", "bili_jct=t".to_string(), &reply).expect("account");
    assert_eq!(account.uid, 777);
    assert_eq!(account.level, "5");
}

#[test]
fn received_fields_of_other_types_are_missing() {
    let body = r#"{"code":"0","data":{"mid":"7","uname":3,"level_info":null,"face":null}}"#;
    let (_, reply) = received_attempt(200, None, body.as_bytes());
    let reply = reply.expect("description");
    assert_eq!(reply.code, None);
    let data = reply.data.expect("data");
    assert_eq!(data.mid, None);
    assert_eq!(data.uname, None);
    assert_eq!(data.current_level, None);
    assert_eq!(data.vip_label_text, None);
    assert_eq!(data.face, None);
}

#[test]
fn received_without_data_member() {
    let (_, reply) = received_attempt(200, None, r#"{"code":-101,"message":"账号未登录"}"#.as_bytes());
    let reply = reply.expect("description");
    assert_eq!(reply.code, Some(-101));
    assert!(reply.data.is_none());
}

#[test]
fn received_bad_json_reports_parse_error() {
    let body = b"<html>oops</html>";
    let (attempt, reply) = received_attempt(200, None, body);
    assert!(reply.is_none());
    let expected = serde_json::from_slice::<serde_json::Value>(body).unwrap_err().to_string();
    match attempt {
        NavAttempt::Received { parse_error, body_len, .. } => {
            assert_eq!(parse_error, Some(expected));
            assert_eq!(body_len, body.len());
        }
        _ => panic!("expected a received attempt"),
    }
}

#[test]
fn received_failure_status_is_not_parsed() {
    let (attempt, reply) = received_attempt(503, Some(3), b"not json");
    assert!(reply.is_none());
    match attempt {
        NavAttempt::Received { status, content_length, body_len, parse_error } => {
            assert_eq!(status, 503);
            assert_eq!(content_length, Some(3));
            assert_eq!(body_len, 8);
            assert!(parse_error.is_none());
        }
        _ => panic!("expected a received attempt"),
    }
}

#[test]
fn valid_status_range() {
    assert!(!status_is_valid(99));
    assert!(status_is_valid(100));
    assert!(status_is_valid(999));
    assert!(!status_is_valid(1000));
}
