use bili_account::{
    add_account, client_user_agent, signout_outcome, signout_request_body, Account, NavData,
    NavReply, SIGNOUT_URL, USER_AGENT_BASE,
};

fn full_data() -> NavData {
    NavData {
        mid: Some(12345),
        uname: Some("小明".to_string()),
        current_level: Some(6),
        vip_label_text: Some("年度大会员".to_string()),
        face: Some("https://i0.hdslb.com/face.jpg".to_string()),
    }
}

#[test]
fn account_from_a_full_description() {
    let reply = NavReply { code: Some(0), data: Some(full_data()) };
    let a = add_account("SESSDATA=s; bili_jct=csrf1", "SESSDATA=s; bili_jct=csrf1; buvid3=b".to_string(), &reply)
        .expect("account");
    assert_eq!(a.uid, 12345);
    assert_eq!(a.name, "小明");
    assert_eq!(a.level, "6");
    assert_eq!(a.cookie, "SESSDATA=s; bili_jct=csrf1; buvid3=b");
    assert_eq!(a.csrf, "csrf1");
    assert!(a.is_login);
    assert_eq!(a.account_status, "空闲");
    assert_eq!(a.vip_label, "年度大会员");
    assert!(a.is_active);
    assert_eq!(a.avatar_url.as_deref(), Some("https://i0.hdslb.com/face.jpg"));
}

#[test]
fn account_defaults_for_missing_fields() {
    let data = NavData { mid: None, uname: None, current_level: None, vip_label_text: None, face: None };
    let reply = NavReply { code: Some(0), data: Some(data) };
    let a = add_account("x=1", "x=1".to_string(), &reply).expect("account");
    assert_eq!(a.uid, 0);
    assert_eq!(a.name, "账号信息获取失败，请删除重新登录");
    assert_eq!(a.level, "0");
    assert_eq!(a.csrf, "");
    assert_eq!(a.vip_label, "");
    assert_eq!(a.avatar_url.as_deref(), Some(""));
}

#[test]
fn account_negative_level() {
    let mut data = full_data();
    data.current_level = Some(-3);
    let reply = NavReply { code: Some(0), data: Some(data) };
    let a = add_account("", String::new(), &reply).expect("account");
    assert_eq!(a.level, "-3");
    let mut data = full_data();
    data.current_level = Some(i64::MIN);
    let reply = NavReply { code: Some(0), data: Some(data) };
    let a = add_account("", String::new(), &reply).expect("account");
    assert_eq!(a.level, i64::MIN.to_string());
}

#[test]
fn account_refused_for_bad_code() {
    let reply = NavReply { code: Some(-101), data: Some(full_data()) };
    assert_eq!(add_account("c", "c".to_string(), &reply).unwrap_err(), "获取账号信息失败");
    let reply = NavReply { code: None, data: Some(full_data()) };
    assert_eq!(add_account("c", "c".to_string(), &reply).unwrap_err(), "获取账号信息失败");
}

#[test]
fn account_refused_without_data() {
    let reply = NavReply { code: Some(0), data: None };
    assert_eq!(add_account("c", "c".to_string(), &reply).unwrap_err(), "无法获取用户信息");
}

fn sample_account(csrf: &str) -> Account {
    Account {
        uid: 1,
        name: "n".to_string(),
        level: "1".to_string(),
        cookie: String::new(),
        csrf: csrf.to_string(),
        is_login: true,
        account_status: "空闲".to_string(),
        vip_label: String::new(),
        is_active: true,
        avatar_url: None,
    }
}

#[test]
fn signout_body_is_json() {
    assert_eq!(SIGNOUT_URL, "https://passport.bilibili.com/login/exit/v2");
    assert_eq!(signout_request_body(&sample_account("abc123")), "{\"biliCSRF\":\"abc123\"}");
    assert_eq!(signout_request_body(&sample_account("")), "{\"biliCSRF\":\"\"}");
    assert_eq!(
        signout_request_body(&sample_account("a\"b\\c\n")),
        "{\"biliCSRF\":\"a\\\"b\\\\c\\n\"}"
    );
}

#[test]
fn signout_body_matches_serde_json() {
    for csrf in ["abc", "", "q\"uote", "\u{1}ctl", "令牌"] {
        let mut body = serde_json::Map::new();
        body.insert("biliCSRF".to_string(), serde_json::Value::String(csrf.to_string()));
        let expected = serde_json::to_string(&serde_json::Value::Object(body)).unwrap();
        assert_eq!(signout_request_body(&sample_account(csrf)), expected);
    }
}

#[test]
fn signout_outcomes() {
    assert_eq!(signout_outcome(Ok(200)), Ok(true));
    assert_eq!(signout_outcome(Ok(302)), Ok(false));
    assert_eq!(signout_outcome(Ok(500)), Ok(false));
    assert_eq!(signout_outcome(Err("connection refused".to_string())), Err("请求失败: connection refused".to_string()));
}

#[test]
fn user_agent_has_random_suffix() {
    assert_eq!(client_user_agent(0), format!("{}0", USER_AGENT_BASE));
    assert_eq!(
        client_user_agent(987654321),
        "Mozilla/5.0 (Windows NT 10.0; Win64; x64) AppleWebKit/537.36 (KHTML, like Gecko) Chrome/120.0.0.0 Safari/537.36 987654321"
    );
    assert_eq!(client_user_agent(u32::MAX), format!("{}{}", USER_AGENT_BASE, u32::MAX));
}


#[test]
fn signout_body_escapes_controls() {
    assert_eq!(signout_request_body(&sample_account("\u{8}\u{9}\u{b}\u{1f}")), "{\"biliCSRF\":\"\\b\\t\\u000b\\u001f\"}");
}
