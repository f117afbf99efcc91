use vstd::prelude::*;

use crate::cookie::{csrf_of, extract_csrf};
use crate::nav::{is_success_status, status_is_success, NavAttempt};
use crate::text::{
    decimal, decimal_string, digits_value, law_signed_decimal_reads_back, signed_decimal,
    signed_decimal_string,
};

verus! {

/// A logged-in account, as the account list keeps it.
#[derive(Clone, Debug)]
pub struct Account {
    /// The user id (`mid`).
    pub uid: i64,
    /// The nickname.
    pub name: String,
    /// The user level, in decimal.
    pub level: String,
    /// Every cookie of the session, as one header value.
    pub cookie: String,
    /// The csrf token taken from the cookie.
    pub csrf: String,
    pub is_login: bool,
    /// What the account is doing, such as `空闲` (idle).
    pub account_status: String,
    /// The membership label (`vip_label.text`).
    pub vip_label: String,
    /// Whether the account takes part in ticket grabbing.
    pub is_active: bool,
    /// The address of the avatar picture.
    pub avatar_url: Option<String>,
}

/// The parts of an `Account` that contracts speak of.
pub struct AccountView {
    pub uid: int,
    pub name: Seq<char>,
    pub level: Seq<char>,
    pub cookie: Seq<char>,
    pub csrf: Seq<char>,
    pub is_login: bool,
    pub account_status: Seq<char>,
    pub vip_label: Seq<char>,
    pub is_active: bool,
    pub avatar_url: Option<Seq<char>>,
}

impl View for Account {
    type V = AccountView;

    open spec fn view(&self) -> AccountView {
        AccountView {
            uid: self.uid as int,
            name: self.name@,
            level: self.level@,
            cookie: self.cookie@,
            csrf: self.csrf@,
            is_login: self.is_login,
            account_status: self.account_status@,
            vip_label: self.vip_label@,
            is_active: self.is_active,
            avatar_url: match self.avatar_url {
                Some(u) => Some(u@),
                None => None,
            },
        }
    }
}

/// The fields of the `data` object of the account description that the
/// account list reads, each `None` where it is missing or of another type.
#[derive(Debug)]
pub struct NavData {
    /// `data.mid`, as an integer.
    pub mid: Option<i64>,
    /// `data.uname`, as a string.
    pub uname: Option<String>,
    /// `data.level_info.current_level`, as an integer.
    pub current_level: Option<i64>,
    /// `data.vip_label.text`, as a string.
    pub vip_label_text: Option<String>,
    /// `data.face`, as a string.
    pub face: Option<String>,
}

/// The account description the lookup returns: its `code`, as an integer,
/// and its `data` member, when there is one.
#[derive(Debug)]
pub struct NavReply {
    pub code: Option<i64>,
    pub data: Option<NavData>,
}

/// An optional integer, as a mathematical one.
pub open spec fn int_view(o: Option<i64>) -> Option<int> {
    match o {
        Some(i) => Some(i as int),
        None => None,
    }
}

/// An optional string, as its characters.
pub open spec fn text_view(o: Option<String>) -> Option<Seq<char>> {
    match o {
        Some(s) => Some(s@),
        None => None,
    }
}

/// The fields of a `data` object, as values.
pub struct NavDataView {
    pub mid: Option<int>,
    pub uname: Option<Seq<char>>,
    pub current_level: Option<int>,
    pub vip_label_text: Option<Seq<char>>,
    pub face: Option<Seq<char>>,
}

/// An account description, as values.
pub struct NavReplyView {
    pub code: Option<int>,
    pub data: Option<NavDataView>,
}

impl View for NavData {
    type V = NavDataView;

    open spec fn view(&self) -> NavDataView {
        NavDataView {
            mid: int_view(self.mid),
            uname: text_view(self.uname),
            current_level: int_view(self.current_level),
            vip_label_text: text_view(self.vip_label_text),
            face: text_view(self.face),
        }
    }
}

impl View for NavReply {
    type V = NavReplyView;

    open spec fn view(&self) -> NavReplyView {
        NavReplyView {
            code: int_view(self.code),
            data: match self.data {
                Some(d) => Some(d@),
                None => None,
            },
        }
    }
}

/// What `serde_json` reads from a response body: the description's fields
/// (`code`; and `mid`, `uname`, `level_info.current_level`,
/// `vip_label.text` and `face` of `data`), or the text of its parse error.
pub uninterp spec fn nav_json(body: Seq<u8>) -> Result<NavReplyView, Seq<char>>;

/// Calls `serde_json::from_slice` on a response body and reads the fields
/// of the description from the `serde_json::Value` it gives, as `get`,
/// indexing, `as_i64` and `as_str` find them; an error becomes its text.
///
/// The contract names the result: the same body gives the same fields or the
/// same error.
#[verifier::external_body]
fn parse_nav_json(body: &[u8]) -> (r: Result<NavReply, String>)
    ensures
        match r {
            Ok(n) => nav_json(body@) == Ok::<NavReplyView, Seq<char>>(n@),
            Err(e) => nav_json(body@) == Err::<NavReplyView, Seq<char>>(e@),
        },
{
    let v: serde_json::Value = serde_json::from_slice(body).map_err(|e| e.to_string())?;
    let text = |x: &serde_json::Value| x.as_str().map(String::from);
    Ok(NavReply {
        code: v.get("code").and_then(|c| c.as_i64()),
        data: v.get("data").map(|d| NavData {
            mid: d["mid"].as_i64(),
            uname: text(&d["uname"]),
            current_level: d["level_info"]["current_level"].as_i64(),
            vip_label_text: text(&d["vip_label"]["text"]),
            face: text(&d["face"]),
        }),
    })
}

/// What an attempt whose response and body arrived came to, and the
/// description it produced: the body is read as JSON only when the status
/// is a success.
pub fn received_attempt(status: u16, content_length: Option<u64>, body: &[u8]) -> (r: (
    NavAttempt,
    Option<NavReply>,
))
    ensures
        !is_success_status(status) ==> r.1 is None && r.0 == (NavAttempt::Received {
            status,
            content_length,
            body_len: body@.len() as usize,
            parse_error: None,
        }),
        is_success_status(status) ==> match nav_json(body@) {
            Ok(v) => (r.1 matches Some(n) && n@ == v) && r.0 == (NavAttempt::Received {
                status,
                content_length,
                body_len: body@.len() as usize,
                parse_error: None,
            }),
            Err(e) => r.1 is None && (r.0 matches NavAttempt::Received {
                status: s,
                content_length: c,
                body_len: l,
                parse_error: Some(p),
            } && s == status && c == content_length && l == body@.len() && p@ == e),
        },
{
    let body_len = body.len();
    if !status_is_success(status) {
        return (NavAttempt::Received { status, content_length, body_len, parse_error: None }, None);
    }
    match parse_nav_json(body) {
        Ok(reply) => (
            NavAttempt::Received { status, content_length, body_len, parse_error: None },
            Some(reply),
        ),
        Err(e) => (
            NavAttempt::Received { status, content_length, body_len, parse_error: Some(e) },
            None,
        ),
    }
}

/// The text of an optional string, or `dflt`.
pub open spec fn text_or(o: Option<String>, dflt: Seq<char>) -> Seq<char> {
    match o {
        Some(s) => s@,
        None => dflt,
    }
}

fn string_or(o: &Option<String>, dflt: &str) -> (s: String)
    ensures
        s@ == text_or(*o, dflt@),
{
    match o {
        Some(t) => t.clone(),
        None => String::from_str(dflt),
    }
}

/// The name shown when the description has no nickname.
pub open spec fn unknown_name() -> Seq<char> {
    "账号信息获取失败，请删除重新登录"@
}

/// The account that a description's `data` gives, for the cookie the user
/// entered and the cookies of the session.
pub open spec fn nav_account(cookie: Seq<char>, all_cookies: Seq<char>, d: NavData) -> AccountView {
    AccountView {
        uid: match d.mid {
            Some(m) => m as int,
            None => 0,
        },
        name: text_or(d.uname, unknown_name()),
        level: signed_decimal(
            match d.current_level {
                Some(l) => l as int,
                None => 0,
            },
        ),
        cookie: all_cookies,
        csrf: csrf_of(cookie),
        is_login: true,
        account_status: "空闲"@,
        vip_label: text_or(d.vip_label_text, seq![]),
        is_active: true,
        avatar_url: Some(text_or(d.face, seq![])),
    }
}

/// Builds the account that an account description gives.
///
/// `cookie` is what the user entered, `all_cookies` every cookie of the
/// session. The description must have `code` 0, else the result is
/// `获取账号信息失败`; and a `data` member, else `无法获取用户信息`.
pub fn add_account(cookie: &str, all_cookies: String, reply: &NavReply) -> (r: Result<
    Account,
    String,
>)
    ensures
        reply.code != Some(0i64) ==> (r matches Err(e) && e@ == "获取账号信息失败"@),
        reply.code == Some(0i64) ==> match reply.data {
            Some(d) => r matches Ok(a) && a@ == nav_account(cookie@, all_cookies@, d),
            None => r matches Err(e) && e@ == "无法获取用户信息"@,
        },
{
    match reply.code {
        Some(code) if code == 0 => {},
        _ => {
            return Err(String::from_str("获取账号信息失败"));
        },
    }
    match &reply.data {
        Some(d) => {
            let uid = match d.mid {
                Some(m) => m,
                None => 0,
            };
            let level = match d.current_level {
                Some(l) => l,
                None => 0,
            };
            let account = Account {
                uid,
                name: string_or(&d.uname, "账号信息获取失败，请删除重新登录"),
                level: signed_decimal_string(level),
                cookie: all_cookies,
                csrf: extract_csrf(cookie),
                is_login: true,
                account_status: String::from_str("空闲"),
                vip_label: string_or(&d.vip_label_text, ""),
                is_active: true,
                avatar_url: Some(string_or(&d.face, "")),
            };
            proof {
                reveal_strlit("");
                let want = nav_account(cookie@, all_cookies@, *d);
                assert(account@.avatar_url == want.avatar_url);
                assert(account@.name == want.name);
                assert(account@.vip_label == want.vip_label);
            }
            Ok(account)
        },
        None => Err(String::from_str("无法获取用户信息")),
    }
}

// ---------------------------------------------------------------------------
// Signing out
// ---------------------------------------------------------------------------

/// The endpoint that ends a session.
pub const SIGNOUT_URL: &'static str = "https://passport.bilibili.com/login/exit/v2";

/// The characters that a JSON string literal must escape.
pub open spec fn needs_json_escape(c: char) -> bool {
    c == '"' || c == '\\' || (c as u32) < 0x20
}

/// The small hexadecimal digit of `d`, for `d < 16`.
pub open spec fn hex_digit(d: nat) -> char {
    if d < 10 {
        ((48 + d) as u32) as char
    } else {
        ((87 + d) as u32) as char
    }
}

/// How `serde_json` writes one character inside a string literal: `"` and
/// `\` behind a backslash; backspace, tab, line feed, form feed and carriage
/// return as `\b`, `\t`, `\n`, `\f`, `\r`; the other characters below
/// U+0020 as `\u00` and two small hex digits; every other character as it is.
pub open spec fn json_escape(c: char) -> Seq<char> {
    let code = c as u32;
    if c == '"' {
        seq!['\\', '"']
    } else if c == '\\' {
        seq!['\\', '\\']
    } else if code == 8 {
        seq!['\\', 'b']
    } else if code == 9 {
        seq!['\\', 't']
    } else if code == 10 {
        seq!['\\', 'n']
    } else if code == 12 {
        seq!['\\', 'f']
    } else if code == 13 {
        seq!['\\', 'r']
    } else if code < 0x20 {
        seq!['\\', 'u', '0', '0', hex_digit((code / 16) as nat), hex_digit((code % 16) as nat)]
    } else {
        seq![c]
    }
}

/// The characters of `s`, each written as `json_escape` says.
pub open spec fn json_escaped(s: Seq<char>) -> Seq<char>
    decreases s.len(),
{
    if s.len() == 0 {
        seq![]
    } else {
        json_escaped(s.drop_last()) + json_escape(s.last())
    }
}

/// The JSON string literal of `s`: its escaped characters between double
/// quotes.
pub open spec fn json_string_literal(s: Seq<char>) -> Seq<char> {
    seq!['"'] + json_escaped(s) + seq!['"']
}

/// The JSON object with one member, `key`, whose value is the string
/// `value`, as `serde_json` writes it without spaces.
pub open spec fn json_object_text(key: Seq<char>, value: Seq<char>) -> Seq<char> {
    seq!['{'] + json_string_literal(key) + seq![':'] + json_string_literal(value) + seq!['}']
}

/// Calls `serde_json::to_string` on the JSON object whose one member, `key`,
/// holds the string `value`.
///
/// The contract claims what the compact formatter writes for it: `{`, the
/// key's string literal, `:`, the value's string literal and `}`, each
/// literal as `json_string_literal` spells it out after
/// `format_escaped_str`, its escape table and `write_char_escape`.
/// Serialising a `Value` into the `Vec<u8>` that `to_string` writes to
/// cannot fail for a map with string keys, so the error arm never runs.
#[verifier::external_body]
fn json_object_with(key: &str, value: &str) -> (r: String)
    ensures
        r@ == seq!['{'] + (seq!['"'] + json_escaped(key@) + seq!['"']) + seq![':'] + (seq!['"']
            + json_escaped(value@) + seq!['"']) + seq!['}'],
{
    let mut object = serde_json::Map::new();
    object.insert(key.to_string(), serde_json::Value::String(value.to_string()));
    match serde_json::to_string(&serde_json::Value::Object(object)) {
        Ok(t) => t,
        Err(_) => String::new(),
    }
}

proof fn lemma_json_escaped_plain(s: Seq<char>)
    requires
        forall|i: int| 0 <= i < s.len() ==> !needs_json_escape(#[trigger] s[i]),
    ensures
        json_escaped(s) == s,
    decreases s.len(),
{
    if s.len() > 0 {
        let t = s.drop_last();
        assert forall|i: int| 0 <= i < t.len() implies !needs_json_escape(#[trigger] t[i]) by {
            assert(t[i] == s[i]);
        }
        lemma_json_escaped_plain(t);
        assert(!needs_json_escape(s[s.len() - 1]));
        assert(json_escape(s.last()) == seq![s.last()]);
        assert(t.push(s.last()) =~= s);
        assert(json_escaped(s) =~= s);
    } else {
        assert(json_escaped(s) =~= s);
    }
}

/// A string with nothing to escape is its own literal between quotes.
pub proof fn law_json_plain_string(s: Seq<char>)
    requires
        forall|i: int| 0 <= i < s.len() ==> !needs_json_escape(#[trigger] s[i]),
    ensures
        json_string_literal(s) == seq!['"'] + s + seq!['"'],
{
    lemma_json_escaped_plain(s);
}

/// The JSON body of the sign-out request: `{"biliCSRF":<token>}`.
pub open spec fn signout_body(csrf: Seq<char>) -> Seq<char> {
    json_object_text("biliCSRF"@, csrf)
}

/// The body that signs the account out: a JSON object whose one member,
/// `biliCSRF`, holds the account's csrf token.
pub fn signout_request_body(account: &Account) -> (body: String)
    ensures
        body@ == signout_body(account.csrf@),
{
    json_object_with("biliCSRF", account.csrf.as_str())
}

/// What signing out reports: whether the server answered with a success
/// status; or, when no answer came, `请求失败: ` and the error.
pub fn signout_outcome(reply: Result<u16, String>) -> (r: Result<bool, String>)
    ensures
        match reply {
            Ok(status) => r == Ok::<bool, String>(is_success_status(status)),
            Err(e) => r matches Err(m) && m@ == "请求失败: "@ + e@,
        },
{
    match reply {
        Ok(status) => Ok(status_is_success(status)),
        Err(e) => {
            let mut m = String::from_str("请求失败: ");
            m.append(e.as_str());
            Err(m)
        },
    }
}

// ---------------------------------------------------------------------------
// The account's own client
// ---------------------------------------------------------------------------

/// The browser that the account's client claims to be, before its random
/// suffix.
pub const USER_AGENT_BASE: &'static str = "Mozilla/5.0 (Windows NT 10.0; Win64; x64) AppleWebKit/537.36 (KHTML, like Gecko) Chrome/120.0.0.0 Safari/537.36 ";

/// The user agent of an account's own client: the browser string followed by
/// `random_id` in decimal.
pub fn client_user_agent(random_id: u32) -> (ua: String)
    ensures
        ua@ == USER_AGENT_BASE@ + decimal(random_id as nat),
{
    let mut ua = String::from_str(USER_AGENT_BASE);
    let id = decimal_string(random_id as u64);
    ua.append(id.as_str());
    ua
}

/// The account built from a description takes each field from its input:
/// the uid is the description's `mid` itself, a full 64-bit integer (0 when
/// missing); the level reads back as `current_level` (0 when missing); the
/// cookie is the session's cookies; the csrf token is the one the entered
/// cookie carries; the other texts are the description's, or their
/// defaults.
pub proof fn law_nav_account_fields(cookie: Seq<char>, all_cookies: Seq<char>, d: NavData)
    ensures
        ({
            let a = nav_account(cookie, all_cookies, d);
            let level: int = match d.current_level {
                Some(l) => l as int,
                None => 0,
            };
            &&& d.mid is None ==> a.uid == 0
            &&& forall|m: i64| d.mid == Some(m) ==> a.uid == m as int
            &&& (level < 0 ==> a.level[0] == '-' && digits_value(a.level.skip(1)) == -level)
            &&& (level >= 0 ==> a.level[0] != '-' && digits_value(a.level) == level)
            &&& a.cookie == all_cookies
            &&& a.csrf == csrf_of(cookie)
            &&& a.is_login && a.is_active
            &&& a.account_status == "空闲"@
            &&& (forall|u: String| d.uname == Some(u) ==> a.name == u@)
            &&& (d.uname is None ==> a.name == "账号信息获取失败，请删除重新登录"@)
            &&& (forall|v: String| d.vip_label_text == Some(v) ==> a.vip_label == v@)
            &&& (d.vip_label_text is None ==> a.vip_label.len() == 0)
            &&& (forall|f: String| d.face == Some(f) ==> a.avatar_url == Some(f@))
            &&& (d.face is None ==> a.avatar_url == Some(Seq::<char>::empty()))
        }),
{
    let level: int = match d.current_level {
        Some(l) => l as int,
        None => 0,
    };
    law_signed_decimal_reads_back(level);
}

/// The sign-out body is the JSON object `{"biliCSRF":...}` holding the whole
/// token as a JSON string: `{"biliCSRF":"`, the token's characters with
/// JSON's escapes, and `"}`.
pub proof fn law_signout_body_holds_token(csrf: Seq<char>)
    ensures
        signout_body(csrf) == seq!['{', '"', 'b', 'i', 'l', 'i', 'C', 'S', 'R', 'F', '"', ':', '"']
            + json_escaped(csrf) + seq!['"', '}'],
{
    reveal_strlit("biliCSRF");
    let key = "biliCSRF"@;
    assert(key =~= seq!['b', 'i', 'l', 'i', 'C', 'S', 'R', 'F']);
    assert forall|i: int| 0 <= i < key.len() implies !needs_json_escape(#[trigger] key[i]) by {}
    lemma_json_escaped_plain(key);
    assert(signout_body(csrf) =~= seq!['{', '"', 'b', 'i', 'l', 'i', 'C', 'S', 'R', 'F', '"', ':', '"']
        + json_escaped(csrf) + seq!['"', '}']);
}

/// A token with nothing to escape stands in the sign-out body unchanged and
/// whole: the body is `{"biliCSRF":"<token>"}`.
pub proof fn law_signout_body_plain_token(csrf: Seq<char>)
    requires
        forall|i: int| 0 <= i < csrf.len() ==> !needs_json_escape(#[trigger] csrf[i]),
    ensures
        signout_body(csrf) == seq!['{', '"', 'b', 'i', 'l', 'i', 'C', 'S', 'R', 'F', '"', ':', '"']
            + csrf + seq!['"', '}'],
{
    law_signout_body_holds_token(csrf);
    lemma_json_escaped_plain(csrf);
}

/// Escaping works character by character: the escapes of `a + b` are those
/// of `a` followed by those of `b`.
pub proof fn law_json_escaped_concat(a: Seq<char>, b: Seq<char>)
    ensures
        json_escaped(a + b) == json_escaped(a) + json_escaped(b),
    decreases b.len(),
{
    if b.len() == 0 {
        assert(a + b =~= a);
        assert(json_escaped(b) =~= Seq::<char>::empty());
        assert(json_escaped(a) + json_escaped(b) =~= json_escaped(a));
    } else {
        let c = b.last();
        let b0 = b.drop_last();
        assert((a + b).drop_last() =~= a + b0);
        assert((a + b).last() == c);
        law_json_escaped_concat(a, b0);
        assert(json_escaped(a + b) =~= json_escaped(a) + json_escaped(b));
    }
}

/// How one character is written inside a JSON string literal: unchanged
/// unless JSON escapes it; `"` and `\` behind a backslash; backspace, tab,
/// line feed, form feed and carriage return as `\b`, `\t`, `\n`, `\f`, `\r`;
/// any other character below U+0020 as `\u00` and its code in two small hex
/// digits.
pub proof fn law_json_escape_table(c: char)
    ensures
        !needs_json_escape(c) ==> json_escape(c) == seq![c],
        c == '"' ==> json_escape(c) == seq!['\\', '"'],
        c == '\\' ==> json_escape(c) == seq!['\\', '\\'],
        c == '\u{8}' ==> json_escape(c) == seq!['\\', 'b'],
        c == '\t' ==> json_escape(c) == seq!['\\', 't'],
        c == '\n' ==> json_escape(c) == seq!['\\', 'n'],
        c == '\u{c}' ==> json_escape(c) == seq!['\\', 'f'],
        c == '\r' ==> json_escape(c) == seq!['\\', 'r'],
        ((c as u32) < 0x20 && c != '\u{8}' && c != '\t' && c != '\n' && c != '\u{c}' && c != '\r')
            ==> json_escape(c) == seq!['\\', 'u', '0', '0'] + seq![
            "0123456789abcdef"@[((c as u32) / 16) as int],
            "0123456789abcdef"@[((c as u32) % 16) as int],
        ],
{
    reveal_strlit("0123456789abcdef");
}

} // verus!
