use vstd::prelude::*;

use crate::text::{debug_count, debug_count_string, decimal, decimal_string};

verus! {

/// The endpoint that describes the account a cookie belongs to.
pub const NAV_URL: &'static str = "https://api.bilibili.com/x/web-interface/nav";

/// How many times the account lookup is tried before it gives up.
pub const NAV_MAX_ATTEMPTS: u64 = 3;

/// The statuses that count as success: `200..=299`, what
/// `StatusCode::is_success` decides.
pub open spec fn is_success_status(status: u16) -> bool {
    200 <= status && status < 300
}

/// Decides `is_success_status`.
pub fn status_is_success(status: u16) -> (r: bool)
    ensures
        r == is_success_status(status),
{
    200 <= status && status < 300
}

/// The reason phrase that `StatusCode` gives a status: its canonical reason,
/// or `<unknown status code>`.
pub uninterp spec fn status_reason(code: u16) -> Seq<char>;

/// How `StatusCode` displays a status: its number, a space, its reason.
pub open spec fn status_display(code: u16) -> Seq<char> {
    decimal(code as nat) + seq![' '] + status_reason(code)
}

/// Calls `reqwest::StatusCode::from_u16` and displays the status.
///
/// The contract claims what the `Display` impl of `StatusCode` writes: the
/// number, a space and the reason phrase, which it names. `from_u16`
/// accepts exactly the numbers `100..=999`, which `requires` asks for, so
/// its error arm never runs.
#[verifier::external_body]
fn status_text(code: u16) -> (t: String)
    requires
        100 <= code <= 999,
    ensures
        t@ == decimal(code as nat) + seq![' '] + status_reason(code),
{
    match reqwest::StatusCode::from_u16(code) {
        Ok(status) => status.to_string(),
        Err(_) => String::new(),
    }
}

/// A status that a response can carry: `100..=999`.
pub open spec fn is_status_code(code: u16) -> bool {
    100 <= code <= 999
}

/// Decides `is_status_code`.
pub fn status_is_valid(code: u16) -> (r: bool)
    ensures
        r == is_status_code(code),
{
    100 <= code && code <= 999
}

/// What one attempt at the account lookup came to. `status` is the
/// response's status and `content_length` the length it announced.
pub enum NavAttempt {
    /// The request could not be sent.
    SendFailed { error: String },
    /// A response came, but its body could not be read.
    ReadFailed { status: u16, content_length: Option<u64>, error: String },
    /// A response and its body came; `parse_error` says whether the body
    /// failed to parse as JSON.
    Received {
        status: u16,
        content_length: Option<u64>,
        body_len: usize,
        parse_error: Option<String>,
    },
}

/// The attempt's status, if it has one, is one a response can carry.
pub open spec fn has_valid_status(a: NavAttempt) -> bool {
    match a {
        NavAttempt::SendFailed { .. } => true,
        NavAttempt::ReadFailed { status, .. } => is_status_code(status),
        NavAttempt::Received { status, .. } => is_status_code(status),
    }
}

/// The error an attempt ends in, or `None` when it produced the account
/// description.
pub open spec fn attempt_error(a: NavAttempt) -> Option<Seq<char>> {
    match a {
        NavAttempt::SendFailed { error } => Some("请求账号信息失败: "@ + error@),
        NavAttempt::ReadFailed { status, content_length, error } => Some(
            "读取账号信息响应失败 (HTTP "@ + status_display(status) + ", Content-Length "@ + debug_count(
                content_length,
            ) + "): "@ + error@,
        ),
        NavAttempt::Received { status, content_length, body_len, parse_error } => {
            if !is_success_status(status) {
                Some(
                    "获取账号信息失败 (HTTP "@ + status_display(status) + ", 响应体 "@ + decimal(
                        body_len as nat,
                    ) + " 字节)"@,
                )
            } else {
                match parse_error {
                    None => None,
                    Some(e) => Some(
                        "解析账号信息响应失败 (HTTP "@ + status_display(status) + ", 响应体 "@ + decimal(
                            body_len as nat,
                        ) + " 字节, Content-Length "@ + debug_count(content_length) + "): "@
                            + e@,
                    ),
                }
            }
        },
    }
}

/// Writes the error an attempt ended in.
fn attempt_message(a: NavAttempt) -> (r: Option<String>)
    requires
        has_valid_status(a),
    ensures
        match attempt_error(a) {
            None => r is None,
            Some(m) => r matches Some(s) && s@ == m,
        },
{
    match a {
        NavAttempt::SendFailed { error } => {
            let mut s = String::from_str("请求账号信息失败: ");
            s.append(error.as_str());
            Some(s)
        },
        NavAttempt::ReadFailed { status, content_length, error } => {
            let mut s = String::from_str("读取账号信息响应失败 (HTTP ");
            let shown = status_text(status);
            s.append(shown.as_str());
            s.append(", Content-Length ");
            let cl = debug_count_string(content_length);
            s.append(cl.as_str());
            s.append("): ");
            s.append(error.as_str());
            Some(s)
        },
        NavAttempt::Received { status, content_length, body_len, parse_error } => {
            if !status_is_success(status) {
                let mut s = String::from_str("获取账号信息失败 (HTTP ");
                let shown = status_text(status);
                s.append(shown.as_str());
                s.append(", 响应体 ");
                let len = decimal_string(body_len as u64);
                s.append(len.as_str());
                s.append(" 字节)");
                Some(s)
            } else {
                match parse_error {
                    None => None,
                    Some(e) => {
                        let mut s = String::from_str("解析账号信息响应失败 (HTTP ");
                        let shown = status_text(status);
                        s.append(shown.as_str());
                        s.append(", 响应体 ");
                        let len = decimal_string(body_len as u64);
                        s.append(len.as_str());
                        s.append(" 字节, Content-Length ");
                        let cl = debug_count_string(content_length);
                        s.append(cl.as_str());
                        s.append("): ");
                        s.append(e.as_str());
                        Some(s)
                    },
                }
            }
        },
    }
}

/// The state of a lookup in progress: the attempt under way, counted from 1,
/// and the error the last failed attempt ended in.
pub struct NavFetchState {
    pub attempt: nat,
    pub last_error: Seq<char>,
}

/// What to do after an attempt.
pub enum NavStepView {
    Done,
    Retry { delay_ms: nat },
    GiveUp { error: Seq<char> },
}

/// What to do after an attempt.
pub enum NavStep {
    /// The attempt produced the account description: use it.
    Done,
    /// Wait `delay_ms` milliseconds, then try again.
    Retry { delay_ms: u64 },
    /// Stop and report `error`.
    GiveUp { error: String },
}

impl View for NavStep {
    type V = NavStepView;

    open spec fn view(&self) -> NavStepView {
        match self {
            NavStep::Done => NavStepView::Done,
            NavStep::Retry { delay_ms } => NavStepView::Retry { delay_ms: *delay_ms as nat },
            NavStep::GiveUp { error } => NavStepView::GiveUp { error: error@ },
        }
    }
}

/// The lookup's state before its first attempt.
pub open spec fn nav_start() -> NavFetchState {
    NavFetchState { attempt: 1, last_error: seq![] }
}

/// What is appended to the last error when the lookup gives up.
pub open spec fn give_up_suffix() -> Seq<char> {
    "（已尝试 "@ + decimal(NAV_MAX_ATTEMPTS as nat) + " 次）"@
}

/// The state after an attempt that ended in `err` (`None` for success).
pub open spec fn nav_next(st: NavFetchState, err: Option<Seq<char>>) -> NavFetchState {
    match err {
        None => st,
        Some(m) => NavFetchState {
            attempt: if st.attempt < NAV_MAX_ATTEMPTS {
                st.attempt + 1
            } else {
                st.attempt
            },
            last_error: m,
        },
    }
}

/// What to do after an attempt that ended in `err` (`None` for success):
/// use the result; or wait 200 ms times the attempt's number and try again;
/// or, after the last attempt, give up with its error and the number of
/// attempts.
pub open spec fn nav_decision(st: NavFetchState, err: Option<Seq<char>>) -> NavStepView {
    match err {
        None => NavStepView::Done,
        Some(m) => if st.attempt < NAV_MAX_ATTEMPTS {
            NavStepView::Retry { delay_ms: 200 * st.attempt }
        } else {
            NavStepView::GiveUp { error: m + give_up_suffix() }
        },
    }
}

/// A lookup of the account that a cookie belongs to, tried up to
/// `NAV_MAX_ATTEMPTS` times.
pub struct NavFetch {
    attempt: u64,
    last_error: String,
}

impl View for NavFetch {
    type V = NavFetchState;

    closed spec fn view(&self) -> NavFetchState {
        NavFetchState { attempt: self.attempt as nat, last_error: self.last_error@ }
    }
}

impl NavFetch {
    #[verifier::type_invariant]
    spec fn attempt_in_range(self) -> bool {
        1 <= self.attempt <= NAV_MAX_ATTEMPTS
    }

    /// A lookup before its first attempt.
    pub fn new() -> (f: NavFetch)
        ensures
            f@ == nav_start(),
    {
        NavFetch { attempt: 1, last_error: String::new() }
    }

    /// The number of the attempt under way, counted from 1.
    pub fn attempt(&self) -> (a: u64)
        ensures
            a == self@.attempt,
            1 <= a <= NAV_MAX_ATTEMPTS,
    {
        proof {
            use_type_invariant(self);
        }
        self.attempt
    }

    /// The error the last failed attempt ended in; empty before any failure.
    pub fn last_error(&self) -> (e: &str)
        ensures
            e@ == self@.last_error,
    {
        self.last_error.as_str()
    }

    /// Takes in what the attempt under way came to and says what to do next.
    pub fn record(&mut self, outcome: NavAttempt) -> (step: NavStep)
        requires
            has_valid_status(outcome),
        ensures
            final(self)@ == nav_next(old(self)@, attempt_error(outcome)),
            step@ == nav_decision(old(self)@, attempt_error(outcome)),
    {
        proof {
            use_type_invariant(&*self);
        }
        match attempt_message(outcome) {
            None => NavStep::Done,
            Some(m) => {
                if self.attempt < NAV_MAX_ATTEMPTS {
                    let delay_ms = 200 * self.attempt;
                    self.attempt = self.attempt + 1;
                    self.last_error = m;
                    NavStep::Retry { delay_ms }
                } else {
                    let mut error = m.clone();
                    error.append("（已尝试 ");
                    let count = decimal_string(NAV_MAX_ATTEMPTS);
                    error.append(count.as_str());
                    error.append(" 次）");
                    assert(error@ =~= m@ + give_up_suffix());
                    self.last_error = m;
                    NavStep::GiveUp { error }
                }
            },
        }
    }
}

/// The lookup never makes more than `NAV_MAX_ATTEMPTS` attempts: from any
/// state it can reach, the attempt under way is numbered 1 to 3.
pub proof fn law_nav_attempts_bounded(st: NavFetchState, err: Option<Seq<char>>)
    requires
        1 <= st.attempt <= NAV_MAX_ATTEMPTS,
    ensures
        1 <= nav_next(st, err).attempt <= NAV_MAX_ATTEMPTS,
{
}

/// A successful attempt ends the lookup and leaves its state as it was.
pub proof fn law_nav_success_ends(st: NavFetchState)
    ensures
        nav_decision(st, None) == NavStepView::Done,
        nav_next(st, None) == st,
{
}

/// Three failed attempts in a row: the first two are retried after 200 ms
/// and 400 ms, the third gives up with its own error followed by the number
/// of attempts.
pub proof fn law_nav_three_failures(e1: Seq<char>, e2: Seq<char>, e3: Seq<char>)
    ensures
        ({
            let s0 = nav_start();
            let s1 = nav_next(s0, Some(e1));
            let s2 = nav_next(s1, Some(e2));
            &&& nav_decision(s0, Some(e1)) == NavStepView::Retry { delay_ms: 200 }
            &&& nav_decision(s1, Some(e2)) == NavStepView::Retry { delay_ms: 400 }
            &&& nav_decision(s2, Some(e3)) == NavStepView::GiveUp {
                error: e3 + give_up_suffix(),
            }
        }),
{
}

/// The attempt is a response with a `2xx` status whose body parsed.
pub open spec fn is_good_response(a: NavAttempt) -> bool {
    match a {
        NavAttempt::Received { status, parse_error, .. } => is_success_status(status)
            && parse_error is None,
        _ => false,
    }
}

/// The attempt that received a response with these parts.
pub open spec fn received(
    status: u16,
    content_length: Option<u64>,
    body_len: usize,
    parse_error: Option<String>,
) -> NavAttempt {
    NavAttempt::Received { status, content_length, body_len, parse_error }
}

/// Only one kind of attempt succeeds: a response with a `2xx` status whose
/// body parsed. Every other attempt, a response with any other status among
/// them, is a failure with an error text.
pub proof fn law_attempt_fails_unless_success(a: NavAttempt)
    ensures
        (attempt_error(a) is None) == is_good_response(a),
{
}

/// A response with a status outside `2xx` fails the attempt and is retried,
/// whatever its body: after 200 ms on the first attempt.
pub proof fn law_failure_status_retried(
    status: u16,
    content_length: Option<u64>,
    body_len: usize,
    parse_error: Option<String>,
)
    requires
        !is_success_status(status),
    ensures
        nav_decision(
            nav_start(),
            attempt_error(received(status, content_length, body_len, parse_error)),
        ) == (NavStepView::Retry { delay_ms: 200 }),
        nav_next(
            nav_start(),
            attempt_error(received(status, content_length, body_len, parse_error)),
        ).attempt == 2,
{
}

/// When the lookup gives up, the text it adds after the last error says
/// that 3 attempts were made.
pub proof fn law_give_up_suffix()
    ensures
        give_up_suffix() == "（已尝试 "@ + seq!['3'] + " 次）"@,
{
    assert(decimal(3) =~= seq!['3']);
}

/// `e` ends `m`.
pub open spec fn ends_with(m: Seq<char>, e: Seq<char>) -> bool {
    m.len() >= e.len() && m.subrange(m.len() - e.len(), m.len() as int) == e
}

/// A failed attempt reports what went wrong: the error of a send, of a
/// read or of the parse ends its text, and a failure status is named by
/// its number and reason, `HTTP <status>`, followed by the body's length.
pub proof fn law_failure_reports_cause(
    status: u16,
    content_length: Option<u64>,
    body_len: usize,
    error: String,
)
    ensures
        attempt_error((NavAttempt::SendFailed { error })) matches Some(m) && ends_with(m, error@),
        attempt_error((NavAttempt::ReadFailed { status, content_length, error })) matches Some(m)
            && ends_with(m, error@),
        is_success_status(status) ==> (attempt_error(
            received(status, content_length, body_len, Some(error)),
        ) matches Some(m) && ends_with(m, error@)),
        !is_success_status(status) ==> (attempt_error(
            received(status, content_length, body_len, None),
        ) matches Some(m) && ends_with(
            m,
            "HTTP "@ + status_display(status) + ", 响应体 "@ + decimal(body_len as nat) + " 字节)"@,
        )),
{
    let e = error@;
    let m1 = "请求账号信息失败: "@ + e;
    assert(m1.subrange(m1.len() - e.len(), m1.len() as int) =~= e);
    let m2 = "读取账号信息响应失败 (HTTP "@ + status_display(status) + ", Content-Length "@
        + debug_count(content_length) + "): "@ + e;
    assert(m2.subrange(m2.len() - e.len(), m2.len() as int) =~= e);
    let m3 = "解析账号信息响应失败 (HTTP "@ + status_display(status) + ", 响应体 "@ + decimal(
        body_len as nat,
    ) + " 字节, Content-Length "@ + debug_count(content_length) + "): "@ + e;
    assert(m3.subrange(m3.len() - e.len(), m3.len() as int) =~= e);
    reveal_strlit("获取账号信息失败 (HTTP ");
    reveal_strlit("HTTP ");
    let tail = "HTTP "@ + status_display(status) + ", 响应体 "@ + decimal(body_len as nat)
        + " 字节)"@;
    let m4 = "获取账号信息失败 (HTTP "@ + status_display(status) + ", 响应体 "@ + decimal(
        body_len as nat,
    ) + " 字节)"@;
    assert(m4.subrange(m4.len() - tail.len(), m4.len() as int) =~= tail);
}

} // verus!
