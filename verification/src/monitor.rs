use vstd::prelude::*;

use crate::text::{
    decimal, decimal_string, digit_char, digits_value, is_digit, law_decimal_reads_back,
    law_leading_zero,
};

verus! {

/// The label of a grab mode: timed, direct, or pick-up of returned tickets.
pub open spec fn mode_label(mode: u8) -> Seq<char> {
    if mode == 0 {
        "定时"@
    } else if mode == 1 {
        "直接"@
    } else if mode == 2 {
        "捡漏"@
    } else {
        "未知"@
    }
}

/// The label of a grab mode; `未知` (unknown) for modes past 2.
pub fn grab_mode_label(mode: u8) -> (label: &'static str)
    ensures
        label@ == mode_label(mode),
{
    match mode {
        0 => "定时",
        1 => "直接",
        2 => "捡漏",
        _ => "未知",
    }
}

/// A colour, by its red, green and blue parts.
#[derive(Clone, Copy, Debug, PartialEq, Eq, Structural)]
pub struct Rgb {
    pub r: u8,
    pub g: u8,
    pub b: u8,
}

/// The badge colour of a grab mode: blue for timed, green for direct, orange
/// for pick-up, grey otherwise.
pub open spec fn mode_rgb(mode: u8) -> Rgb {
    if mode == 0 {
        Rgb { r: 64, g: 150, b: 238 }
    } else if mode == 1 {
        Rgb { r: 76, g: 175, b: 80 }
    } else if mode == 2 {
        Rgb { r: 255, g: 145, b: 77 }
    } else {
        Rgb { r: 150, g: 150, b: 160 }
    }
}

/// The badge colour of a grab mode.
pub fn mode_color(mode: u8) -> (c: Rgb)
    ensures
        c == mode_rgb(mode),
{
    match mode {
        0 => Rgb { r: 64, g: 150, b: 238 },
        1 => Rgb { r: 76, g: 175, b: 80 },
        2 => Rgb { r: 255, g: 145, b: 77 },
        _ => Rgb { r: 150, g: 150, b: 160 },
    }
}

/// `digits` padded with a leading `0` to two characters, as `{:02}` pads.
pub open spec fn pad2(digits: Seq<char>) -> Seq<char> {
    if digits.len() < 2 {
        seq!['0'] + digits
    } else {
        digits
    }
}

/// The running time of a task as minutes and seconds, `mm:ss`.
pub open spec fn elapsed_text(secs: nat) -> Seq<char> {
    pad2(decimal(secs / 60)) + seq![':'] + pad2(decimal(secs % 60))
}

fn padded(n: u64) -> (s: String)
    ensures
        s@ == pad2(decimal(n as nat)),
{
    let digits = decimal_string(n);
    if n < 10 {
        proof {
            reveal_strlit("0");
        }
        let mut s = String::from_str("0");
        s.append(digits.as_str());
        s
    } else {
        proof {
            lemma_decimal_len(n as nat);
        }
        digits
    }
}

proof fn lemma_decimal_len(n: nat)
    ensures
        n < 10 <==> decimal(n).len() < 2,
        decimal(n).len() >= 1,
    decreases n,
{
    if n >= 10 {
        lemma_decimal_len(n / 10);
    }
}

/// Writes how long a task has been running, as `format!("{:02}:{:02}",
/// secs / 60, secs % 60)` does.
pub fn elapsed_label(secs: u64) -> (label: String)
    ensures
        label@ == elapsed_text(secs as nat),
{
    let mut label = padded(secs / 60);
    proof {
        reveal_strlit(":");
    }
    label.append(":");
    let s = padded(secs % 60);
    label.append(s.as_str());
    label
}

/// The badge that numbers a task: `#` and its sequence number.
pub fn task_badge(seq: u64) -> (badge: String)
    ensures
        badge@ == seq!['#'] + decimal(seq as nat),
{
    proof {
        reveal_strlit("#");
    }
    let mut badge = String::from_str("#");
    let n = decimal_string(seq);
    badge.append(n.as_str());
    badge
}

/// The announcement to show, or `无法连接服务器` (cannot reach the server)
/// when none came.
pub fn announcement_text(announce: Option<String>) -> (text: String)
    ensures
        text@ == match announce {
            Some(a) => a@,
            None => "无法连接服务器"@,
        },
{
    match announce {
        Some(a) => a,
        None => String::from_str("无法连接服务器"),
    }
}

/// The status line of the log window: `当前状态: ` and the status, or
/// `未知状态` (unknown) when the status is empty.
pub fn status_line(running_status: &str) -> (line: String)
    ensures
        line@ == "当前状态: "@ + if running_status@.len() == 0 {
            "未知状态"@
        } else {
            running_status@
        },
{
    let mut line = String::from_str("当前状态: ");
    if running_status.unicode_len() == 0 {
        line.append("未知状态");
    } else {
        line.append(running_status);
    }
    line
}

/// The footer of the log window: `共 <n> 条日志` (n log lines in all).
pub fn log_count_line(count: usize) -> (line: String)
    ensures
        line@ == "共 "@ + decimal(count as nat) + " 条日志"@,
{
    let mut line = String::from_str("共 ");
    let n = decimal_string(count as u64);
    line.append(n.as_str());
    line.append(" 条日志");
    line
}

/// Whether the log window stays open after a frame: the title bar's close
/// button was not used (`window_open`) and neither was the toolbar's.
pub fn log_window_stays_open(window_open: bool, user_close: bool) -> (open: bool)
    ensures
        open == (window_open && !user_close),
{
    window_open && !user_close
}

/// Every mode past 2 is unknown: it shares the label `未知` and the grey
/// badge.
pub proof fn law_unknown_modes_alike(m1: u8, m2: u8)
    requires
        m1 > 2,
        m2 > 2,
    ensures
        mode_label(m1) == mode_label(m2),
        mode_rgb(m1) == mode_rgb(m2),
{
}

/// The seconds of a running time are always two digits: the label ends in
/// `:` and the two digits of `secs % 60`.
pub proof fn law_elapsed_seconds_two_digits(secs: nat)
    ensures
        ({
            let t = elapsed_text(secs);
            let n = t.len();
            &&& n >= 5
            &&& t[n - 3] == ':'
            &&& t[n - 2] == digit_char((secs % 60) / 10)
            &&& t[n - 1] == digit_char(secs % 10)
        }),
{
    let s = secs % 60;
    lemma_decimal_len(secs / 60);
    lemma_decimal_len(s);
    if s >= 10 {
        assert(decimal(s) == decimal(s / 10).push(digit_char(s % 10)));
        assert(s / 10 < 10);
        assert(s % 10 == secs % 10) by {
            assert(secs == 60 * (secs / 60) + s);
        }
    } else {
        assert(s % 10 == secs % 10) by {
            assert(secs == 60 * (secs / 60) + s);
        }
    }
}

/// `pad2` keeps a string of digits a string of digits of at least two
/// characters that reads as the same number.
pub proof fn law_pad2_reads_back(n: nat)
    ensures
        pad2(decimal(n)).len() >= 2,
        n < 100 ==> pad2(decimal(n)).len() == 2,
        forall|i: int| 0 <= i < pad2(decimal(n)).len() ==> is_digit(#[trigger] pad2(decimal(n))[i]),
        digits_value(pad2(decimal(n))) == n,
{
    law_decimal_reads_back(n);
    let d = decimal(n);
    if n >= 10 {
        law_decimal_reads_back(n / 10);
        assert(d == decimal(n / 10).push(digit_char(n % 10)));
    }
    if d.len() < 2 {
        law_leading_zero(d);
        let p = seq!['0'] + d;
        assert forall|i: int| 0 <= i < p.len() implies is_digit(#[trigger] p[i]) by {
            if i > 0 {
                assert(p[i] == d[i - 1]);
            }
        }
    }
}

/// The running-time label reads back as the running time: before its `:`
/// stand at least two digits that read as the whole minutes `secs / 60`,
/// after it two digits that read as the seconds `secs % 60`.
pub proof fn law_elapsed_reads_back(secs: nat)
    ensures
        ({
            let t = elapsed_text(secs);
            let n = t.len();
            &&& n >= 5
            &&& t[n - 3] == ':'
            &&& forall|i: int| 0 <= i < n - 3 ==> is_digit(#[trigger] t[i])
            &&& digits_value(t.take(n - 3)) == secs / 60
            &&& is_digit(t[n - 2]) && is_digit(t[n - 1])
            &&& digits_value(t.skip(n - 2)) == secs % 60
        }),
{
    let m = pad2(decimal(secs / 60));
    let s = pad2(decimal(secs % 60));
    law_pad2_reads_back(secs / 60);
    law_pad2_reads_back(secs % 60);
    let t = elapsed_text(secs);
    assert(t == m + seq![':'] + s);
    let n = t.len();
    assert(t.take(n - 3) =~= m);
    assert(t.skip(n - 2) =~= s);
    assert forall|i: int| 0 <= i < n - 3 implies is_digit(#[trigger] t[i]) by {
        assert(t[i] == m[i]);
    }
    assert(t[n - 2] == s[0]);
    assert(t[n - 1] == s[1]);
}

/// Each grab mode keeps its own label and badge colour: timed (0) blue,
/// direct (1) green, pick-up (2) orange; any other mode is unknown and grey.
pub proof fn law_mode_badges(m: u8)
    ensures
        m == 0 ==> mode_label(m) == "定时"@ && mode_rgb(m) == (Rgb { r: 64, g: 150, b: 238 }),
        m == 1 ==> mode_label(m) == "直接"@ && mode_rgb(m) == (Rgb { r: 76, g: 175, b: 80 }),
        m == 2 ==> mode_label(m) == "捡漏"@ && mode_rgb(m) == (Rgb { r: 255, g: 145, b: 77 }),
        m > 2 ==> mode_label(m) == "未知"@ && mode_rgb(m) == (Rgb { r: 150, g: 150, b: 160 }),
{
}

} // verus!
