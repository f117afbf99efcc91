use bili_account::{
    announcement_text, elapsed_label, grab_mode_label, log_count_line, log_window_stays_open,
    mode_color, status_line, task_badge, Rgb,
};

#[test]
fn mode_labels() {
    assert_eq!(grab_mode_label(0), "定时");
    assert_eq!(grab_mode_label(1), "直接");
    assert_eq!(grab_mode_label(2), "捡漏");
    assert_eq!(grab_mode_label(3), "未知");
    assert_eq!(grab_mode_label(255), "未知");
}

#[test]
fn mode_colors() {
    assert_eq!(mode_color(0), Rgb { r: 64, g: 150, b: 238 });
    assert_eq!(mode_color(1), Rgb { r: 76, g: 175, b: 80 });
    assert_eq!(mode_color(2), Rgb { r: 255, g: 145, b: 77 });
    assert_eq!(mode_color(3), Rgb { r: 150, g: 150, b: 160 });
    assert_eq!(mode_color(200), mode_color(7));
}

#[test]
fn elapsed_labels() {
    assert_eq!(elapsed_label(0), "00:00");
    assert_eq!(elapsed_label(75), "01:15");
    assert_eq!(elapsed_label(3599), "59:59");
    assert_eq!(elapsed_label(6000), "100:00");
    for secs in [1u64, 9, 10, 59, 60, 61, 599, 600, 86399, u64::MAX] {
        assert_eq!(elapsed_label(secs), format!("{:02}:{:02}", secs / 60, secs % 60));
    }
}

#[test]
fn badges_and_lines() {
    assert_eq!(task_badge(7), "#7");
    assert_eq!(task_badge(0), "#0");
    assert_eq!(announcement_text(Some("公告".to_string())), "公告");
    assert_eq!(announcement_text(None), "无法连接服务器");
    assert_eq!(status_line(""), "当前状态: 未知状态");
    assert_eq!(status_line("抢票中"), "当前状态: 抢票中");
    assert_eq!(log_count_line(0), "共 0 条日志");
    assert_eq!(log_count_line(5000), "共 5000 条日志");
}

#[test]
fn log_window_closing() {
    assert!(log_window_stays_open(true, false));
    assert!(!log_window_stays_open(true, true));
    assert!(!log_window_stays_open(false, false));
    assert!(!log_window_stays_open(false, true));
}
