//! Account records, cookie handling and the retry policy of the account
//! lookup, with the labels shown on the monitor panel.
pub mod account;
pub mod cookie;
pub mod monitor;
pub mod nav;
pub mod text;

pub use account::{
    add_account, client_user_agent, received_attempt, signout_outcome, signout_request_body, Account, NavData,
    NavReply, SIGNOUT_URL, USER_AGENT_BASE,
};
pub use cookie::{extract_csrf, is_white_space_char};
pub use monitor::{
    announcement_text, elapsed_label, grab_mode_label, log_count_line, log_window_stays_open,
    mode_color, status_line, task_badge, Rgb,
};
pub use nav::{status_is_success, status_is_valid, NavAttempt, NavFetch, NavStep, NAV_MAX_ATTEMPTS, NAV_URL};
pub use text::{chars_of, debug_count_string, decimal_string, signed_decimal_string, DIGITS};
