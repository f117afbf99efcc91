use bili_account::{extract_csrf, is_white_space_char};

/// A second reading of the csrf token, written with std's string
/// functions, to compare against.
fn reference_csrf(cookie: &str) -> String {
    for part in cookie.split(';') {
        let part = part.trim();
        if part.to_lowercase().starts_with("bili_jct=") {
            if let Some(pos) = part.find('=') {
                let value = &part[pos + 1..];
                let value = value.trim_matches('"').trim_matches('\'');
                return value.to_string();
            }
        }
    }
    String::new()
}

#[test]
fn csrf_from_a_typical_cookie() {
    let cookie = "SESSDATA=abc%2C123; bili_jct=0123456789abcdef; DedeUserID=42";
    assert_eq!(extract_csrf(cookie), "0123456789abcdef");
}

#[test]
fn csrf_missing_gives_empty() {
    assert_eq!(extract_csrf("SESSDATA=abc; DedeUserID=42"), "");
    assert_eq!(extract_csrf(""), "");
    assert_eq!(extract_csrf(";;;"), "");
}

#[test]
fn csrf_key_ignores_case() {
    assert_eq!(extract_csrf("BILI_JCT=tok"), "tok");
    assert_eq!(extract_csrf("a=1; Bili_Jct=tok2"), "tok2");
}

#[test]
fn csrf_quotes_are_removed() {
    assert_eq!(extract_csrf("bili_jct=\"tok\""), "tok");
    assert_eq!(extract_csrf("bili_jct='tok'"), "tok");
    assert_eq!(extract_csrf("bili_jct=\"'tok'\""), "tok");
    assert_eq!(extract_csrf("bili_jct='\"tok\"'"), "\"tok\"");
    assert_eq!(extract_csrf("bili_jct=\"\"\"\""), "");
}

#[test]
fn csrf_first_entry_wins() {
    assert_eq!(extract_csrf("bili_jct=first; bili_jct=second"), "first");
    assert_eq!(extract_csrf("x=1;bili_jct=;bili_jct=second"), "");
}

#[test]
fn csrf_entries_are_trimmed() {
    assert_eq!(extract_csrf("  a=1 ;\t bili_jct=tok \n; b=2"), "tok");
    assert_eq!(extract_csrf("a=1;\u{3000}bili_jct=tok\u{a0}"), "tok");
    assert_eq!(extract_csrf("a=1; bili_jct = tok"), "");
    assert_eq!(extract_csrf("xbili_jct=tok"), "");
    assert_eq!(extract_csrf("bili_jct"), "");
}

#[test]
fn csrf_keeps_inner_text() {
    assert_eq!(extract_csrf("bili_jct=a=b c"), "a=b c");
    assert_eq!(extract_csrf("bili_jct=令牌"), "令牌");
}

#[test]
fn csrf_round_trip() {
    for token in ["abc", "0123456789abcdef", "a b", "x=\"y\"z", "令牌"] {
        let cookie = format!("bili_jct={}", token);
        assert_eq!(extract_csrf(&cookie), token);
    }
}

#[test]
fn csrf_agrees_with_std_string_functions() {
    let alphabet: Vec<char> = vec![
        'b', 'i', 'l', '_', 'j', 'c', 't', '=', 'B', 'I', 'L', 'J', 'C', 'T', ';', ' ', '\t',
        '"', '\'', 'x', '\u{3000}', '\u{a0}', '\u{212a}', '\u{130}', 'é',
    ];
    let mut state: u64 = 0x2545_f491_4f6c_dd1d;
    for _ in 0..20000 {
        let mut cookie = String::new();
        state = state.wrapping_mul(6364136223846793005).wrapping_add(1442695040888963407);
        let len = (state >> 59) as usize + (state >> 62) as usize * 4;
        for _ in 0..len {
            state = state.wrapping_mul(6364136223846793005).wrapping_add(1442695040888963407);
            let pick = (state >> 33) as usize % (alphabet.len() + 4);
            if pick < alphabet.len() {
                cookie.push(alphabet[pick]);
            } else {
                cookie.push_str("bili_jct=");
            }
        }
        assert_eq!(extract_csrf(&cookie), reference_csrf(&cookie), "cookie {:?}", cookie);
    }
}

#[test]
fn white_space_set_is_std_white_space() {
    for code in 0u32..=0x10ffff {
        if let Some(c) = char::from_u32(code) {
            assert_eq!(is_white_space_char(c), c.is_whitespace(), "U+{:04X}", code);
        }
    }
}
