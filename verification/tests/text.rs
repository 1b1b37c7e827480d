use handy_net::clock::{now_ms, reading_millis};
use handy_net::numerals::{decimal, hex};
use handy_net::random::{generate_token, new_session_id};
use handy_net::text::{after_prefix, char_width, chars_of, find, joined, same_text, trim};

#[test]
fn white_space_is_what_unicode_says() {
    let listed = |code: u32| {
        matches!(
            code,
            0x9..=0xd
                | 0x20
                | 0x85
                | 0xa0
                | 0x1680
                | 0x2000..=0x200a
                | 0x2028
                | 0x2029
                | 0x202f
                | 0x205f
                | 0x3000
        )
    };
    for code in 0..=0x10FFFFu32 {
        if let Some(ch) = char::from_u32(code) {
            assert_eq!(ch.is_whitespace(), listed(code), "{code:x}");
            let text = format!("{ch}x{ch}");
            let expected = if listed(code) { "x" } else { text.as_str() };
            assert_eq!(trim(&text), expected, "{code:x}");
        }
    }
}

#[test]
fn text_is_trimmed_at_both_ends() {
    assert_eq!(trim("  a b\t\n"), "a b");
    assert_eq!(trim(" \u{3000} "), "");
    assert_eq!(trim(""), "");
    assert_eq!(trim("übung"), "übung");
}

#[test]
fn prefixes_are_taken_off() {
    assert_eq!(after_prefix("Bearer abc", "Bearer "), Some("abc"));
    assert_eq!(after_prefix("bearer abc", "Bearer "), None);
    assert_eq!(after_prefix("Be", "Bearer "), None);
    assert_eq!(after_prefix("ÄÖ", "Ä"), Some("Ö"));
    assert_eq!(after_prefix("x", ""), Some("x"));
}

#[test]
fn the_first_occurrence_is_found() {
    assert_eq!(find("http://a://b", "://"), Some(4));
    assert_eq!(find("äö://", "://"), Some(2));
    assert_eq!(find("ab", "abc"), None);
    assert_eq!(find("a/b", "://"), None);
    assert_eq!(find("", ""), Some(0));
}

#[test]
fn texts_are_joined_and_compared() {
    assert_eq!(joined("ab", "c"), "abc");
    assert_eq!(chars_of("aß"), ['a', 'ß']);
    assert!(same_text("x", "x"));
    assert!(!same_text("x", "X"));
}

#[test]
fn numbers_are_written_in_decimal() {
    for n in [0, 7, 10, 99, 100, 8756, 65535, u64::MAX] {
        assert_eq!(decimal(n), n.to_string());
    }
}

#[test]
fn bytes_are_written_in_hexadecimal() {
    assert_eq!(hex(&[]), "");
    assert_eq!(hex(&[0x00, 0x0f, 0xa5, 0xff]), "000fa5ff");
}

#[test]
fn different_bytes_look_different() {
    let mut seen: Vec<String> = (0..=255u8).map(|byte| hex(&[byte])).collect();
    seen.sort();
    seen.dedup();
    assert_eq!(seen.len(), 256);
}

#[test]
fn tokens_are_long_and_random() {
    let token = generate_token();
    assert_eq!(token.len(), 64);
    assert!(token.chars().all(|ch| matches!(ch, '0'..='9' | 'a'..='f')));
    assert_ne!(token, "0".repeat(64));
    assert_ne!(token, generate_token());

    let id = new_session_id();
    assert_eq!(id.len(), 32);
    assert!(id.chars().all(|ch| matches!(ch, '0'..='9' | 'a'..='f')));
    assert_ne!(id, new_session_id());
}

#[test]
fn the_clock_counts_milliseconds() {
    assert_eq!(reading_millis(None), 0);
    assert_eq!(reading_millis(Some((12, 345_678_901))), 12_345);
    assert_eq!(reading_millis(Some((0, 999_999))), 0);
    let wrapped = (u64::MAX as u128 * 1000 + 999) % (1u128 << 64);
    assert_eq!(
        reading_millis(Some((u64::MAX, 999_999_999))) as u128,
        wrapped
    );
    let first = now_ms();
    assert!(first > 1_600_000_000_000);
    assert!(now_ms() >= first);
}

#[test]
fn characters_take_their_width_in_bytes() {
    for code in 0..=0x10FFFFu32 {
        if let Some(ch) = char::from_u32(code) {
            assert_eq!(char_width(ch), ch.len_utf8());
        }
    }
}
