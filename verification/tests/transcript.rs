use handy_net::transcript::{
    append_text, is_cjk, merge_transcript, needs_space, text_seam, tokenize, CURRENT_TOKEN_SEARCH,
    PREVIOUS_TOKEN_SEARCH,
};

#[test]
fn overlap_is_removed_at_a_clean_text_seam() {
    let mut text = "one two three four five".to_string();

    assert!(merge_transcript(&mut text, "four five six seven"));
    assert_eq!(text, "one two three four five six seven");
}

#[test]
fn ambiguous_text_is_appended_instead_of_dropped() {
    let mut text = "one two three nine".to_string();

    assert!(!merge_transcript(&mut text, "two three four"));
    assert_eq!(text, "one two three nine two three four");
}

#[test]
fn repeated_speech_after_the_overlap_is_preserved() {
    let mut text = "start repeat this phrase".to_string();

    assert!(merge_transcript(
        &mut text,
        "repeat this phrase repeat this phrase finish"
    ));
    assert_eq!(text, "start repeat this phrase repeat this phrase finish");
}

#[test]
fn a_fully_consumed_window_is_not_treated_as_overlap() {
    let mut text = "one two three".to_string();

    assert!(!merge_transcript(&mut text, "two three"));
    assert_eq!(text, "one two three two three");
}

#[test]
fn unspaced_cjk_text_is_joined_without_inserting_spaces() {
    let mut text = "\u{4eca}\u{5929}\u{5929}\u{6c14}\u{5f88}\u{597d}".to_string();

    assert!(merge_transcript(
        &mut text,
        "\u{5929}\u{6c14}\u{5f88}\u{597d}\u{6211}\u{4eec}\u{51fa}\u{53d1}"
    ));
    assert_eq!(
        text,
        "\u{4eca}\u{5929}\u{5929}\u{6c14}\u{5f88}\u{597d}\u{6211}\u{4eec}\u{51fa}\u{53d1}"
    );
}

#[test]
fn the_text_so_far_stays_in_front() {
    let windows = ["hello there", "there, general", "", "   ", "kenobi", "b (c"];
    let mut text = String::new();
    for window in windows {
        let before = text.clone();
        merge_transcript(&mut text, window);
        assert!(text.starts_with(&before), "{text}");
    }
    assert_eq!(text, "hello there, general kenobi b (c");
}

#[test]
fn a_blank_window_changes_nothing() {
    let mut text = "some text".to_string();
    assert!(merge_transcript(&mut text, " \n\t "));
    assert_eq!(text, "some text");
}

#[test]
fn the_first_window_is_taken_trimmed() {
    let mut text = String::new();
    assert!(merge_transcript(&mut text, "  first words \n"));
    assert_eq!(text, "first words");
}

#[test]
fn one_shared_word_is_enough_at_the_beginning_only() {
    let mut text = "we went home".to_string();
    assert!(merge_transcript(&mut text, "home again"));
    assert_eq!(text, "we went home again");

    let mut text = "we went home".to_string();
    assert!(!merge_transcript(&mut text, "back home again"));
    assert_eq!(text, "we went home back home again");
}

#[test]
fn one_shared_punctuation_mark_is_no_seam() {
    let mut text = "really ?".to_string();
    assert!(!merge_transcript(&mut text, "? yes"));
    assert_eq!(text, "really ?? yes");
}

#[test]
fn the_longest_seam_wins() {
    let mut text = "a b a b".to_string();
    assert!(merge_transcript(&mut text, "a b a b c"));
    assert_eq!(text, "a b a b c");
}

#[test]
fn a_seam_beyond_the_searched_tokens_is_not_found() {
    let filler: Vec<String> = (0..CURRENT_TOKEN_SEARCH).map(|i| format!("w{i}")).collect();
    let window = format!("{} last words and more", filler.join(" "));
    let mut text = "the last words".to_string();
    assert!(!merge_transcript(&mut text, &window));
    assert_eq!(text, format!("the last words {window}"));
}

#[test]
fn a_repetition_longer_than_the_searched_tokens_is_not_a_seam() {
    let words: Vec<String> = (0..PREVIOUS_TOKEN_SEARCH).map(|i| format!("w{i}")).collect();
    let mut text = words.join(" ");
    let window = format!("{} tail", words.join(" "));
    assert!(!merge_transcript(&mut text, &window));
}

#[test]
fn tokens_are_words_ideographs_and_marks() {
    let tokens = tokenize("don't  stop, 今x天 ü9!");
    let texts: Vec<&str> = tokens.iter().map(|token| token.text).collect();
    assert_eq!(texts, ["don't", "stop", ",", "今", "x", "天", "ü9", "!"]);
    let ends: Vec<usize> = tokens.iter().map(|token| token.end).collect();
    assert_eq!(ends, [5, 11, 12, 16, 17, 20, 24, 25]);
    let content: Vec<bool> = tokens.iter().map(|token| token.is_content).collect();
    assert_eq!(content, [true, true, false, true, true, true, true, false]);
}

#[test]
fn an_apostrophe_alone_begins_no_word() {
    let tokens = tokenize("'tis");
    assert_eq!(tokens.len(), 2);
    assert!(!tokens[0].is_content);
    assert!(tokens[1].is_content);
}

#[test]
fn a_seam_ends_behind_the_repeated_tokens() {
    let previous = tokenize("one two three");
    let current = tokenize("so two three four");
    assert_eq!(text_seam(&previous, &current), Some(12));
    assert_eq!(text_seam(&tokenize(""), &current), None);
    assert_eq!(text_seam(&previous, &tokenize("")), None);
}

#[test]
fn a_seam_is_counted_in_bytes() {
    let previous = tokenize("già più là");
    let current = tokenize("più là sì");
    assert_eq!(text_seam(&previous, &current), Some("più là".len()));
    let mut text = "già più là".to_string();
    assert!(merge_transcript(&mut text, "più là sì"));
    assert_eq!(text, "già più là sì");
}

#[test]
fn the_tokens_are_the_text() {
    for text in ["", " \n", "don't  stop, 今x天 ü9!", "'b\u{3000}😀a"] {
        let joined: String = tokenize(text).iter().map(|token| token.text).collect();
        let expected: String = text.chars().filter(|ch| !ch.is_whitespace()).collect();
        assert_eq!(joined, expected);
        for token in tokenize(text) {
            assert!(text[..token.end].ends_with(token.text));
        }
    }
}

#[test]
fn spaces_are_put_where_they_belong() {
    assert!(needs_space('a', 'b'));
    assert!(!needs_space(' ', 'b'));
    assert!(!needs_space('a', '\u{a0}'));
    assert!(!needs_space('今', 'b'));
    assert!(!needs_space('a', '今'));
    for mark in [',', '.', ';', ':', '!', '?', ')', ']', '}', '%'] {
        assert!(!needs_space('a', mark));
        assert!(needs_space(mark, 'a'));
    }
    for mark in ['(', '[', '{', '/', '#', '@'] {
        assert!(!needs_space(mark, 'a'));
        assert!(needs_space('a', mark));
    }

    let mut text = "see (".to_string();
    append_text(&mut text, "");
    assert_eq!(text, "see (");
    append_text(&mut text, "this");
    append_text(&mut text, ")");
    append_text(&mut text, "now");
    assert_eq!(text, "see (this) now");

    let mut text = String::new();
    append_text(&mut text, "x");
    assert_eq!(text, "x");
}

#[test]
fn the_unspaced_scripts_are_those_blocks() {
    let blocks = [
        (0x2E80, 0x2FFF),
        (0x3040, 0x30FF),
        (0x31F0, 0x31FF),
        (0x3400, 0x4DBF),
        (0x4E00, 0x9FFF),
        (0xAC00, 0xD7AF),
        (0xF900, 0xFAFF),
        (0x20000, 0x2FA1F),
    ];
    for code in 0..=0x10FFFFu32 {
        if let Some(ch) = char::from_u32(code) {
            let expected = blocks
                .iter()
                .any(|&(first, last)| first <= code && code <= last);
            assert_eq!(is_cjk(ch), expected, "{code:x}");
        }
    }
}

#[test]
fn a_space_parts_the_tokens() {
    let tokens_of = |text: &str| -> Vec<(String, usize, bool)> {
        tokenize(text)
            .iter()
            .map(|token| (token.text.to_string(), token.end, token.is_content))
            .collect()
    };
    let texts = ["", " ", "don't stop,", "今天x", "ü9!", "a'", "'b  c"];
    for a in texts {
        for b in texts {
            let mut expected = tokens_of(a);
            for (text, end, is_content) in tokens_of(b) {
                expected.push((text, end + a.len() + 1, is_content));
            }
            assert_eq!(tokens_of(&format!("{a} {b}")), expected);
        }
    }
}

#[test]
fn white_space_is_never_alphanumeric() {
    for code in 0..=0x10FFFFu32 {
        if let Some(ch) = char::from_u32(code) {
            assert!(!(ch.is_whitespace() && ch.is_alphanumeric()), "{code:x}");
        }
    }
}
