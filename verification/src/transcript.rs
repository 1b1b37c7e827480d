//! Joining the transcripts of overlapping audio windows.
//!
//! A recording longer than the model's window is transcribed window by window,
//! and consecutive windows share a second of audio. The words of that second
//! come out twice; [`merge_transcript`] removes the repetition where it can be
//! recognised, and appends everything where it cannot.

use vstd::prelude::*;
use vstd::string::{StrSliceExecFns, StringExecFns};
use vstd::utf8::{encode_scalar, encode_utf8};

use crate::text::{
    alphanumeric, byte_len, char_width, chars_of, law_trim_start_cuts_white_space_only,
    lemma_byte_len_between, lemma_byte_len_grows, lemma_encoding_in_parts, lemma_text_behind,
    same_text, split_text, start_of_text, text_behind, trim, trim_end, trim_start, trimmed,
    white_space,
};

verus! {

/// How many tokens at the end of the text so far are looked at for a seam.
pub const PREVIOUS_TOKEN_SEARCH: usize = 24;

/// How many tokens at the beginning of the next window are looked at for a seam.
pub const CURRENT_TOKEN_SEARCH: usize = 12;

/// Whether a character belongs to a script that is written without spaces.
pub open spec fn cjk(c: char) -> bool {
    let code = c as u32;
    ||| 0x2E80 <= code <= 0x2FFF
    ||| 0x3040 <= code <= 0x30FF
    ||| 0x31F0 <= code <= 0x31FF
    ||| 0x3400 <= code <= 0x4DBF
    ||| 0x4E00 <= code <= 0x9FFF
    ||| 0xAC00 <= code <= 0xD7AF
    ||| 0xF900 <= code <= 0xFAFF
    ||| 0x20000 <= code <= 0x2FA1F
}

/// Decides [`cjk`].
pub fn is_cjk(ch: char) -> (r: bool)
    ensures
        r == cjk(ch),
{
    let code: u32 = ch as u32;
    (0x2E80 <= code && code <= 0x2FFF) || (0x3040 <= code && code <= 0x30FF) || (0x31F0 <= code
        && code <= 0x31FF) || (0x3400 <= code && code <= 0x4DBF) || (0x4E00 <= code && code
        <= 0x9FFF) || (0xAC00 <= code && code <= 0xD7AF) || (0xF900 <= code && code <= 0xFAFF) || (
    0x20000 <= code && code <= 0x2FA1F)
}

/// Whether `c` is punctuation that clings to the word before it.
pub open spec fn closes(c: char) -> bool {
    c == ',' || c == '.' || c == ';' || c == ':' || c == '!' || c == '?' || c == ')' || c == ']'
        || c == '}' || c == '%'
}

/// Whether `c` is punctuation that clings to the word after it.
pub open spec fn opens(c: char) -> bool {
    c == '(' || c == '[' || c == '{' || c == '/' || c == '#' || c == '@'
}

/// Whether a space belongs between `previous` and `next`.
pub open spec fn spaced(previous: char, next: char) -> bool {
    &&& !white_space(previous)
    &&& !white_space(next)
    &&& !cjk(previous)
    &&& !cjk(next)
    &&& !closes(next)
    &&& !opens(previous)
}

/// Decides [`spaced`].
pub fn needs_space(previous: char, next: char) -> (r: bool)
    ensures
        r == spaced(previous, next),
{
    if previous.is_whitespace() || next.is_whitespace() || is_cjk(previous) || is_cjk(next) {
        return false;
    }
    let clings = next == ',' || next == '.' || next == ';' || next == ':' || next == '!' || next
        == '?' || next == ')' || next == ']' || next == '}' || next == '%';
    let holds = previous == '(' || previous == '[' || previous == '{' || previous == '/' || previous
        == '#' || previous == '@';
    !clings && !holds
}

/// `text` put behind `accumulated`, with a space between them where one belongs.
pub open spec fn appended(accumulated: Seq<char>, text: Seq<char>) -> Seq<char> {
    if text.len() == 0 {
        accumulated
    } else if accumulated.len() > 0 && spaced(accumulated.last(), text.first()) {
        accumulated.push(' ') + text
    } else {
        accumulated + text
    }
}

/// Puts `text` behind `accumulated`, with a space between them where one belongs.
pub fn append_text(accumulated: &mut String, text: &str)
    ensures
        final(accumulated)@ == appended(old(accumulated)@, text@),
{
    if text.is_empty() {
        return;
    }
    let length: usize = accumulated.as_str().unicode_len();
    if length > 0 {
        let previous = accumulated.as_str().get_char(length - 1);
        let next = text.get_char(0);
        if needs_space(previous, next) {
            accumulated.append(" ");
            proof {
                reveal_strlit(" ");
            }
            assert(accumulated@ =~= old(accumulated)@.push(' '));
        }
    }
    accumulated.append(text);
}

/// A word, an ideograph or a single punctuation mark.
pub struct Token {
    /// The characters of the token.
    pub text: Seq<char>,
    /// Where the token ends in the text it was cut from, in bytes.
    pub end: int,
    /// Whether the token is a word or an ideograph rather than punctuation.
    pub is_content: bool,
}

/// Whether `c` is part of what is said: a letter, a digit or an ideograph. White
/// space is none of these.
pub open spec fn content(c: char) -> bool {
    alphanumeric(c) && !white_space(c)
}

/// Whether `c` carries on a word.
pub open spec fn in_word(c: char) -> bool {
    !cjk(c) && (content(c) || c == '\'')
}

/// Where the word that has run up to `at` ends.
pub open spec fn word_end(s: Seq<char>, at: int) -> int
    decreases s.len() - at,
{
    if 0 <= at < s.len() && in_word(s[at]) {
        word_end(s, at + 1)
    } else {
        at
    }
}

/// Where the token that starts at `at` ends: at the end of the word, or behind
/// the one character of an ideograph or a punctuation mark.
pub open spec fn token_end(s: Seq<char>, at: int) -> int {
    if content(s[at]) && !cjk(s[at]) {
        word_end(s, at + 1)
    } else {
        at + 1
    }
}

proof fn lemma_word_end(s: Seq<char>, at: int)
    requires
        0 <= at <= s.len(),
    ensures
        at <= word_end(s, at) <= s.len(),
    decreases s.len() - at,
{
    if at < s.len() && in_word(s[at]) {
        lemma_word_end(s, at + 1);
    }
}

/// The token that starts at `at`.
pub open spec fn token_at(s: Seq<char>, at: int) -> Token {
    let end = token_end(s, at);
    Token {
        text: s.subrange(at, end),
        end: byte_len(s.take(end)),
        is_content: content(s[at]),
    }
}

/// The tokens of `s` from position `at` on, in order; white space is left out.
pub open spec fn tokens_from(s: Seq<char>, at: int) -> Seq<Token>
    decreases s.len() - at,
    when 0 <= at
    via tokens_from_decreases
{
    if at >= s.len() {
        seq![]
    } else if white_space(s[at]) {
        tokens_from(s, at + 1)
    } else {
        let end = token_end(s, at);
        seq![token_at(s, at)] + tokens_from(s, end)
    }
}

#[via_fn]
proof fn tokens_from_decreases(s: Seq<char>, at: int) {
    if at < s.len() {
        lemma_word_end(s, at + 1);
    }
}

/// The tokens of `s`, in order.
pub open spec fn tokens(s: Seq<char>) -> Seq<Token> {
    tokens_from(s, 0)
}

/// A word, an ideograph or a single punctuation mark of a text.
#[derive(Debug)]
pub struct TextToken<'a> {
    pub text: &'a str,
    /// Where the token ends in the text it was cut from, in bytes.
    pub end: usize,
    /// Whether the token is a word or an ideograph rather than punctuation.
    pub is_content: bool,
}

impl<'a> View for TextToken<'a> {
    type V = Token;

    open spec fn view(&self) -> Token {
        Token { text: self.text@, end: self.end as int, is_content: self.is_content }
    }
}

/// What a list of tokens stands for.
pub open spec fn token_views(list: Seq<TextToken<'_>>) -> Seq<Token> {
    Seq::new(list.len(), |i: int| list[i]@)
}

/// Cuts a text into its tokens.
pub fn tokenize<'a>(text: &'a str) -> (list: Vec<TextToken<'a>>)
    ensures
        token_views(list@) == tokens(text@),
{
    let chars = chars_of(text);
    let total: usize = text.as_bytes().len();
    let mut list: Vec<TextToken<'a>> = Vec::new();
    let mut at: usize = 0;
    let mut at_byte: usize = 0;
    let mut rest: &'a str = text;
    assert(text@.take(0) =~= Seq::<char>::empty());
    assert(text@.skip(0) =~= text@);
    assert(token_views(list@) + tokens_from(text@, 0) =~= tokens(text@));
    while at < chars.len()
        invariant
            chars@ == text@,
            total == byte_len(text@),
            at <= text@.len(),
            at_byte == byte_len(text@.take(at as int)),
            rest@ == text@.skip(at as int),
            token_views(list@) + tokens_from(text@, at as int) == tokens(text@),
        decreases text@.len() - at,
    {
        let ch = chars[at];
        let start: usize = at;
        let start_byte: usize = at_byte;
        proof {
            lemma_byte_len_grows(text@, start as int);
            lemma_byte_len_between(text@, start as int, start + 1);
        }
        let mut end: usize = start + 1;
        let mut end_byte: usize = start_byte + char_width(ch);
        let blank = ch.is_whitespace();
        let is_content = ch.is_alphanumeric();
        if is_content && !is_cjk(ch) {
            while end < chars.len() && !is_cjk(chars[end]) && (chars[end].is_alphanumeric()
                || chars[end] == '\'')
                invariant
                    chars@ == text@,
                    total == byte_len(text@),
                    start < end <= text@.len(),
                    end_byte == byte_len(text@.take(end as int)),
                    word_end(text@, end as int) == word_end(text@, start + 1),
                decreases text@.len() - end,
            {
                proof {
                    lemma_byte_len_grows(text@, end as int);
                    lemma_byte_len_between(text@, end as int, end + 1);
                }
                end_byte = end_byte + char_width(chars[end]);
                end = end + 1;
            }
        }
        let ghost size = end - start;
        proof {
            lemma_byte_len_between(text@, start as int, end as int);
            assert(rest@.take(size) =~= text@.subrange(start as int, end as int));
            assert(rest@.skip(size) =~= text@.skip(end as int));
        }
        let (token, behind) = split_text(rest, end_byte - start_byte, Ghost(size));
        if !blank {
            assert(end == token_end(text@, start as int));
            let ghost before = list@;
            list.push(TextToken { text: token, end: end_byte, is_content });
            assert(list@.last()@ == token_at(text@, start as int));
            assert(token_views(list@) =~= token_views(before).push(list@.last()@));
            assert(token_views(list@) + tokens_from(text@, end as int) =~= token_views(before)
                + tokens_from(text@, start as int));
        }
        rest = behind;
        at = end;
        at_byte = end_byte;
    }
    assert(token_views(list@) + tokens_from(text@, at as int) =~= token_views(list@));
    list
}

/// Where the search for a seam begins in the text so far.
pub open spec fn search_begin(previous: Seq<Token>) -> int {
    if previous.len() > PREVIOUS_TOKEN_SEARCH {
        previous.len() - PREVIOUS_TOKEN_SEARCH
    } else {
        0
    }
}

/// Where the search for a seam ends in the next window.
pub open spec fn search_end(current: Seq<Token>) -> int {
    if current.len() < CURRENT_TOKEN_SEARCH {
        current.len() as int
    } else {
        CURRENT_TOKEN_SEARCH as int
    }
}

/// Whether the tokens of `previous` from `p` to its end are repeated in
/// `current` at `c`, and the repetition is evidence of overlapping audio.
///
/// The repetition lies within the searched part of either side, something
/// follows it in `current`, and it is two tokens long or one content token at
/// the very beginning.
pub open spec fn seam_at(previous: Seq<Token>, current: Seq<Token>, p: int, c: int) -> bool {
    let length = previous.len() - p;
    &&& search_begin(previous) <= p < previous.len()
    &&& 0 <= c
    &&& c + length <= search_end(current)
    &&& c + length < current.len()
    &&& forall|k: int|
        0 <= k < length ==> (#[trigger] previous[p + k]).text == current[c + k].text
    &&& length >= 2 || (c == 0 && current[c].is_content)
}

/// Whether the seam at (`p`, `c`) is the longest one, and among the longest the
/// one that comes first in `current`.
pub open spec fn best_seam(previous: Seq<Token>, current: Seq<Token>, p: int, c: int) -> bool {
    &&& seam_at(previous, current, p, c)
    &&& forall|p2: int, c2: int| #[trigger]
        seam_at(previous, current, p2, c2) ==> p < p2 || (p == p2 && c <= c2)
}

/// Where the repeated tokens end in the text of `current`, in bytes, if there is a
/// seam.
pub open spec fn seam(previous: Seq<Token>, current: Seq<Token>) -> Option<int> {
    if exists|p: int, c: int| best_seam(previous, current, p, c) {
        let (p, c) = choose|p: int, c: int| best_seam(previous, current, p, c);
        Some(current[c + previous.len() - p - 1].end)
    } else {
        None
    }
}

proof fn lemma_seam_is_best(previous: Seq<Token>, current: Seq<Token>, p: int, c: int)
    requires
        best_seam(previous, current, p, c),
    ensures
        seam(previous, current) == Some(current[c + previous.len() - p - 1].end),
{
    let (p2, c2) = choose|p2: int, c2: int| best_seam(previous, current, p2, c2);
    assert(best_seam(previous, current, p2, c2));
    assert(seam_at(previous, current, p2, c2));
    assert(seam_at(previous, current, p, c));
    assert(p == p2 && c == c2);
}

/// How many tokens of `previous` from `p` on are the same as those of `current`
/// from `c` on, counting no further than `limit` in `current`.
fn shared_run(
    previous: &[TextToken<'_>],
    current: &[TextToken<'_>],
    p: usize,
    c: usize,
    limit: usize,
) -> (length: usize)
    requires
        p < previous@.len(),
        c < limit <= current@.len(),
    ensures
        p + length <= previous@.len(),
        c + length <= limit,
        forall|k: int|
            0 <= k < length ==> (#[trigger] previous@[p + k]).text@ == current@[c + k].text@,
        p + length < previous@.len() && c + length < limit ==> previous@[p + length].text@
            != current@[c + length].text@,
{
    let mut length: usize = 0;
    while length < previous.len() - p && length < limit - c && same_text(
        previous[p + length].text,
        current[c + length].text,
    )
        invariant
            p < previous@.len(),
            c < limit <= current@.len(),
            p + length <= previous@.len(),
            c + length <= limit,
            forall|k: int|
                0 <= k < length ==> (#[trigger] previous@[p + k]).text@ == current@[c + k].text@,
        decreases previous@.len() - length,
    {
        length = length + 1;
    }
    length
}

/// Finds where the tokens that repeat the end of `previous` end in the text of
/// `current`, in bytes.
pub fn text_seam(previous: &[TextToken<'_>], current: &[TextToken<'_>]) -> (r: Option<usize>)
    ensures
        match r {
            Some(end) => seam(token_views(previous@), token_views(current@)) == Some(end as int),
            None => seam(token_views(previous@), token_views(current@)) is None,
        },
{
    let ghost before = token_views(previous@);
    let ghost after = token_views(current@);
    if previous.len() == 0 || current.len() == 0 {
        return None;
    }
    let begin: usize = previous.len().saturating_sub(PREVIOUS_TOKEN_SEARCH);
    let limit: usize = if current.len() < CURRENT_TOKEN_SEARCH {
        current.len()
    } else {
        CURRENT_TOKEN_SEARCH
    };
    let mut best: Option<(usize, usize)> = None;
    let ghost mut best_p: int = 0;
    let ghost mut best_c: int = 0;
    let mut p: usize = begin;
    while p < previous.len()
        invariant
            before == token_views(previous@),
            after == token_views(current@),
            previous@.len() > 0,
            limit == search_end(after),
            0 < limit <= current@.len(),
            begin == search_begin(before),
            begin <= p <= previous@.len(),
            forall|p2: int, c2: int|
                p2 < p && #[trigger] seam_at(before, after, p2, c2) ==> best is Some && (best_p < p2
                    || (best_p == p2 && best_c <= c2)),
            best matches Some(found) ==> {
                &&& seam_at(before, after, best_p, best_c)
                &&& best_p < p
                &&& found.0 == previous@.len() - best_p
                &&& found.1 == after[best_c + found.0 - 1].end
            },
        decreases previous@.len() - p,
    {
        let mut c: usize = 0;
        while c < limit
            invariant
                before == token_views(previous@),
                after == token_views(current@),
                limit == search_end(after),
                0 < limit <= current@.len(),
                begin == search_begin(before),
                begin <= p < previous@.len(),
                c <= limit,
                forall|p2: int, c2: int|
                    (p2 < p || (p2 == p && c2 < c)) && #[trigger] seam_at(before, after, p2, c2)
                        ==> best is Some && (best_p < p2 || (best_p == p2 && best_c <= c2)),
                best matches Some(found) ==> {
                    &&& seam_at(before, after, best_p, best_c)
                    &&& best_p < p || (best_p == p && best_c < c)
                    &&& found.0 == previous@.len() - best_p
                    &&& found.1 == after[best_c + found.0 - 1].end
                },
            decreases limit - c,
        {
            let length: usize = shared_run(previous, current, p, c, limit);
            let reaches_end = length == previous.len() - p;
            let strong_enough = length >= 2 || (length == 1 && c == 0 && current[c].is_content);
            let consumed = c + length == current.len();
            let is_seam = reaches_end && strong_enough && !consumed;
            assert(is_seam == seam_at(before, after, p as int, c as int)) by {
                if seam_at(before, after, p as int, c as int) && !reaches_end {
                    let k = length as int;
                    assert(before[p + k].text == after[c + k].text);
                }
                if is_seam {
                    assert forall|k: int| 0 <= k < before.len() - p implies (
                    #[trigger] before[p + k]).text == after[c + k].text by {
                        assert(previous@[p + k].text@ == current@[c + k].text@);
                    }
                }
            }
            if is_seam {
                let longer = match best {
                    None => true,
                    Some(found) => length > found.0,
                };
                if longer {
                    best = Some((length, current[c + length - 1].end));
                    proof {
                        best_p = p as int;
                        best_c = c as int;
                    }
                }
            }
            c = c + 1;
        }
        assert forall|p2: int, c2: int|
            p2 < p + 1 && #[trigger] seam_at(before, after, p2, c2) implies best is Some && (best_p
            < p2 || (best_p == p2 && best_c <= c2)) by {
            assert(p2 < p || (p2 == p && c2 < c));
        }
        p = p + 1;
    }
    match best {
        Some(found) => {
            assert(best_seam(before, after, best_p, best_c));
            proof {
                lemma_seam_is_best(before, after, best_p, best_c);
            }
            Some(found.1)
        },
        None => None,
    }
}

/// What of a window's transcript goes behind the text so far.
pub open spec fn remainder(accumulated: Seq<char>, current: Seq<char>) -> Seq<char> {
    match seam(tokens(accumulated), tokens(current)) {
        Some(end) => trim_start(text_behind(current, end)),
        None => current,
    }
}

/// The text so far joined with the transcript of the next window.
pub open spec fn merged(accumulated: Seq<char>, window: Seq<char>) -> Seq<char> {
    let current = trimmed(window);
    if accumulated.len() == 0 {
        current
    } else {
        appended(accumulated, remainder(accumulated, current))
    }
}

/// Whether the join of the text so far and the next window is beyond doubt:
/// there was nothing to join, or a seam was found.
pub open spec fn joins(accumulated: Seq<char>, window: Seq<char>) -> bool {
    let current = trimmed(window);
    ||| current.len() == 0
    ||| accumulated.len() == 0
    ||| seam(tokens(accumulated), tokens(current)) is Some
}

/// Appends a window's transcript and removes the words that were emitted a
/// second time for the audio shared with the window before.
///
/// Returns whether the join is beyond doubt. If it is not, the whole transcript
/// of the window has been appended, and a few words may stand twice.
pub fn merge_transcript(accumulated: &mut String, current: &str) -> (matched: bool)
    ensures
        final(accumulated)@ == merged(old(accumulated)@, current@),
        matched == joins(old(accumulated)@, current@),
{
    let current = trim(current);
    if current.is_empty() {
        proof {
            lemma_empty_remainder(old(accumulated)@, current@);
        }
        return true;
    }
    if accumulated.as_str().is_empty() {
        accumulated.append(current);
        return true;
    }
    let previous_tokens = tokenize(accumulated.as_str());
    let current_tokens = tokenize(current);
    match text_seam(previous_tokens.as_slice(), current_tokens.as_slice()) {
        Some(offset) => {
            let ghost chars = lemma_seam_within(tokens(accumulated@), current@);
            proof {
                lemma_text_behind(current@, chars);
            }
            let (_, rest) = split_text(current, offset, Ghost(chars));
            let rest_chars = chars_of(rest);
            let skipped: usize = start_of_text(rest_chars.as_slice());
            let tail = rest.substring_char(skipped, rest_chars.len());
            assert(tail@ =~= rest@.skip(skipped as int));
            append_text(accumulated, tail);
            true
        },
        None => {
            append_text(accumulated, current);
            false
        },
    }
}

proof fn lemma_empty_remainder(accumulated: Seq<char>, current: Seq<char>)
    requires
        current.len() == 0,
    ensures
        remainder(accumulated, current).len() == 0,
{
    let previous = tokens(accumulated);
    assert(tokens(current).len() == 0);
    assert forall|p: int, c: int| !best_seam(previous, tokens(current), p, c) by {
        if best_seam(previous, tokens(current), p, c) {
            assert(seam_at(previous, tokens(current), p, c));
        }
    }
}

/// Every token ends between two characters of the text it was cut from, and behind it
/// come the tokens that follow it in the list.
proof fn lemma_token_stop(s: Seq<char>, at: int, i: int) -> (stop: int)
    requires
        0 <= at <= s.len(),
        0 <= i < tokens_from(s, at).len(),
    ensures
        at < stop <= s.len(),
        tokens_from(s, at)[i].end == byte_len(s.take(stop)),
        tokens_from(s, stop) == tokens_from(s, at).skip(i + 1),
    decreases s.len() - at,
{
    lemma_word_end(s, at + 1);
    if white_space(s[at]) {
        lemma_token_stop(s, at + 1, i)
    } else {
        let end = token_end(s, at);
        if i > 0 {
            let stop = lemma_token_stop(s, end, i - 1);
            assert(tokens_from(s, at).skip(i + 1) =~= tokens_from(s, end).skip(i));
            stop
        } else {
            assert(tokens_from(s, at).skip(1) =~= tokens_from(s, end));
            end
        }
    }
}

proof fn lemma_seam_within(previous: Seq<Token>, current: Seq<char>) -> (stop: int)
    requires
        seam(previous, tokens(current)) is Some,
    ensures
        0 < stop <= current.len(),
        seam(previous, tokens(current)) == Some(byte_len(current.take(stop))),
{
    let (p, c) = choose|p: int, c: int| best_seam(previous, tokens(current), p, c);
    assert(seam_at(previous, tokens(current), p, c));
    lemma_token_stop(current, 0, c + previous.len() - p - 1)
}

/// The texts of a list of tokens.
pub open spec fn token_texts(list: Seq<Token>) -> Seq<Seq<char>> {
    Seq::new(list.len(), |i: int| list[i].text)
}

proof fn lemma_word_end_shift(s: Seq<char>, k: int, at: int)
    requires
        0 <= k <= at <= s.len(),
    ensures
        word_end(s.skip(k), at - k) == word_end(s, at) - k,
    decreases s.len() - at,
{
    if at < s.len() {
        assert(s.skip(k)[at - k] == s[at]);
        if in_word(s[at]) {
            lemma_word_end_shift(s, k, at + 1);
        }
    }
}

/// Tokens as they are in a text with `k` more bytes in front.
pub open spec fn shifted(list: Seq<Token>, k: int) -> Seq<Token> {
    Seq::new(list.len(), |i: int| Token { end: list[i].end + k, ..list[i] })
}

/// Dropping the first `k` characters leaves the tokens behind them as they were, but
/// for where they end.
proof fn lemma_tokens_shift(s: Seq<char>, k: int, at: int)
    requires
        0 <= k <= at <= s.len(),
    ensures
        tokens_from(s, at) == shifted(tokens_from(s.skip(k), at - k), byte_len(s.take(k))),
        token_texts(tokens_from(s.skip(k), at - k)) == token_texts(tokens_from(s, at)),
    decreases s.len() - at,
{
    let rest = s.skip(k);
    if at < s.len() {
        assert(rest[at - k] == s[at]);
        if white_space(s[at]) {
            lemma_tokens_shift(s, k, at + 1);
        } else {
            lemma_word_end(s, at + 1);
            lemma_word_end_shift(s, k, at + 1);
            let end = token_end(s, at);
            lemma_tokens_shift(s, k, end);
            assert(rest.subrange(at - k, end - k) =~= s.subrange(at, end));
            lemma_byte_len_between(s, k, end);
            assert(rest.take(end - k) =~= s.subrange(k, end));
            assert(tokens_from(s, at) =~= shifted(
                tokens_from(rest, at - k),
                byte_len(s.take(k)),
            ));
        }
    } else {
        assert(tokens_from(s, at) =~= shifted(tokens_from(rest, at - k), byte_len(s.take(k))));
    }
    assert(token_texts(tokens_from(rest, at - k)) =~= token_texts(tokens_from(s, at)));
}

proof fn lemma_trim_start_keeps_tokens(s: Seq<char>)
    ensures
        token_texts(tokens(trim_start(s))) == token_texts(tokens(s)),
    decreases s.len(),
{
    if s.len() > 0 && white_space(s.first()) {
        lemma_trim_start_keeps_tokens(s.drop_first());
        assert(s.drop_first() =~= s.skip(1));
        lemma_tokens_shift(s, 1, 1);
    }
}

proof fn lemma_word_end_before_space(s: Seq<char>, a: Seq<char>, at: int)
    requires
        0 <= at <= a.len() < s.len(),
        s.take(a.len() as int) == a,
        !in_word(s[a.len() as int]),
    ensures
        word_end(s, at) == word_end(a, at),
    decreases a.len() - at,
{
    if at < a.len() {
        assert(s.take(a.len() as int)[at] == s[at]);
        if in_word(s[at]) {
            lemma_word_end_before_space(s, a, at + 1);
        }
    }
}

proof fn lemma_tokens_before_space(s: Seq<char>, a: Seq<char>, at: int)
    requires
        0 <= at <= a.len() < s.len(),
        s.take(a.len() as int) == a,
        white_space(s[a.len() as int]),
    ensures
        tokens_from(s, at) == tokens_from(a, at) + tokens_from(s, a.len() as int + 1),
    decreases a.len() - at,
{
    let behind = tokens_from(s, a.len() as int + 1);
    if at == a.len() {
        assert(tokens_from(a, at) + behind =~= behind);
    } else {
        assert(s.take(a.len() as int)[at] == s[at]);
        if white_space(s[at]) {
            lemma_tokens_before_space(s, a, at + 1);
        } else {
            lemma_word_end(a, at + 1);
            lemma_word_end_before_space(s, a, at + 1);
            let end = token_end(a, at);
            lemma_tokens_before_space(s, a, end);
            assert(s.subrange(at, end) =~= a.subrange(at, end));
            assert(s.take(end) =~= a.take(end));
            let first = seq![token_at(a, at)];
            assert(first + (tokens_from(a, end) + behind) =~= (first + tokens_from(a, end))
                + behind);
        }
    }
}

/// A space parts the tokens: those of two texts with a space between them are those
/// of the first, and then those of the second, which end so many bytes later.
pub proof fn law_a_space_parts_the_tokens(a: Seq<char>, b: Seq<char>)
    ensures
        tokens(a + seq![' '] + b) == tokens(a) + shifted(tokens(b), byte_len(a) + 1),
{
    let space = seq![' '];
    let s = a + space + b;
    let behind = a.len() as int + 1;
    assert(s.take(a.len() as int) =~= a);
    assert(s.take(behind) =~= a + space);
    assert(s.skip(behind) =~= b);
    lemma_tokens_before_space(s, a, 0);
    lemma_tokens_shift(s, behind, behind);
    lemma_encoding_in_parts(a, space);
    reveal_with_fuel(encode_utf8, 2);
    assert(space.drop_first() =~= Seq::<char>::empty());
    assert(encode_utf8(space) =~= encode_scalar(' ' as u32));
}

/// A text without its white space.
pub open spec fn without_white_space(s: Seq<char>) -> Seq<char>
    decreases s.len(),
{
    if s.len() == 0 {
        seq![]
    } else if white_space(s[0]) {
        without_white_space(s.drop_first())
    } else {
        seq![s[0]] + without_white_space(s.drop_first())
    }
}

proof fn lemma_run_without_white_space(s: Seq<char>, from: int, to: int)
    requires
        0 <= from <= to <= s.len(),
        forall|i: int| from <= i < to ==> !white_space(#[trigger] s[i]),
    ensures
        without_white_space(s.skip(from)) == s.subrange(from, to) + without_white_space(
            s.skip(to),
        ),
    decreases to - from,
{
    if from < to {
        lemma_run_without_white_space(s, from + 1, to);
        assert(s.skip(from).drop_first() =~= s.skip(from + 1));
        assert(s.subrange(from, to) =~= seq![s[from]] + s.subrange(from + 1, to));
        let rest = without_white_space(s.skip(to));
        assert(seq![s[from]] + (s.subrange(from + 1, to) + rest) =~= s.subrange(from, to) + rest);
    } else {
        assert(s.subrange(from, to) + without_white_space(s.skip(to)) =~= without_white_space(
            s.skip(from),
        ));
    }
}

proof fn lemma_word_has_no_white_space(s: Seq<char>, at: int)
    requires
        0 <= at <= s.len(),
    ensures
        forall|i: int| at <= i < word_end(s, at) ==> !white_space(#[trigger] s[i]),
    decreases s.len() - at,
{
    if at < s.len() && in_word(s[at]) {
        lemma_word_has_no_white_space(s, at + 1);
    }
}

proof fn lemma_tokens_from_are_the_text(s: Seq<char>, at: int)
    requires
        0 <= at <= s.len(),
    ensures
        token_texts(tokens_from(s, at)).flatten() == without_white_space(s.skip(at)),
    decreases s.len() - at,
{
    if at == s.len() {
        assert(s.skip(at) =~= Seq::<char>::empty());
        assert(token_texts(tokens_from(s, at)).flatten() =~= Seq::<char>::empty());
    } else if white_space(s[at]) {
        lemma_tokens_from_are_the_text(s, at + 1);
        assert(s.skip(at).drop_first() =~= s.skip(at + 1));
    } else {
        lemma_word_end(s, at + 1);
        lemma_word_has_no_white_space(s, at + 1);
        let end = token_end(s, at);
        lemma_tokens_from_are_the_text(s, end);
        lemma_run_without_white_space(s, at, end);
        let texts = token_texts(tokens_from(s, at));
        assert(texts.drop_first() =~= token_texts(tokens_from(s, end)));
        assert(texts.first() == s.subrange(at, end));
    }
}

/// The tokens are the text: put together, they give it back without its white space.
pub proof fn law_tokens_are_the_text(s: Seq<char>)
    ensures
        token_texts(tokens(s)).flatten() == without_white_space(s),
{
    lemma_tokens_from_are_the_text(s, 0);
    assert(s.skip(0) =~= s);
}

/// Merging never changes what has been accumulated: the text so far stays as
/// the beginning of the merged text.
pub proof fn law_merge_keeps_the_text_so_far(accumulated: Seq<char>, window: Seq<char>)
    ensures
        accumulated.len() <= merged(accumulated, window).len(),
        merged(accumulated, window).take(accumulated.len() as int) == accumulated,
{
    assert(merged(accumulated, window).take(accumulated.len() as int) =~= accumulated);
}

/// A doubtful join loses nothing: the whole transcript of the window stands at
/// the end of the merged text.
pub proof fn law_doubtful_join_is_lossless(accumulated: Seq<char>, window: Seq<char>)
    requires
        !joins(accumulated, window),
    ensures
        merged(accumulated, window) == appended(accumulated, trimmed(window)),
        merged(accumulated, window).len() >= accumulated.len() + trimmed(window).len(),
        merged(accumulated, window).skip(
            merged(accumulated, window).len() - trimmed(window).len(),
        ) == trimmed(window),
{
    let current = trimmed(window);
    let all = merged(accumulated, window);
    assert(all.skip(all.len() - current.len()) =~= current);
}

/// A join at a seam removes a repetition and nothing behind it: the last tokens
/// removed are the last tokens of the text so far, and the tokens that are
/// appended are all those that follow in the window, of which there is at least
/// one.
pub proof fn law_seam_removes_a_repetition(accumulated: Seq<char>, window: Seq<char>) -> (at: (
    int,
    int,
))
    requires
        accumulated.len() > 0,
        seam(tokens(accumulated), tokens(trimmed(window))) is Some,
    ensures
        ({
            let previous = token_texts(tokens(accumulated));
            let current = token_texts(tokens(trimmed(window)));
            let kept = token_texts(tokens(remainder(accumulated, trimmed(window))));
            let (p, c) = at;
            let behind = c + previous.len() - p;
            &&& best_seam(tokens(accumulated), tokens(trimmed(window)), p, c)
            &&& 0 <= p < previous.len()
            &&& 0 <= c <= behind < current.len()
            &&& current.subrange(c, behind) == previous.skip(p)
            &&& kept == current.skip(behind)
            &&& kept.len() > 0
        }),
{
    let before = tokens(accumulated);
    let text = trimmed(window);
    let after = tokens(text);
    let (p, c) = choose|p: int, c: int| best_seam(before, after, p, c);
    assert(seam_at(before, after, p, c));
    let behind = c + before.len() - p;
    let end = lemma_token_stop(text, 0, behind - 1);
    assert forall|k: int| 0 <= k < before.len() - p implies token_texts(after).subrange(
        c,
        behind,
    )[k] == token_texts(before).skip(p)[k] by {
        assert(before[p + k].text == after[c + k].text);
    }
    assert(token_texts(after).subrange(c, behind) =~= token_texts(before).skip(p));
    lemma_text_behind(text, end);
    lemma_tokens_shift(text, end, end);
    lemma_trim_start_keeps_tokens(text.skip(end));
    assert(token_texts(after.skip(behind)) =~= token_texts(after).skip(behind));
    (p, c)
}

proof fn lemma_word_shape(s: Seq<char>, at: int)
    requires
        0 <= at <= s.len(),
    ensures
        forall|k: int| at <= k < word_end(s, at) ==> in_word(#[trigger] s[k]),
        word_end(s, at) < s.len() ==> !in_word(s[word_end(s, at)]),
    decreases s.len() - at,
{
    if at < s.len() && in_word(s[at]) {
        lemma_word_shape(s, at + 1);
    }
}

proof fn lemma_token_shape(s: Seq<char>, at: int, i: int) -> (bounds: (int, int))
    requires
        0 <= at <= s.len(),
        0 <= i < tokens_from(s, at).len(),
    ensures
        at <= bounds.0 < bounds.1 <= s.len(),
        tokens_from(s, at)[i] == token_at(s, bounds.0),
        bounds.1 == token_end(s, bounds.0),
        !white_space(s[bounds.0]),
        tokens_from(s, bounds.1) == tokens_from(s, at).skip(i + 1),
    decreases s.len() - at,
{
    lemma_word_end(s, at + 1);
    if white_space(s[at]) {
        lemma_token_shape(s, at + 1, i)
    } else {
        let end = token_end(s, at);
        if i > 0 {
            let bounds = lemma_token_shape(s, end, i - 1);
            assert(tokens_from(s, at).skip(i + 1) =~= tokens_from(s, end).skip(i));
            bounds
        } else {
            assert(tokens_from(s, at).skip(1) =~= tokens_from(s, end));
            (at, end)
        }
    }
}

/// A token is a word as long as it can be, or a single character. A word begins with a
/// letter or a digit, and goes on with these and with apostrophes; an ideograph or a
/// punctuation mark stands alone. The token knows where it ends, in bytes, and whether
/// it begins with a letter, a digit or an ideograph; behind it come the tokens that
/// follow it in the list.
pub proof fn law_tokens_are_cut_at_words(s: Seq<char>, i: int) -> (bounds: (int, int))
    requires
        0 <= i < tokens(s).len(),
    ensures
        ({
            let (start, stop) = bounds;
            let token = tokens(s)[i];
            let is_word = alphanumeric(s[start]) && !cjk(s[start]);
            &&& 0 <= start < stop <= s.len()
            &&& !white_space(s[start])
            &&& token.text == s.subrange(start, stop)
            &&& token.end == encode_utf8(s.take(stop)).len()
            &&& token.is_content == alphanumeric(s[start])
            &&& !is_word ==> stop == start + 1
            &&& forall|k: int|
                start < k < stop ==> !cjk(#[trigger] s[k]) && !white_space(s[k]) && (alphanumeric(
                    s[k],
                ) || s[k] == '\'')
            &&& is_word && stop < s.len() ==> cjk(s[stop]) || white_space(s[stop]) || (
            !alphanumeric(s[stop]) && s[stop] != '\'')
            &&& token_texts(tokens(s.skip(stop))) == token_texts(tokens(s)).skip(i + 1)
        }),
{
    let (start, stop) = lemma_token_shape(s, 0, i);
    lemma_word_end(s, start + 1);
    lemma_word_shape(s, start + 1);
    lemma_tokens_shift(s, stop, stop);
    assert(token_texts(tokens(s).skip(i + 1)) =~= token_texts(tokens(s)).skip(i + 1));
    assert('\'' as u32 == 0x27);
    (start, stop)
}

/// The tokens of a text end one after the other.
pub proof fn law_tokens_come_in_order(s: Seq<char>, i: int)
    requires
        0 <= i < tokens(s).len() - 1,
    ensures
        tokens(s)[i].end < tokens(s)[i + 1].end <= encode_utf8(s).len(),
{
    let stop = lemma_token_stop(s, 0, i);
    assert(tokens_from(s, stop)[0] == tokens(s)[i + 1]);
    let next = lemma_token_stop(s, stop, 0);
    lemma_byte_len_between(s, stop, next);
    lemma_byte_len_grows(s, stop);
    lemma_byte_len_between(s, stop + 1, next);
    vstd::utf8::char_is_scalar(s[stop]);
}

proof fn lemma_trim_end_keeps_tokens(s: Seq<char>)
    ensures
        token_texts(tokens(trim_end(s))) == token_texts(tokens(s)),
    decreases s.len(),
{
    if s.len() > 0 && white_space(s.last()) {
        let shorter = s.drop_last();
        lemma_trim_end_keeps_tokens(shorter);
        assert(s.take(shorter.len() as int) =~= shorter);
        lemma_tokens_before_space(s, shorter, 0);
        assert(tokens_from(shorter, 0) + tokens_from(s, s.len() as int) =~= tokens(shorter));
    }
}

/// Trimming a text leaves its tokens as they were.
pub proof fn law_trimming_keeps_the_tokens(s: Seq<char>)
    ensures
        token_texts(tokens(trimmed(s))) == token_texts(tokens(s)),
{
    lemma_trim_start_keeps_tokens(s);
    lemma_trim_end_keeps_tokens(trim_start(s));
}

/// Between two pieces of text a space is put exactly if neither side has white space
/// there, neither belongs to a script without spaces, the second does not begin with
/// punctuation that clings to what is before it, and the first does not end in
/// punctuation that clings to what is behind it.
pub proof fn law_space_is_put_between_words(accumulated: Seq<char>, text: Seq<char>)
    ensures
        text.len() == 0 ==> appended(accumulated, text) == accumulated,
        accumulated.len() == 0 ==> appended(accumulated, text) == text,
        accumulated.len() > 0 && text.len() > 0 ==> ({
            let left = accumulated.last();
            let right = text[0];
            appended(accumulated, text) == accumulated + (if white_space(left) || white_space(right)
                || cjk(left) || cjk(right) || right == ',' || right == '.' || right == ';' || right
                == ':' || right == '!' || right == '?' || right == ')' || right == ']' || right
                == '}' || right == '%' || left == '(' || left == '[' || left == '{' || left == '/'
                || left == '#' || left == '@' {
                Seq::<char>::empty()
            } else {
                seq![' ']
            }) + text
        }),
{
    assert(accumulated + text =~= accumulated + Seq::<char>::empty() + text);
    assert(accumulated.push(' ') + text =~= accumulated + seq![' '] + text);
    assert(accumulated.len() == 0 ==> accumulated + text =~= text);
}

/// The first window is taken as it is, but for the white space around it, and a blank
/// window changes nothing. Neither join is in doubt.
pub proof fn law_nothing_to_join(accumulated: Seq<char>, window: Seq<char>)
    ensures
        accumulated.len() == 0 ==> merged(accumulated, window) == trimmed(window) && joins(
            accumulated,
            window,
        ),
        trimmed(window).len() == 0 ==> merged(accumulated, window) == accumulated && joins(
            accumulated,
            window,
        ),
{
    if trimmed(window).len() == 0 {
        lemma_empty_remainder(accumulated, trimmed(window));
        assert(accumulated.len() == 0 ==> trimmed(window) =~= accumulated);
    }
}

proof fn lemma_kind_is_in_the_text(s: Seq<char>, i: int)
    requires
        0 <= i < tokens(s).len(),
    ensures
        tokens(s)[i].text.len() > 0,
        tokens(s)[i].is_content == content(tokens(s)[i].text[0]),
{
    let (start, stop) = lemma_token_shape(s, 0, i);
    lemma_word_end(s, start + 1);
}

proof fn lemma_some_seam_is_best(previous: Seq<Token>, current: Seq<Token>, p: int, c: int)
    requires
        seam_at(previous, current, p, c),
    ensures
        exists|p2: int, c2: int| best_seam(previous, current, p2, c2),
    decreases p, c,
{
    if !best_seam(previous, current, p, c) {
        let (p3, c3) = choose|p3: int, c3: int| #[trigger]
            seam_at(previous, current, p3, c3) && !(p < p3 || (p == p3 && c <= c3));
        lemma_some_seam_is_best(previous, current, p3, c3);
    }
}

/// Where the window is cut in a merge, and the seam at which it is.
proof fn lemma_merge_cut(accumulated: Seq<char>, window: Seq<char>) -> (found: (int, int, int))
    requires
        accumulated.len() > 0,
        trimmed(window).len() > 0,
    ensures
        ({
            let (cut, p, c) = found;
            let current = trimmed(window);
            let tail = current.skip(cut);
            let before = token_texts(tokens(accumulated));
            let after = token_texts(tokens(current));
            let behind = c + before.len() - p;
            &&& 0 <= cut <= current.len()
            &&& merged(accumulated, window) == appended(accumulated, tail)
            &&& !joins(accumulated, window) ==> cut == 0
            &&& joins(accumulated, window) ==> {
                &&& best_seam(tokens(accumulated), tokens(current), p, c)
                &&& after.subrange(c, behind) == before.skip(p)
                &&& token_texts(tokens(tail)) == after.skip(behind)
                &&& tail.len() > 0 && !white_space(tail[0])
            }
        }),
{
    let current = trimmed(window);
    let before = tokens(accumulated);
    let after = tokens(current);
    if joins(accumulated, window) {
        let (p, c) = law_seam_removes_a_repetition(accumulated, window);
        assert(seam_at(before, after, p, c));
        let stop = lemma_seam_within(before, current);
        lemma_text_behind(current, stop);
        let rest = current.skip(stop);
        let more = law_trim_start_cuts_white_space_only(rest);
        let cut = stop + more;
        assert(rest.skip(more) =~= current.skip(cut));
        let tail = current.skip(cut);
        assert(remainder(accumulated, current) == tail);
        if tail.len() == 0 {
            assert(tokens(tail).len() == 0);
        } else {
            assert(rest[more] == tail[0]);
        }
        (cut, p, c)
    } else {
        assert(current.skip(0) =~= current);
        (0, 0, 0)
    }
}

/// What is appended is the end of the window: all of it if the join is in doubt;
/// otherwise what follows a repetition of the last tokens of the text so far. The
/// repetition is of two tokens or more, or of one word with which the window begins. It
/// lies within the last twenty-four tokens of the text and the first twelve of the
/// window, and something follows it.
pub proof fn law_merge_appends_what_follows_a_repetition(
    accumulated: Seq<char>,
    window: Seq<char>,
) -> (found: (int, int, int))
    requires
        accumulated.len() > 0,
        trimmed(window).len() > 0,
    ensures
        ({
            let (cut, p, c) = found;
            let current = trimmed(window);
            let tail = current.skip(cut);
            let before = token_texts(tokens(accumulated));
            let after = token_texts(tokens(current));
            let behind = c + before.len() - p;
            &&& 0 <= cut <= current.len()
            &&& merged(accumulated, window) == appended(accumulated, tail)
            &&& !joins(accumulated, window) ==> cut == 0
            &&& joins(accumulated, window) ==> {
                &&& 0 <= p < before.len() <= p + 24
                &&& 0 <= c <= behind <= 12
                &&& behind < after.len()
                &&& after.subrange(c, behind) == before.skip(p)
                &&& before.len() - p >= 2 || (c == 0 && tokens(current)[0].is_content)
                &&& token_texts(tokens(tail)) == after.skip(behind)
                &&& tail.len() > 0 && !white_space(tail[0])
            }
        }),
{
    let (cut, p, c) = lemma_merge_cut(accumulated, window);
    if joins(accumulated, window) {
        assert(seam_at(tokens(accumulated), tokens(trimmed(window)), p, c));
    }
    (cut, p, c)
}

/// Every such repetition is recognised. If there are several, the longest counts, and
/// of the longest the first: what is appended is what follows it.
pub proof fn law_every_repetition_is_recognised(
    accumulated: Seq<char>,
    window: Seq<char>,
    p: int,
    c: int,
) -> (found: (int, int, int))
    requires
        ({
            let before = token_texts(tokens(accumulated));
            let after = token_texts(tokens(trimmed(window)));
            let behind = c + before.len() - p;
            &&& 0 <= p < before.len() <= p + 24
            &&& 0 <= c <= behind <= 12
            &&& behind < after.len()
            &&& after.subrange(c, behind) == before.skip(p)
            &&& before.len() - p >= 2 || (c == 0 && tokens(trimmed(window))[0].is_content)
        }),
    ensures
        ({
            let (cut, best_p, best_c) = found;
            let before = token_texts(tokens(accumulated));
            let after = token_texts(tokens(trimmed(window)));
            let tail = trimmed(window).skip(cut);
            let behind = best_c + before.len() - best_p;
            &&& joins(accumulated, window)
            &&& 0 <= cut <= trimmed(window).len()
            &&& merged(accumulated, window) == appended(accumulated, tail)
            &&& best_p < p || (best_p == p && best_c <= c)
            &&& 0 <= best_p < before.len()
            &&& 0 <= best_c
            &&& behind < after.len()
            &&& after.subrange(best_c, behind) == before.skip(best_p)
            &&& token_texts(tokens(tail)) == after.skip(behind)
        }),
{
    let current = trimmed(window);
    let before = tokens(accumulated);
    let after = tokens(current);
    let behind = c + before.len() - p;
    if accumulated.len() == 0 {
        assert(before.len() == 0);
    }
    if current.len() == 0 {
        assert(after.len() == 0);
    }
    assert forall|k: int| 0 <= k < before.len() - p implies (#[trigger] before[p + k]).text
        == after[c + k].text by {
        assert(token_texts(after).subrange(c, behind)[k] == token_texts(before).skip(p)[k]);
    }
    assert(seam_at(before, after, p, c));
    lemma_some_seam_is_best(before, after, p, c);
    let (cut, best_p, best_c) = lemma_merge_cut(accumulated, window);
    assert(seam_at(before, after, best_p, best_c));
    (cut, best_p, best_c)
}

/// Words that are said at the end of one window and again at the beginning of the next
/// are not repeated: for texts `a`, `b` and `c`, joining `b c` to `a b` is beyond doubt,
/// and what is appended are tokens of `c` alone. This holds of two tokens or more,
/// whatever they are, and of a single word.
pub proof fn law_words_at_the_join_stand_once(a: Seq<char>, b: Seq<char>, c: Seq<char>) -> (found: (
    int,
    int,
))
    requires
        1 <= tokens(b).len() <= 12,
        tokens(b).len() >= 2 || tokens(b)[0].is_content,
        tokens(c).len() >= 1,
    ensures
        ({
            let accumulated = a + seq![' '] + b;
            let window = b + seq![' '] + c;
            let (cut, dropped) = found;
            let tail = trimmed(window).skip(cut);
            &&& joins(accumulated, window)
            &&& 0 <= cut <= trimmed(window).len()
            &&& merged(accumulated, window) == appended(accumulated, tail)
            &&& 0 <= dropped < tokens(c).len()
            &&& token_texts(tokens(tail)) == token_texts(tokens(c)).skip(dropped)
        }),
{
    let accumulated = a + seq![' '] + b;
    let window = b + seq![' '] + c;
    let current = trimmed(window);
    law_a_space_parts_the_tokens(a, b);
    law_a_space_parts_the_tokens(b, c);
    law_trimming_keeps_the_tokens(window);
    let texts_b = token_texts(tokens(b));
    let texts_c = token_texts(tokens(c));
    let before = token_texts(tokens(accumulated));
    let after = token_texts(tokens(current));
    assert(before =~= token_texts(tokens(a)) + texts_b);
    assert(after =~= texts_b + texts_c);
    let p = tokens(a).len() as int;
    assert(before.skip(p) =~= texts_b);
    assert(after.subrange(0, texts_b.len() as int) =~= texts_b);
    if tokens(b).len() == 1 {
        lemma_kind_is_in_the_text(current, 0);
        lemma_kind_is_in_the_text(b, 0);
        assert(after[0] == texts_b[0]);
    }
    let (cut, best_p, best_c) = law_every_repetition_is_recognised(accumulated, window, p, 0);
    let behind = best_c + before.len() - best_p;
    let dropped = behind - texts_b.len();
    assert(after.skip(behind) =~= texts_c.skip(dropped));
    (cut, dropped)
}

/// Where nothing that the text so far ends with is said in the window, the join is in
/// doubt, and the whole window is appended.
pub proof fn law_no_join_without_a_repetition(accumulated: Seq<char>, window: Seq<char>)
    requires
        accumulated.len() > 0,
        trimmed(window).len() > 0,
        tokens(accumulated).len() == 0 || forall|i: int|
            0 <= i < tokens(trimmed(window)).len() ==> (#[trigger] tokens(trimmed(window))[i]).text
                != tokens(accumulated).last().text,
    ensures
        !joins(accumulated, window),
        merged(accumulated, window) == appended(accumulated, trimmed(window)),
{
    let (cut, p, c) = law_merge_appends_what_follows_a_repetition(accumulated, window);
    let before = token_texts(tokens(accumulated));
    let after = token_texts(tokens(trimmed(window)));
    if joins(accumulated, window) {
        let behind = c + before.len() - p;
        assert(after.subrange(c, behind).last() == before.skip(p).last());
        assert(after[behind - 1] == before.last());
        assert(tokens(trimmed(window))[behind - 1].text == tokens(accumulated).last().text);
    }
    assert(trimmed(window).skip(0) =~= trimmed(window));
}

/// The scripts without spaces are those of East Asia, and nothing else: what lies below
/// the radicals, between these blocks or above the ideographs does not count, be it
/// punctuation or the letters of other scripts.
pub proof fn law_scripts_without_spaces(c: char)
    ensures
        !cjk(c) <==> {
            ||| c as u32 <= 0x2E7F
            ||| 0x3000 <= c as u32 <= 0x303F
            ||| 0x3100 <= c as u32 <= 0x31EF
            ||| 0x3200 <= c as u32 <= 0x33FF
            ||| 0x4DC0 <= c as u32 <= 0x4DFF
            ||| 0xA000 <= c as u32 <= 0xABFF
            ||| 0xD7B0 <= c as u32 <= 0xF8FF
            ||| 0xFB00 <= c as u32 <= 0x1_FFFF
            ||| 0x2_FA20 <= c as u32
        },
{
}

/// The list of tokens says of each what it is.
pub proof fn law_token_lists_say_what_they_hold(list: Seq<TextToken<'_>>, i: int)
    ensures
        token_views(list).len() == list.len(),
        0 <= i < list.len() ==> {
            &&& token_views(list)[i].text == list[i].text@
            &&& token_views(list)[i].end == list[i].end
            &&& token_views(list)[i].is_content == list[i].is_content
        },
{
}

/// Merging a window into a text that ends with the words that the window begins with
/// finds the join, keeps the text so far, and adds only what is new.
pub proof fn law_merging_adds_what_is_new(
    accumulated: &mut String,
    current: &str,
    matched: bool,
    a: Seq<char>,
    b: Seq<char>,
    c: Seq<char>,
) -> (found: (int, int))
    requires
        call_ensures(merge_transcript, (accumulated, current), matched),
        old(accumulated)@ == a + seq![' '] + b,
        current@ == b + seq![' '] + c,
        1 <= tokens(b).len() <= 12,
        tokens(b).len() >= 2 || tokens(b)[0].is_content,
        tokens(c).len() >= 1,
    ensures
        ({
            let (cut, dropped) = found;
            let tail = trimmed(current@).skip(cut);
            &&& matched
            &&& 0 <= cut <= trimmed(current@).len()
            &&& final(accumulated)@ == appended(a + seq![' '] + b, tail)
            &&& 0 <= dropped < tokens(c).len()
            &&& token_texts(tokens(tail)) == token_texts(tokens(c)).skip(dropped)
        }),
{
    law_words_at_the_join_stand_once(a, b, c)
}

/// Merging never takes anything away: the text so far stays, and what is added is the
/// end of the window, the whole of it if no join was found.
pub proof fn law_merging_appends_the_end_of_the_window(
    accumulated: &mut String,
    current: &str,
    matched: bool,
) -> (cut: int)
    requires
        call_ensures(merge_transcript, (accumulated, current), matched),
    ensures
        0 <= cut <= trimmed(current@).len(),
        old(accumulated)@.len() > 0 ==> final(accumulated)@ == appended(
            old(accumulated)@,
            trimmed(current@).skip(cut),
        ),
        old(accumulated)@.len() == 0 ==> matched && final(accumulated)@ == trimmed(current@),
        trimmed(current@).len() == 0 ==> matched && final(accumulated)@ == old(accumulated)@,
        !matched ==> cut == 0,
{
    law_nothing_to_join(old(accumulated)@, current@);
    if old(accumulated)@.len() > 0 && trimmed(current@).len() > 0 {
        let (cut, _, _) = law_merge_appends_what_follows_a_repetition(old(accumulated)@, current@);
        cut
    } else {
        if trimmed(current@).len() == 0 {
            assert(trimmed(current@).skip(0) =~= trimmed(current@));
        }
        0
    }
}

} // verus!
