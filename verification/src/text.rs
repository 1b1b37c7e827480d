//! Text primitives: Unicode character classes, trimming and comparison, over
//! strings seen as sequences of characters.

use vstd::prelude::*;
use vstd::string::{StrSliceExecFns, StringExecFns};
use vstd::utf8::{
    char_is_scalar, decode_utf8, encode_scalar, encode_utf8, encode_utf8_decode_utf8,
    encode_utf8_first_scalar, encode_utf8_valid_utf8, is_char_boundary, pop_first_scalar,
};

verus! {

/// Whether a character has Unicode's `White_Space` property.
pub open spec fn white_space(c: char) -> bool {
    let code = c as u32;
    ||| 0x9 <= code <= 0xd
    ||| code == 0x20
    ||| code == 0x85
    ||| code == 0xa0
    ||| code == 0x1680
    ||| 0x2000 <= code <= 0x200a
    ||| code == 0x2028
    ||| code == 0x2029
    ||| code == 0x202f
    ||| code == 0x205f
    ||| code == 0x3000
}

/// Whether a character is alphabetic or numeric in Unicode's sense.
pub uninterp spec fn alphanumeric(c: char) -> bool;

/// The lowercase equivalent of a text.
pub uninterp spec fn lowercase(s: Seq<char>) -> Seq<char>;

/// `char::is_whitespace` decides the `White_Space` property of its argument, which
/// Unicode's character database gives to the characters of [`white_space`].
pub assume_specification[ char::is_whitespace ](c: char) -> (r: bool)
    ensures
        r == white_space(c),
;

/// `char::is_alphanumeric` decides whether its argument is alphabetic or numeric.
/// White space is neither.
pub assume_specification[ char::is_alphanumeric ](c: char) -> (r: bool)
    ensures
        r == alphanumeric(c),
        white_space(c) ==> !r,
;

/// `str::to_lowercase` gives the lowercase equivalent of its argument.
pub assume_specification[ str::to_lowercase ](s: &str) -> (r: String)
    ensures
        r@ == lowercase(s@),
;

/// `s` without its leading white space.
pub open spec fn trim_start(s: Seq<char>) -> Seq<char>
    decreases s.len(),
{
    if s.len() > 0 && white_space(s.first()) {
        trim_start(s.drop_first())
    } else {
        s
    }
}

/// `s` without its trailing white space.
pub open spec fn trim_end(s: Seq<char>) -> Seq<char>
    decreases s.len(),
{
    if s.len() > 0 && white_space(s.last()) {
        trim_end(s.drop_last())
    } else {
        s
    }
}

/// `s` without its leading and trailing white space.
pub open spec fn trimmed(s: Seq<char>) -> Seq<char> {
    trim_end(trim_start(s))
}

/// The characters of a text, in order.
pub fn chars_of(text: &str) -> (chars: Vec<char>)
    ensures
        chars@ == text@,
{
    let mut chars: Vec<char> = Vec::new();
    for c in it: text.chars()
        invariant
            it.seq() == text@,
            chars@ == text@.take(it.index() as int),
    {
        chars.push(c);
    }
    assert(text@.take(text@.len() as int) =~= text@);
    chars
}

/// Where the leading white space of `chars` ends.
pub fn start_of_text(chars: &[char]) -> (start: usize)
    ensures
        start <= chars@.len(),
        chars@.skip(start as int) == trim_start(chars@),
{
    let mut start: usize = 0;
    assert(chars@.skip(0) =~= chars@);
    while start < chars.len() && chars[start].is_whitespace()
        invariant
            start <= chars@.len(),
            trim_start(chars@.skip(start as int)) == trim_start(chars@),
        decreases chars@.len() - start,
    {
        assert(chars@.skip(start as int).drop_first() =~= chars@.skip(start + 1));
        start = start + 1;
    }
    start
}

/// Where the trailing white space of `chars` begins.
pub fn end_of_text(chars: &[char]) -> (end: usize)
    ensures
        end <= chars@.len(),
        chars@.take(end as int) == trim_end(chars@),
{
    let mut end: usize = chars.len();
    assert(chars@.take(end as int) =~= chars@);
    while end > 0 && chars[end - 1].is_whitespace()
        invariant
            end <= chars@.len(),
            trim_end(chars@.take(end as int)) == trim_end(chars@),
        decreases end,
    {
        assert(chars@.take(end as int).drop_last() =~= chars@.take(end - 1));
        end = end - 1;
    }
    end
}

/// `text` without its leading and trailing white space.
pub fn trim<'a>(text: &'a str) -> (r: &'a str)
    ensures
        r@ == trimmed(text@),
{
    let chars = chars_of(text);
    let start: usize = start_of_text(chars.as_slice());
    let body = vstd::slice::slice_subrange(chars.as_slice(), start, chars.len());
    assert(body@ =~= text@.skip(start as int));
    let length: usize = end_of_text(body);
    let end: usize = start + length;
    assert(text@.subrange(start as int, end as int) =~= body@.take(length as int));
    text.substring_char(start, end)
}

/// `text` with `tail` behind it.
pub fn joined(text: &str, tail: &str) -> (r: String)
    ensures
        r@ == text@ + tail@,
{
    let mut r = text.to_owned();
    r.append(tail);
    r
}

/// Whether `text` begins with `prefix`.
pub open spec fn begins_with(text: Seq<char>, prefix: Seq<char>) -> bool {
    prefix.len() <= text.len() && text.take(prefix.len() as int) == prefix
}

/// What follows `prefix` in `text`, if `text` begins with it.
pub fn after_prefix<'a>(text: &'a str, prefix: &str) -> (r: Option<&'a str>)
    ensures
        r is Some <==> begins_with(text@, prefix@),
        r matches Some(rest) ==> rest@ == text@.skip(prefix@.len() as int),
{
    let length: usize = text.unicode_len();
    let taken: usize = prefix.unicode_len();
    if taken > length {
        return None;
    }
    let head = text.substring_char(0, taken);
    assert(head@ =~= text@.take(taken as int));
    if !same_text(head, prefix) {
        return None;
    }
    let rest = text.substring_char(taken, length);
    assert(rest@ =~= text@.skip(taken as int));
    Some(rest)
}

/// Whether `part` stands in `text` at position `at`.
pub open spec fn occurs_at(text: Seq<char>, part: Seq<char>, at: int) -> bool {
    0 <= at && at + part.len() <= text.len() && text.subrange(at, at + part.len()) == part
}

/// Whether `part` stands anywhere in `text`.
pub open spec fn occurs(text: Seq<char>, part: Seq<char>) -> bool {
    exists|at: int| #[trigger] occurs_at(text, part, at)
}

/// Whether `at` is the first position at which `part` stands in `text`.
pub open spec fn first_at(text: Seq<char>, part: Seq<char>, at: int) -> bool {
    occurs_at(text, part, at) && forall|other: int|
        other < at ==> !#[trigger] occurs_at(text, part, other)
}

/// The first position at which `part` stands in `text`, counted in characters.
pub fn find(text: &str, part: &str) -> (r: Option<usize>)
    ensures
        match r {
            Some(at) => first_at(text@, part@, at as int),
            None => !occurs(text@, part@),
        },
{
    let length: usize = text.unicode_len();
    let width: usize = part.unicode_len();
    if width > length {
        return None;
    }
    let mut at: usize = 0;
    while at <= length - width
        invariant
            length == text@.len(),
            width == part@.len(),
            width <= length,
            at <= length - width + 1,
            forall|other: int| other < at ==> !#[trigger] occurs_at(text@, part@, other),
        decreases length - at,
    {
        if same_text(text.substring_char(at, at + width), part) {
            assert(occurs_at(text@, part@, at as int));
            return Some(at);
        }
        if at == length - width {
            return None;
        }
        at = at + 1;
    }
    None
}

/// What an optional text says.
pub open spec fn optional_text(value: Option<String>) -> Option<Seq<char>> {
    match value {
        Some(text) => Some(text@),
        None => None,
    }
}

/// How many bytes a text takes in UTF-8.
pub open spec fn byte_len(text: Seq<char>) -> int {
    encode_utf8(text).len() as int
}

/// What stands in a text behind its first `offset` bytes.
pub open spec fn text_behind(text: Seq<char>, offset: int) -> Seq<char> {
    decode_utf8(encode_utf8(text).skip(offset))
}

/// How many bytes a character takes in UTF-8.
pub fn char_width(c: char) -> (r: usize)
    ensures
        r == encode_scalar(c as u32).len(),
        1 <= r <= 4,
{
    proof {
        char_is_scalar(c);
    }
    let code: u32 = c as u32;
    if code <= 0x7f {
        1
    } else if code <= 0x7ff {
        2
    } else if code <= 0xffff {
        3
    } else {
        4
    }
}

/// The encoding of two texts in a row is that of the first and then that of the
/// second.
pub proof fn lemma_encoding_in_parts(a: Seq<char>, b: Seq<char>)
    ensures
        encode_utf8(a + b) == encode_utf8(a) + encode_utf8(b),
    decreases a.len(),
{
    if a.len() == 0 {
        assert(a + b =~= b);
        assert(encode_utf8(a) + encode_utf8(b) =~= encode_utf8(b));
    } else {
        let first = encode_scalar(a[0] as u32);
        lemma_encoding_in_parts(a.drop_first(), b);
        assert((a + b).drop_first() =~= a.drop_first() + b);
        assert(first + (encode_utf8(a.drop_first()) + encode_utf8(b)) =~= (first + encode_utf8(
            a.drop_first(),
        )) + encode_utf8(b));
    }
}

/// Different texts have different encodings.
pub proof fn lemma_bytes_tell_texts_apart(a: Seq<char>, b: Seq<char>)
    ensures
        encode_utf8(a) == encode_utf8(b) ==> a == b,
{
    encode_utf8_decode_utf8(a);
    encode_utf8_decode_utf8(b);
}

/// One more character takes its width in bytes.
pub proof fn lemma_byte_len_grows(text: Seq<char>, at: int)
    requires
        0 <= at < text.len(),
    ensures
        byte_len(text.take(at + 1)) == byte_len(text.take(at)) + encode_scalar(
            text[at] as u32,
        ).len(),
{
    let one = seq![text[at]];
    assert(text.take(at + 1) =~= text.take(at) + one);
    lemma_encoding_in_parts(text.take(at), one);
    reveal_with_fuel(encode_utf8, 2);
    assert(one.drop_first() =~= Seq::<char>::empty());
    assert(encode_utf8(one) =~= encode_scalar(text[at] as u32));
}

/// The bytes between two positions are those of the characters between them.
pub proof fn lemma_byte_len_between(text: Seq<char>, from: int, to: int)
    requires
        0 <= from <= to <= text.len(),
    ensures
        byte_len(text.take(to)) == byte_len(text.take(from)) + byte_len(text.subrange(from, to)),
        byte_len(text.take(to)) <= byte_len(text),
{
    assert(text.take(to) =~= text.take(from) + text.subrange(from, to));
    lemma_encoding_in_parts(text.take(from), text.subrange(from, to));
    assert(text =~= text.take(to) + text.skip(to));
    lemma_encoding_in_parts(text.take(to), text.skip(to));
}

/// A text can be cut between any two of its characters.
pub proof fn lemma_boundary(text: Seq<char>, at: int)
    requires
        0 <= at <= text.len(),
    ensures
        is_char_boundary(encode_utf8(text), byte_len(text.take(at))),
    decreases at,
{
    let bytes = encode_utf8(text);
    encode_utf8_valid_utf8(text);
    assert(text.take(0) =~= Seq::<char>::empty());
    if at > 0 {
        let rest = text.drop_first();
        encode_utf8_first_scalar(text);
        assert(pop_first_scalar(bytes) =~= encode_utf8(rest));
        lemma_boundary(rest, at - 1);
        assert(text.take(at).drop_first() =~= rest.take(at - 1));
        lemma_byte_len_between(text, at, text.len() as int);
    }
}

/// What stands behind the bytes of the first `at` characters are the others.
pub proof fn lemma_text_behind(text: Seq<char>, at: int)
    requires
        0 <= at <= text.len(),
    ensures
        0 <= byte_len(text.take(at)) <= byte_len(text),
        encode_utf8(text).skip(byte_len(text.take(at))) == encode_utf8(text.skip(at)),
        encode_utf8(text).take(byte_len(text.take(at))) == encode_utf8(text.take(at)),
        text_behind(text, byte_len(text.take(at))) == text.skip(at),
{
    assert(text =~= text.take(at) + text.skip(at));
    lemma_encoding_in_parts(text.take(at), text.skip(at));
    assert(encode_utf8(text).skip(byte_len(text.take(at))) =~= encode_utf8(text.skip(at)));
    assert(encode_utf8(text).take(byte_len(text.take(at))) =~= encode_utf8(text.take(at)));
    encode_utf8_decode_utf8(text.skip(at));
}

/// Cuts a text behind its first `offset` bytes, which are those of its first
/// `chars` characters.
pub(crate) fn split_text<'a>(text: &'a str, offset: usize, Ghost(chars): Ghost<int>) -> (r: (
    &'a str,
    &'a str,
))
    requires
        0 <= chars <= text@.len(),
        offset == byte_len(text@.take(chars)),
    ensures
        r.0@ == text@.take(chars),
        r.1@ == text@.skip(chars),
{
    proof {
        lemma_boundary(text@, chars);
        lemma_text_behind(text@, chars);
    }
    let r = text.split_at(offset);
    proof {
        let bytes = encode_utf8(text@);
        assert(bytes.subrange(0, offset as int) =~= bytes.take(offset as int));
        assert(bytes.subrange(offset as int, bytes.len() as int) =~= bytes.skip(offset as int));
        lemma_bytes_tell_texts_apart(r.0@, text@.take(chars));
        lemma_bytes_tell_texts_apart(r.1@, text@.skip(chars));
    }
    r
}

/// Whether two texts hold the same characters.
pub fn same_text(a: &str, b: &str) -> (same: bool)
    ensures
        same == (a@ == b@),
{
    let left = a.to_owned();
    let right = b.to_owned();
    left == right
}

proof fn lemma_trim_start_cuts(s: Seq<char>) -> (cut: int)
    ensures
        0 <= cut <= s.len(),
        trim_start(s) == s.skip(cut),
        forall|i: int| 0 <= i < cut ==> white_space(#[trigger] s[i]),
        cut < s.len() ==> !white_space(s[cut]),
    decreases s.len(),
{
    if s.len() > 0 && white_space(s.first()) {
        let rest = s.drop_first();
        let cut = lemma_trim_start_cuts(rest);
        assert(rest.skip(cut) =~= s.skip(cut + 1));
        assert forall|i: int| 0 <= i < cut + 1 implies white_space(#[trigger] s[i]) by {
            if i > 0 {
                assert(rest[i - 1] == s[i]);
            }
        }
        if cut < rest.len() {
            assert(rest[cut] == s[cut + 1]);
        }
        cut + 1
    } else {
        assert(s.skip(0) =~= s);
        0
    }
}

proof fn lemma_trim_end_cuts(s: Seq<char>) -> (cut: int)
    ensures
        0 <= cut <= s.len(),
        trim_end(s) == s.take(cut),
        forall|i: int| cut <= i < s.len() ==> white_space(#[trigger] s[i]),
        cut > 0 ==> !white_space(s[cut - 1]),
    decreases s.len(),
{
    if s.len() > 0 && white_space(s.last()) {
        let rest = s.drop_last();
        let cut = lemma_trim_end_cuts(rest);
        assert(rest.take(cut) =~= s.take(cut));
        assert forall|i: int| cut <= i < s.len() implies white_space(#[trigger] s[i]) by {
            if i < rest.len() {
                assert(rest[i] == s[i]);
            }
        }
        cut
    } else {
        assert(s.take(s.len() as int) =~= s);
        s.len() as int
    }
}

/// Cutting the white space off the front cuts all of it and nothing else: what is cut
/// is white space, and what is left does not begin with any.
pub proof fn law_trim_start_cuts_white_space_only(s: Seq<char>) -> (cut: int)
    ensures
        0 <= cut <= s.len(),
        trim_start(s) == s.skip(cut),
        forall|i: int| 0 <= i < cut ==> white_space(#[trigger] s[i]),
        cut < s.len() ==> !white_space(s[cut]),
{
    lemma_trim_start_cuts(s)
}

/// Trimming cuts white space at both ends, all of it, and nothing else.
pub proof fn law_trim_cuts_white_space_only(s: Seq<char>) -> (bounds: (int, int))
    ensures
        0 <= bounds.0 <= bounds.1 <= s.len(),
        trimmed(s) == s.subrange(bounds.0, bounds.1),
        forall|i: int| 0 <= i < bounds.0 ==> white_space(#[trigger] s[i]),
        forall|i: int| bounds.1 <= i < s.len() ==> white_space(#[trigger] s[i]),
        bounds.0 < bounds.1 ==> !white_space(s[bounds.0]) && !white_space(s[bounds.1 - 1]),
{
    let start = lemma_trim_start_cuts(s);
    let rest = s.skip(start);
    let length = lemma_trim_end_cuts(rest);
    assert(rest.take(length) =~= s.subrange(start, start + length));
    assert forall|i: int| start + length <= i < s.len() implies white_space(#[trigger] s[i]) by {
        assert(rest[i - start] == s[i]);
    }
    if length > 0 {
        assert(rest[length - 1] == s[start + length - 1]);
        if length == 1 {
            assert(rest[0] == s[start]);
        }
    }
    (start, start + length)
}

/// A text is blank when trimmed exactly if it holds nothing but white space.
pub proof fn law_blank_text_is_white_space(s: Seq<char>)
    ensures
        trimmed(s).len() == 0 <==> forall|i: int| 0 <= i < s.len() ==> white_space(#[trigger] s[i]),
{
    let (start, end) = law_trim_cuts_white_space_only(s);
    if start < end {
        assert(!white_space(s[start]));
    }
}

/// Beyond ASCII, the white space characters are the next line, the no-break space, and
/// the spaces and separators that Unicode has among its punctuation.
pub proof fn law_white_space_beyond_ascii(c: char)
    requires
        c as u32 > 0x7f,
    ensures
        white_space(c) <==> {
            ||| c == '\u{85}'
            ||| c == '\u{a0}'
            ||| c == '\u{1680}'
            ||| '\u{2000}' as u32 <= c as u32 <= '\u{200a}' as u32
            ||| c == '\u{2028}'
            ||| c == '\u{2029}'
            ||| c == '\u{202f}'
            ||| c == '\u{205f}'
            ||| c == '\u{3000}'
        },
{
}

/// The white space characters of ASCII are the tab, the line breaks and the space.
pub proof fn law_white_space_of_ascii(c: char)
    requires
        c as u32 <= 0x7f,
    ensures
        white_space(c) <==> c == ' ' || c == '\t' || c == '\n' || c as u32 == 0xb || c as u32 == 0xc
            || c == '\r',
{
}

/// A text begins with a prefix exactly if it is that prefix with something behind it.
pub proof fn law_prefix_comes_first(prefix: Seq<char>, rest: Seq<char>, text: Seq<char>)
    ensures
        begins_with(prefix + rest, prefix),
        begins_with(text, prefix) ==> text == prefix + text.skip(prefix.len() as int),
{
    assert((prefix + rest).take(prefix.len() as int) =~= prefix);
    if begins_with(text, prefix) {
        assert(text =~= text.take(prefix.len() as int) + text.skip(prefix.len() as int));
    }
}

/// A part occurs in a text exactly if the text is that part with something before and
/// behind it.
pub proof fn law_part_occurs(before: Seq<char>, part: Seq<char>, behind: Seq<char>, text: Seq<char>)
    ensures
        occurs(before + part + behind, part),
        occurs(text, part) ==> exists|a: Seq<char>, b: Seq<char>| text == #[trigger] (a + part + b),
{
    let whole = before + part + behind;
    let at = before.len() as int;
    assert(whole.subrange(at, at + part.len()) =~= part);
    assert(occurs_at(whole, part, at));
    if occurs(text, part) {
        let at = choose|at: int| #[trigger] occurs_at(text, part, at);
        let a = text.take(at);
        let b = text.skip(at + part.len());
        assert(text =~= a + text.subrange(at, at + part.len()) + b);
    }
}

/// An optional text says what it holds.
pub proof fn law_optional_texts_say_what_they_hold(value: Option<String>)
    ensures
        value is None <==> optional_text(value) is None,
        value matches Some(text) ==> optional_text(value) == Some(text@),
{
}

/// What is found is the first place at which the part stands; where nothing is found, it
/// stands nowhere.
pub proof fn law_the_first_place_is_found(text: &str, part: &str, r: Option<usize>, at: int)
    requires
        call_ensures(find, (text, part), r),
    ensures
        r matches Some(found) ==> found + part@.len() <= text@.len() && text@.subrange(
            found as int,
            found + part@.len(),
        ) == part@,
        0 <= at <= text@.len() - part@.len() && text@.subrange(at, at + part@.len()) == part@ ==> (
        r matches Some(found) && found <= at),
{
    if 0 <= at <= text@.len() - part@.len() && text@.subrange(at, at + part@.len()) == part@ {
        assert(occurs_at(text@, part@, at));
    }
}

/// What follows a prefix is what is left without it.
pub proof fn law_a_prefix_is_cut_off(
    text: &str,
    prefix: &str,
    rest: Option<&str>,
    whole: String,
    same: bool,
)
    requires
        call_ensures(after_prefix, (text, prefix), rest),
        call_ensures(joined, (text, prefix), whole),
        call_ensures(same_text, (text, prefix), same),
    ensures
        rest matches Some(rest) ==> text@ == prefix@ + rest@,
        rest is None ==> forall|end: Seq<char>| text@ != #[trigger] (prefix@ + end),
        whole@ == text@ + prefix@,
        same <==> text@ == prefix@,
{
    if let Some(rest) = rest {
        law_prefix_comes_first(prefix@, rest@, text@);
    } else {
        assert forall|end: Seq<char>| text@ != #[trigger] (prefix@ + end) by {
            law_prefix_comes_first(prefix@, end, text@);
        }
    }
}

/// A trimmed text is the text without the white space at its ends.
pub proof fn law_white_space_at_the_ends_is_cut_off(text: &str, r: &str) -> (bounds: (int, int))
    requires
        call_ensures(trim, (text,), r),
    ensures
        0 <= bounds.0 <= bounds.1 <= text@.len(),
        r@ == text@.subrange(bounds.0, bounds.1),
        forall|i: int| 0 <= i < bounds.0 ==> white_space(#[trigger] text@[i]),
        forall|i: int| bounds.1 <= i < text@.len() ==> white_space(#[trigger] text@[i]),
        r@.len() > 0 ==> !white_space(r@[0]) && !white_space(r@.last()),
{
    law_trim_cuts_white_space_only(text@)
}

} // verus!
