//! Server-sent events: the client's end of the event channel of a session.

use vstd::prelude::*;
use vstd::string::{StrSliceExecFns, StringExecFns};
use vstd::utf8::{
    decode_utf8, encode_scalar, encode_utf8, encode_utf8_decode_utf8, encode_utf8_valid_utf8,
    valid_utf8,
};

use crate::remote_client::{succeeded, success, RemoteStreamEvent};
use crate::text::{
    after_prefix, begins_with, chars_of, lemma_encoding_in_parts, trim, trimmed,
};

verus! {

/// What bytes say as UTF-8, with replacement characters where they are not.
pub uninterp spec fn utf8_lossy(bytes: Seq<u8>) -> Seq<char>;

/// Reads bytes as UTF-8 with std's `String::from_utf8_lossy`.
///
/// The contract names the result [`utf8_lossy`], and claims that nothing is
/// replaced in bytes that are valid.
#[verifier::external_body]
fn lossy_text(bytes: &[u8]) -> (r: String)
    ensures
        r@ == utf8_lossy(bytes@),
        valid_utf8(bytes@) ==> r@ == decode_utf8(bytes@),
{
    String::from_utf8_lossy(bytes).into_owned()
}

/// Where the first line of a text ends: at its line feed, or at its end.
pub open spec fn line_end(text: Seq<char>) -> nat
    decreases text.len(),
{
    if text.len() == 0 || text[0] == '\n' {
        0
    } else {
        1 + line_end(text.drop_first())
    }
}

/// The first line of a text, without the line feed at its end, or the carriage
/// return and the line feed.
pub open spec fn first_line(text: Seq<char>) -> Seq<char> {
    let end = line_end(text) as int;
    if end < text.len() && end > 0 && text[end - 1] == '\r' {
        text.take(end - 1)
    } else {
        text.take(end)
    }
}

/// What follows the first line of a text.
pub open spec fn other_lines(text: Seq<char>) -> Seq<char> {
    let end = line_end(text) as int;
    if end < text.len() {
        text.skip(end + 1)
    } else {
        seq![]
    }
}

/// What the `data:` lines of a frame say, one by one. Other lines are comments or
/// fields that do not matter.
pub open spec fn data_of(frame: Seq<char>) -> Seq<Seq<char>>
    decreases frame.len(),
{
    if frame.len() == 0 {
        seq![]
    } else {
        let line = first_line(frame);
        let more = data_of(other_lines(frame));
        if begins_with(line, "data:"@) {
            seq![trimmed(line.skip("data:"@.len() as int))] + more
        } else {
            more
        }
    }
}

/// Lines put together, with a line feed between each two.
pub open spec fn lines_joined(lines: Seq<Seq<char>>) -> Seq<char>
    decreases lines.len(),
{
    if lines.len() == 0 {
        seq![]
    } else if lines.len() == 1 {
        lines[0]
    } else {
        lines_joined(lines.drop_last()) + "\n"@ + lines.last()
    }
}

/// What a frame carries, if it carries anything.
pub open spec fn payload_of(frame: Seq<char>) -> Option<Seq<char>> {
    let data = data_of(frame);
    if data.len() == 0 {
        None
    } else {
        Some(lines_joined(data))
    }
}

proof fn lemma_line_end_in_range(text: Seq<char>)
    ensures
        0 <= line_end(text) <= text.len(),
        line_end(text) < text.len() ==> text[line_end(text) as int] == '\n',
        forall|i: int| 0 <= i < line_end(text) ==> text[i] != '\n',
    decreases text.len(),
{
    if text.len() > 0 && text[0] != '\n' {
        let rest = text.drop_first();
        lemma_line_end_in_range(rest);
        assert forall|i: int| 0 <= i < line_end(text) implies text[i] != '\n' by {
            if i > 0 {
                assert(rest[i - 1] == text[i]);
            }
        }
    }
}

proof fn lemma_line_end_is(text: Seq<char>, end: int)
    requires
        0 <= end <= text.len(),
        forall|i: int| 0 <= i < end ==> text[i] != '\n',
        end < text.len() ==> text[end] == '\n',
    ensures
        line_end(text) == end,
{
    lemma_line_end_in_range(text);
    if line_end(text) < end {
        assert(text[line_end(text) as int] != '\n');
    }
}

/// Extracts what a frame carries: what its `data:` lines say, with a line feed
/// between each two. A frame without such a line, as a keep-alive comment, carries
/// nothing.
pub fn parse_sse_frame(frame: &str) -> (r: Option<String>)
    ensures
        match r {
            Some(payload) => payload_of(frame@) == Some(payload@),
            None => payload_of(frame@) is None,
        },
{
    let chars = chars_of(frame);
    let mut payload = String::new();
    let mut found = false;
    let ghost mut data: Seq<Seq<char>> = seq![];
    let mut at: usize = 0;
    assert(frame@.skip(0) =~= frame@);
    assert(data + data_of(frame@) =~= data_of(frame@));
    while at < chars.len()
        invariant
            chars@ == frame@,
            at <= frame@.len(),
            found == (data.len() > 0),
            payload@ == lines_joined(data),
            data + data_of(frame@.skip(at as int)) == data_of(frame@),
        decreases frame@.len() - at,
    {
        let ghost rest = frame@.skip(at as int);
        let mut end: usize = at;
        while end < chars.len() && chars[end] != '\n'
            invariant
                chars@ == frame@,
                at <= end <= frame@.len(),
                forall|i: int| at <= i < end ==> frame@[i] != '\n',
            decreases frame@.len() - end,
        {
            end = end + 1;
        }
        proof {
            assert forall|i: int| 0 <= i < end - at implies rest[i] != '\n' by {
                assert(rest[i] == frame@[at + i]);
            }
            lemma_line_end_is(rest, end - at);
        }
        let stop: usize = if end < chars.len() && end > at && chars[end - 1] == '\r' {
            end - 1
        } else {
            end
        };
        let line = frame.substring_char(at, stop);
        assert(line@ =~= first_line(rest));
        let next: usize = if end < chars.len() {
            end + 1
        } else {
            end
        };
        assert(frame@.skip(next as int) =~= other_lines(rest));
        let ghost more = data_of(other_lines(rest));
        if let Some(value) = after_prefix(line, "data:") {
            let ghost before = data;
            let text = trim(value);
            if found {
                payload.append("\n");
            }
            payload.append(text);
            found = true;
            proof {
                data = before.push(text@);
                assert(data.drop_last() =~= before);
                assert(before + (seq![text@] + more) =~= data + more);
            }
        }
        at = next;
    }
    assert(frame@.skip(at as int) =~= seq![]);
    assert(data + data_of(frame@.skip(at as int)) =~= data);
    if found {
        Some(payload)
    } else {
        None
    }
}

/// What the bytes of a frame say.
pub open spec fn frame_text(frame: Seq<u8>) -> Seq<char> {
    if valid_utf8(frame) {
        decode_utf8(frame)
    } else {
        utf8_lossy(frame)
    }
}

/// Where the first blank line begins: at the first of two line feeds in a row.
pub open spec fn first_gap(bytes: Seq<u8>) -> Option<int>
    decreases bytes.len(),
{
    if bytes.len() < 2 {
        None
    } else if bytes[0] == 0xa && bytes[1] == 0xa {
        Some(0)
    } else {
        match first_gap(bytes.drop_first()) {
            Some(at) => Some(at + 1),
            None => None,
        }
    }
}

/// Whether there is a blank line at position `at`.
pub open spec fn gap_at(bytes: Seq<u8>, at: int) -> bool {
    0 <= at && at + 1 < bytes.len() && bytes[at] == 0xa && bytes[at + 1] == 0xa
}

proof fn lemma_first_gap(bytes: Seq<u8>)
    ensures
        match first_gap(bytes) {
            Some(at) => gap_at(bytes, at) && forall|i: int|
                0 <= i < at ==> !#[trigger] gap_at(bytes, i),
            None => forall|i: int| !#[trigger] gap_at(bytes, i),
        },
    decreases bytes.len(),
{
    if bytes.len() >= 2 && !(bytes[0] == 0xa && bytes[1] == 0xa) {
        let rest = bytes.drop_first();
        lemma_first_gap(rest);
        assert forall|i: int| #[trigger] gap_at(bytes, i) implies i > 0 && gap_at(rest, i - 1) by {
            if i > 0 {
                assert(rest[i - 1] == bytes[i] && rest[i] == bytes[i + 1]);
            }
        }
        if let Some(at) = first_gap(rest) {
            assert(rest[at] == bytes[at + 1] && rest[at + 1] == bytes[at + 2]);
        }
    }
}

proof fn lemma_first_gap_is(bytes: Seq<u8>, at: int)
    requires
        gap_at(bytes, at),
        forall|i: int| 0 <= i < at ==> !#[trigger] gap_at(bytes, i),
    ensures
        first_gap(bytes) == Some(at),
{
    lemma_first_gap(bytes);
    if let Some(found) = first_gap(bytes) {
        assert(gap_at(bytes, found));
        if found < at {
            assert(!gap_at(bytes, found));
        }
    }
}

/// The frames that are complete, each with the blank line that ends it.
pub open spec fn byte_frames(bytes: Seq<u8>) -> Seq<Seq<u8>>
    decreases bytes.len(),
{
    match first_gap(bytes) {
        Some(at) if 0 <= at <= bytes.len() - 2 => seq![bytes.take(at + 2)] + byte_frames(
            bytes.skip(at + 2),
        ),
        _ => seq![],
    }
}

/// What follows the last frame that is complete.
pub open spec fn bytes_left(bytes: Seq<u8>) -> Seq<u8>
    decreases bytes.len(),
{
    match first_gap(bytes) {
        Some(at) if 0 <= at <= bytes.len() - 2 => bytes_left(bytes.skip(at + 2)),
        _ => bytes,
    }
}

/// What the complete frames carry, in order. Those that carry nothing are left out.
pub open spec fn payloads_in(bytes: Seq<u8>) -> Seq<Seq<char>>
    decreases bytes.len(),
{
    match first_gap(bytes) {
        Some(at) if 0 <= at <= bytes.len() - 2 => {
            let more = payloads_in(bytes.skip(at + 2));
            match payload_of(frame_text(bytes.take(at + 2))) {
                Some(payload) => seq![payload] + more,
                None => more,
            }
        },
        _ => seq![],
    }
}

/// What the first complete frame with a payload carries, if there is one, and what
/// follows that frame.
pub open spec fn next_payload_in(bytes: Seq<u8>) -> (Option<Seq<char>>, Seq<u8>)
    decreases bytes.len(),
{
    match first_gap(bytes) {
        Some(at) if 0 <= at <= bytes.len() - 2 => match payload_of(
            frame_text(bytes.take(at + 2)),
        ) {
            Some(payload) => (Some(payload), bytes.skip(at + 2)),
            None => next_payload_in(bytes.skip(at + 2)),
        },
        _ => (None, bytes),
    }
}

/// The event channel of a session as it is read. Its frames may be split over
/// several chunks, so that the bytes that have arrived are kept until a frame is
/// complete; only then are they read as text.
pub struct EventReader {
    buffer: Vec<u8>,
    open: bool,
}

impl View for EventReader {
    type V = Seq<u8>;

    closed spec fn view(&self) -> Seq<u8> {
        self.buffer@
    }
}

impl EventReader {
    /// Whether events are still to come.
    pub closed spec fn is_open(&self) -> bool {
        self.open
    }

    /// The channel of a server that has answered the request for it with the given
    /// status, if it has answered at all. A refused request opens no channel.
    pub fn opened(status: Option<u16>) -> (r: EventReader)
        ensures
            r@ == Seq::<u8>::empty(),
            r.is_open() == (status matches Some(code) && success(code)),
    {
        let open = match status {
            Some(code) => succeeded(code),
            None => false,
        };
        EventReader { buffer: Vec::new(), open }
    }

    /// Whether events are still to come.
    pub fn more(&self) -> (r: bool)
        ensures
            r == self.is_open(),
    {
        self.open
    }

    /// Takes a chunk that has arrived.
    pub fn push_chunk(&mut self, chunk: &[u8])
        ensures
            final(self)@ == old(self)@ + chunk@,
            final(self).is_open() == old(self).is_open(),
    {
        self.buffer.extend_from_slice(chunk);
        assert(self@ =~= old(self)@ + chunk@);
    }

    /// Takes out the first frame that is complete.
    pub fn next_frame(&mut self) -> (r: Option<String>)
        ensures
            final(self).is_open() == old(self).is_open(),
            match first_gap(old(self)@) {
                Some(at) => {
                    &&& 0 <= at <= old(self)@.len() - 2
                    &&& r matches Some(frame)
                    &&& frame@ == utf8_lossy(old(self)@.take(at + 2))
                    &&& frame@ == frame_text(old(self)@.take(at + 2))
                    &&& final(self)@ == old(self)@.skip(at + 2)
                },
                None => r is None && final(self)@ == old(self)@,
            },
    {
        let length: usize = self.buffer.len();
        let ghost bytes = self.buffer@;
        let mut at: usize = 0;
        while at < length && length - at >= 2
            invariant
                *self == *old(self),
                self.buffer@ == bytes,
                length == bytes.len(),
                at <= length,
                forall|i: int| 0 <= i < at ==> !#[trigger] gap_at(bytes, i),
            decreases length - at,
        {
            if self.buffer[at] == 0xa && self.buffer[at + 1] == 0xa {
                proof {
                    lemma_first_gap_is(bytes, at as int);
                }
                let rest = self.buffer.split_off(at + 2);
                assert(self.buffer@ =~= bytes.take(at + 2));
                let frame = lossy_text(self.buffer.as_slice());
                self.buffer = rest;
                assert(self@ =~= bytes.skip(at + 2));
                return Some(frame);
            }
            at = at + 1;
        }
        proof {
            lemma_first_gap(bytes);
            if let Some(found) = first_gap(bytes) {
                assert(gap_at(bytes, found));
            }
        }
        None
    }

    /// Takes out frames up to the first that carries something, and returns what it
    /// carries. There is nothing if no complete frame is left, or if no event is to
    /// come any more.
    pub fn next_payload(&mut self) -> (r: Option<String>)
        ensures
            final(self).is_open() == old(self).is_open(),
            !old(self).is_open() ==> r is None && final(self)@ == old(self)@,
            old(self).is_open() ==> match r {
                Some(payload) => next_payload_in(old(self)@) == (Some(payload@), final(self)@),
                None => next_payload_in(old(self)@) == (None::<Seq<char>>, final(self)@),
            },
    {
        if !self.open {
            return None;
        }
        loop
            invariant
                self.is_open() == old(self).is_open(),
                self.is_open(),
                next_payload_in(self@) == next_payload_in(old(self)@),
            decreases self@.len(),
        {
            match self.next_frame() {
                None => {
                    return None;
                },
                Some(frame) => {
                    if let Some(payload) = parse_sse_frame(frame.as_str()) {
                        return Some(payload);
                    }
                },
            }
        }
    }

    /// Takes note of an event that is handed on, and tells whether it is the last:
    /// after the transcript or an error, nothing more is read.
    pub fn delivered(&mut self, event: &RemoteStreamEvent) -> (last: bool)
        ensures
            last == event.terminal(),
            final(self).is_open() == (old(self).is_open() && !last),
            final(self)@ == old(self)@,
    {
        let last = event.is_terminal();
        if last {
            self.open = false;
        }
        last
    }
}

/// It does not matter where the bytes of the channel are cut into chunks, be it
/// inside a frame or inside a character: the frames that come out, what they carry,
/// and what is left, are those of the whole.
pub proof fn law_cuts_do_not_matter(first: Seq<u8>, second: Seq<u8>)
    ensures
        byte_frames(first + second) == byte_frames(first) + byte_frames(
            bytes_left(first) + second,
        ),
        payloads_in(first + second) == payloads_in(first) + payloads_in(
            bytes_left(first) + second,
        ),
        bytes_left(first + second) == bytes_left(bytes_left(first) + second),
    decreases first.len(),
{
    lemma_first_gap(first);
    match first_gap(first) {
        Some(at) => {
            let whole = first + second;
            assert(whole[at] == first[at] && whole[at + 1] == first[at + 1]);
            assert forall|i: int| 0 <= i < at implies !#[trigger] gap_at(whole, i) by {
                assert(!gap_at(first, i));
                assert(whole[i] == first[i] && whole[i + 1] == first[i + 1]);
            }
            lemma_first_gap_is(whole, at);
            let rest = first.skip(at + 2);
            let left = bytes_left(rest) + second;
            assert(whole.skip(at + 2) =~= rest + second);
            assert(whole.take(at + 2) =~= first.take(at + 2));
            law_cuts_do_not_matter(rest, second);
            let frame = seq![first.take(at + 2)];
            assert(frame + (byte_frames(rest) + byte_frames(left)) =~= (frame + byte_frames(rest))
                + byte_frames(left));
            if let Some(payload) = payload_of(frame_text(first.take(at + 2))) {
                assert(seq![payload] + (payloads_in(rest) + payloads_in(left)) =~= (seq![payload]
                    + payloads_in(rest)) + payloads_in(left));
            }
        },
        None => {
            let whole = first + second;
            assert(byte_frames(first) + byte_frames(whole) =~= byte_frames(whole));
            assert(payloads_in(first) + payloads_in(whole) =~= payloads_in(whole));
        },
    }
}

/// What is read from a channel whose bytes arrive in the given chunks, if after each
/// chunk all is taken out that is complete; and what is left.
pub open spec fn received(chunks: Seq<Seq<u8>>) -> (Seq<Seq<char>>, Seq<u8>)
    decreases chunks.len(),
{
    if chunks.len() == 0 {
        (seq![], seq![])
    } else {
        let (payloads, left) = received(chunks.drop_last());
        let bytes = left + chunks.last();
        (payloads + payloads_in(bytes), bytes_left(bytes))
    }
}

/// What is read from a channel depends on its bytes alone: two channels with the same
/// bytes say the same, into whatever chunks the bytes are cut.
pub proof fn law_only_the_bytes_matter(chunks: Seq<Seq<u8>>)
    ensures
        received(chunks) == (payloads_in(chunks.flatten_alt()), bytes_left(chunks.flatten_alt())),
    decreases chunks.len(),
{
    if chunks.len() == 0 {
        assert(payloads_in(chunks.flatten_alt()) =~= seq![]);
        assert(bytes_left(chunks.flatten_alt()) =~= seq![]);
    } else {
        law_only_the_bytes_matter(chunks.drop_last());
        law_cuts_do_not_matter(chunks.drop_last().flatten_alt(), chunks.last());
    }
}

/// Taking out one payload after the other gives all of them, in order, and leaves
/// what is not complete.
pub proof fn law_payloads_come_in_order(bytes: Seq<u8>)
    ensures
        match next_payload_in(bytes) {
            (Some(payload), rest) => {
                &&& payloads_in(bytes) == seq![payload] + payloads_in(rest)
                &&& bytes_left(bytes) == bytes_left(rest)
                &&& rest.len() < bytes.len()
            },
            (None, rest) => payloads_in(bytes).len() == 0 && rest == bytes_left(bytes),
        },
    decreases bytes.len(),
{
    lemma_first_gap(bytes);
    if let Some(at) = first_gap(bytes) {
        if payload_of(frame_text(bytes.take(at + 2))) is None {
            law_payloads_come_in_order(bytes.skip(at + 2));
        }
    }
}

/// Which of the events on a channel are handed on: those that come while it is open.
pub open spec fn told(open: bool, events: Seq<RemoteStreamEvent>) -> Seq<RemoteStreamEvent>
    decreases events.len(),
{
    if !open || events.len() == 0 {
        seq![]
    } else {
        seq![events[0]] + told(!events[0].terminal(), events.drop_first())
    }
}

/// The events are handed on in order, up to the first that is terminal and no
/// further. Of a channel that was not opened, none is.
pub proof fn law_nothing_is_told_after_the_end(open: bool, events: Seq<RemoteStreamEvent>)
    ensures
        ({
            let heard = told(open, events);
            &&& !open ==> heard.len() == 0
            &&& heard.len() <= events.len()
            &&& heard == events.take(heard.len() as int)
            &&& forall|i: int| 0 <= i < heard.len() - 1 ==> !(#[trigger] heard[i]).terminal()
            &&& open && heard.len() < events.len() ==> heard.len() > 0 && heard.last().terminal()
        }),
    decreases events.len(),
{
    let heard = told(open, events);
    if open && events.len() > 0 {
        let rest = events.drop_first();
        let more = told(!events[0].terminal(), rest);
        law_nothing_is_told_after_the_end(!events[0].terminal(), rest);
        assert(heard =~= events.take(heard.len() as int)) by {
            assert(forall|i: int| 0 <= i < more.len() ==> heard[i + 1] == rest[i]);
        }
        assert forall|i: int| 0 <= i < heard.len() - 1 implies !(#[trigger] heard[i]).terminal() by {
            if i > 0 {
                assert(heard[i] == more[i - 1]);
            }
        }
        if more.len() > 0 {
            assert(heard.last() == more.last());
        }
    } else {
        assert(heard =~= events.take(0));
    }
}

/// Nothing is lost or made up: the frames and what is left are all that has arrived.
pub proof fn law_frames_are_the_bytes(bytes: Seq<u8>)
    ensures
        byte_frames(bytes).flatten() + bytes_left(bytes) == bytes,
    decreases bytes.len(),
{
    lemma_first_gap(bytes);
    match first_gap(bytes) {
        Some(at) => {
            let rest = bytes.skip(at + 2);
            law_frames_are_the_bytes(rest);
            let frame = bytes.take(at + 2);
            let frames = byte_frames(bytes);
            assert(frames.first() == frame);
            assert(frames.drop_first() =~= byte_frames(rest));
            assert(frames.flatten() == frame + byte_frames(rest).flatten());
            assert(frames.flatten() + bytes_left(rest) =~= frame + (byte_frames(rest).flatten()
                + bytes_left(rest)));
            assert(frame + rest =~= bytes);
        },
        None => {
            assert(byte_frames(bytes).flatten() + bytes_left(bytes) =~= bytes);
        },
    }
}

/// A frame of one `data:` line carries what stands in that line, trimmed.
pub proof fn law_frame_carries_its_line(value: Seq<char>)
    requires
        forall|i: int| 0 <= i < value.len() ==> value[i] != '\n' && value[i] != '\r',
    ensures
        payload_of("data:"@ + value + "\n\n"@) == Some(trimmed(value)),
{
    reveal_strlit("data:");
    reveal_strlit("\n\n");
    let line = "data:"@ + value;
    let frame = line + "\n\n"@;
    let end = line.len() as int;
    assert forall|i: int| 0 <= i < end implies frame[i] != '\n' && frame[i] != '\r' by {
        assert(frame[i] == line[i]);
        if i >= 5 {
            assert(line[i] == value[i - 5]);
        }
    }
    assert(frame[end] == '\n');
    lemma_line_end_is(frame, end);
    assert(first_line(frame) =~= line);
    assert(line.take("data:"@.len() as int) =~= "data:"@);
    assert(line.skip("data:"@.len() as int) =~= value);
    let rest = other_lines(frame);
    assert(rest =~= seq!['\n']);
    lemma_line_end_is(rest, 0);
    let empty = other_lines(rest);
    assert(empty =~= seq![]);
    assert(first_line(rest) =~= seq![]);
    assert(data_of(empty) =~= seq![]);
    assert(data_of(rest) =~= seq![]);
    assert(data_of(frame) =~= seq![trimmed(value)]);
}

proof fn lemma_no_line_feed_in_scalar(c: char)
    requires
        c != '\n',
    ensures
        forall|i: int|
            0 <= i < encode_scalar(c as u32).len() ==> #[trigger] encode_scalar(c as u32)[i] != 0xa,
{
    let s = c as u32;
    assert(s <= 0x7f && s != 0xa ==> (s & 0x7f) as u8 != 0xa) by (bit_vector);
    assert(0xc0u8 | ((s >> 6) & 0x1f) as u8 >= 0x80) by (bit_vector);
    assert(0xe0u8 | ((s >> 12) & 0x0f) as u8 >= 0x80) by (bit_vector);
    assert(0xf0u8 | ((s >> 18) & 0x7) as u8 >= 0x80) by (bit_vector);
    assert(0x80u8 | (s & 0x3f) as u8 >= 0x80) by (bit_vector);
    assert(0x80u8 | ((s >> 6) & 0x3f) as u8 >= 0x80) by (bit_vector);
    assert(0x80u8 | ((s >> 12) & 0x3f) as u8 >= 0x80) by (bit_vector);
    assert(s != 0xa);
}

proof fn lemma_no_line_feed(text: Seq<char>)
    requires
        forall|i: int| 0 <= i < text.len() ==> text[i] != '\n',
    ensures
        forall|i: int| 0 <= i < encode_utf8(text).len() ==> #[trigger] encode_utf8(text)[i] != 0xa,
    decreases text.len(),
{
    if text.len() > 0 {
        let first = encode_scalar(text[0] as u32);
        let rest = text.drop_first();
        lemma_no_line_feed_in_scalar(text[0]);
        lemma_no_line_feed(rest);
        assert forall|i: int| 0 <= i < encode_utf8(text).len() implies #[trigger] encode_utf8(
            text,
        )[i] != 0xa by {
            if i >= first.len() {
                assert(encode_utf8(text)[i] == encode_utf8(rest)[i - first.len()]);
            } else {
                assert(encode_utf8(text)[i] == first[i]);
            }
        }
    }
}

proof fn lemma_blank_line_bytes()
    ensures
        encode_utf8("\n\n"@) == seq![0xau8, 0xa],
{
    reveal_strlit("\n\n");
    reveal_with_fuel(encode_utf8, 3);
    assert(0xau32 & 0x7f == 0xa) by (bit_vector);
    assert("\n\n"@.drop_first() =~= seq!['\n']);
    assert(seq!['\n'].drop_first() =~= Seq::<char>::empty());
    assert(encode_utf8("\n\n"@) =~= seq![0xau8, 0xa]);
}

/// What is sent as one event arrives as that event: the bytes of a frame with a
/// payload that has no line break in it, and no white space around it, are one
/// complete frame, and carry that payload.
pub proof fn law_event_arrives(payload: Seq<char>)
    requires
        forall|i: int| 0 <= i < payload.len() ==> payload[i] != '\n' && payload[i] != '\r',
        trimmed(payload) == payload,
    ensures
        payloads_in(encode_utf8("data: "@ + payload + "\n\n"@)) == seq![payload],
        bytes_left(encode_utf8("data: "@ + payload + "\n\n"@)).len() == 0,
{
    reveal_strlit("data:");
    reveal_strlit("data: ");
    let value = seq![' '] + payload;
    let line = "data: "@ + payload;
    let frame = line + "\n\n"@;
    assert(frame =~= "data:"@ + value + "\n\n"@);
    law_frame_carries_its_line(value);
    assert(value.drop_first() =~= payload);
    assert(trimmed(value) == trimmed(payload));

    assert forall|i: int| 0 <= i < line.len() implies line[i] != '\n' by {
        if i >= 6 {
            assert(line[i] == payload[i - 6]);
        }
    }
    let bytes = encode_utf8(frame);
    let body = encode_utf8(line);
    lemma_no_line_feed(line);
    lemma_blank_line_bytes();
    lemma_encoding_in_parts(line, "\n\n"@);
    let end = body.len() as int;
    assert forall|i: int| 0 <= i < end implies !#[trigger] gap_at(bytes, i) by {
        assert(bytes[i] == body[i]);
    }
    assert(bytes[end] == 0xa && bytes[end + 1] == 0xa);
    lemma_first_gap_is(bytes, end);
    assert(bytes.take(end + 2) =~= bytes);
    assert(bytes.skip(end + 2) =~= seq![]);
    encode_utf8_valid_utf8(frame);
    encode_utf8_decode_utf8(frame);
    assert(frame_text(bytes) == frame);
    assert(payloads_in(seq![]) =~= seq![]);
    assert(payloads_in(bytes) =~= seq![payload]);
    assert(bytes_left(seq![]) =~= seq![]);
}

/// A frame ends at the first blank line, and nowhere else: the last two bytes of every
/// frame are line feeds, and no two line feeds in a row come before these. In what is
/// left, there are no two line feeds in a row at all.
pub proof fn law_frames_end_at_blank_lines(bytes: Seq<u8>, i: int, k: int)
    ensures
        0 <= i < byte_frames(bytes).len() ==> {
            let frame = byte_frames(bytes)[i];
            &&& frame.len() >= 2
            &&& frame[frame.len() - 2] == 10 && frame[frame.len() - 1] == 10
            &&& 0 <= k < frame.len() - 2 ==> !(frame[k] == 10 && frame[k + 1] == 10)
        },
        0 <= k < bytes_left(bytes).len() - 1 ==> !(bytes_left(bytes)[k] == 10 && bytes_left(
            bytes,
        )[k + 1] == 10),
    decreases bytes.len(),
{
    lemma_first_gap(bytes);
    match first_gap(bytes) {
        Some(at) => {
            let frame = bytes.take(at + 2);
            let rest = bytes.skip(at + 2);
            law_frames_end_at_blank_lines(rest, i - 1, k);
            let frames = byte_frames(bytes);
            if i == 0 {
                assert(frames[0] == frame);
                if 0 <= k < frame.len() - 2 {
                    assert(!gap_at(bytes, k));
                }
            } else if 0 < i < frames.len() {
                assert(frames[i] == byte_frames(rest)[i - 1]);
            }
        },
        None => {
            if 0 <= k < bytes.len() - 1 {
                assert(!gap_at(bytes, k));
            }
        },
    }
}

/// What is read are the payloads of the frames, one for each frame that has one: with
/// one more frame in front, what it carries comes first.
pub proof fn law_payloads_are_those_of_the_frames(frame: Seq<u8>, rest: Seq<u8>)
    requires
        frame.len() >= 2,
        frame[frame.len() - 2] == 10,
        frame[frame.len() - 1] == 10,
        forall|k: int|
            0 <= k < frame.len() - 2 ==> !(#[trigger] frame[k] == 10 && frame[k + 1] == 10),
    ensures
        byte_frames(frame + rest) == seq![frame] + byte_frames(rest),
        bytes_left(frame + rest) == bytes_left(rest),
        payloads_in(frame + rest) == match payload_of(frame_text(frame)) {
            Some(payload) => seq![payload] + payloads_in(rest),
            None => payloads_in(rest),
        },
{
    let whole = frame + rest;
    let at = frame.len() - 2;
    assert(whole[at] == frame[at] && whole[at + 1] == frame[at + 1]);
    assert forall|k: int| 0 <= k < at implies !#[trigger] gap_at(whole, k) by {
        assert(whole[k] == frame[k] && whole[k + 1] == frame[k + 1]);
    }
    lemma_first_gap_is(whole, at);
    assert(whole.take(at + 2) =~= frame);
    assert(whole.skip(at + 2) =~= rest);
}

/// What a frame says is what its bytes mean in UTF-8.
pub proof fn law_frames_are_read_as_utf8(text: Seq<char>)
    ensures
        frame_text(encode_utf8(text)) == text,
{
    encode_utf8_valid_utf8(text);
    encode_utf8_decode_utf8(text);
}

proof fn lemma_line_in_front(line: Seq<char>, rest: Seq<char>)
    requires
        forall|i: int| 0 <= i < line.len() ==> line[i] != '\n',
    ensures
        line.len() == 0 || line.last() != '\r' ==> first_line(line + seq!['\n'] + rest) == line,
        other_lines(line + seq!['\n'] + rest) == rest,
        first_line(line + seq!['\r', '\n'] + rest) == line,
        other_lines(line + seq!['\r', '\n'] + rest) == rest,
{
    let plain = line + seq!['\n'] + rest;
    let end = line.len() as int;
    assert forall|i: int| 0 <= i < end implies plain[i] != '\n' by {
        assert(plain[i] == line[i]);
    }
    assert(plain[end] == '\n');
    lemma_line_end_is(plain, end);
    if end == 0 || line.last() != '\r' {
        assert(end > 0 ==> plain[end - 1] == line.last());
        assert(first_line(plain) =~= line);
    }
    assert(other_lines(plain) =~= rest);
    let other = line + seq!['\r', '\n'] + rest;
    assert forall|i: int| 0 <= i < end + 1 implies other[i] != '\n' by {
        if i < end {
            assert(other[i] == line[i]);
        }
    }
    assert(other[end] == '\r');
    assert(other[end + 1] == '\n');
    lemma_line_end_is(other, end + 1);
    assert(first_line(other) =~= line);
    assert(other_lines(other) =~= rest);
}

proof fn lemma_lines_joined_in_front(first: Seq<char>, rest: Seq<Seq<char>>)
    requires
        rest.len() > 0,
    ensures
        lines_joined(seq![first] + rest) == first + "\n"@ + lines_joined(rest),
    decreases rest.len(),
{
    let all = seq![first] + rest;
    if rest.len() == 1 {
        assert(all.drop_last() =~= seq![first]);
        assert(all.last() == rest[0]);
        reveal_with_fuel(lines_joined, 2);
    } else {
        lemma_lines_joined_in_front(first, rest.drop_last());
        assert(all.drop_last() =~= seq![first] + rest.drop_last());
        assert(all.last() == rest.last());
        assert(lines_joined(all) =~= first + "\n"@ + (lines_joined(rest.drop_last()) + "\n"@
            + rest.last()));
    }
}

proof fn lemma_data_in_front(text: Seq<char>, line: Seq<char>, value: Seq<char>, rest: Seq<char>)
    requires
        text.len() > 0,
        first_line(text) == line,
        other_lines(text) == rest,
        line == "data:"@ + value || !begins_with(line, "data:"@),
    ensures
        payload_of(text) == if line == "data:"@ + value {
            match payload_of(rest) {
                Some(more) => Some(trimmed(value) + "\n"@ + more),
                None => Some(trimmed(value)),
            }
        } else {
            payload_of(rest)
        },
{
    let more = data_of(rest);
    if line == "data:"@ + value {
        assert(line.take("data:"@.len() as int) =~= "data:"@);
        assert(line.skip("data:"@.len() as int) =~= value);
        let all = seq![trimmed(value)] + more;
        assert(data_of(text) == all);
        if more.len() > 0 {
            lemma_lines_joined_in_front(trimmed(value), more);
        } else {
            assert(all =~= seq![trimmed(value)]);
        }
    } else {
        assert(data_of(text) == more);
    }
}

/// A payload is made of the `data:` lines of its frame, line by line. Such a line in
/// front adds what it says, trimmed, and a line feed if more follows; any other line in
/// front, a comment or an empty one, adds nothing. Lines end with a line feed, which a
/// carriage return may precede. An empty frame carries nothing.
pub proof fn law_payload_is_made_of_data_lines(line: Seq<char>, value: Seq<char>, rest: Seq<char>)
    requires
        forall|i: int| 0 <= i < line.len() ==> line[i] != '\n',
        line == "data:"@ + value || !begins_with(line, "data:"@),
    ensures
        payload_of(Seq::<char>::empty()) is None,
        ({
            let carried = if line == "data:"@ + value {
                match payload_of(rest) {
                    Some(more) => Some(trimmed(value) + "\n"@ + more),
                    None => Some(trimmed(value)),
                }
            } else {
                payload_of(rest)
            };
            &&& line.len() == 0 || line.last() != '\r' ==> payload_of(line + seq!['\n'] + rest)
                == carried
            &&& payload_of(line + seq!['\r', '\n'] + rest) == carried
        }),
{
    lemma_line_in_front(line, rest);
    assert(data_of(Seq::<char>::empty()).len() == 0);
    let plain = line + seq!['\n'] + rest;
    if line.len() == 0 || line.last() != '\r' {
        lemma_data_in_front(plain, line, value, rest);
    }
    lemma_data_in_front(line + seq!['\r', '\n'] + rest, line, value, rest);
}

/// A last line without a line feed counts like any other.
pub proof fn law_a_last_line_counts(line: Seq<char>, value: Seq<char>)
    requires
        line.len() > 0,
        forall|i: int| 0 <= i < line.len() ==> line[i] != '\n',
        line == "data:"@ + value || !begins_with(line, "data:"@),
    ensures
        payload_of(line) == if line == "data:"@ + value {
            Some(trimmed(value))
        } else {
            None
        },
{
    lemma_line_end_is(line, line.len() as int);
    assert(first_line(line) =~= line);
    assert(other_lines(line) =~= seq![]);
    assert(data_of(seq![]) =~= seq![]);
    if line == "data:"@ + value {
        assert(line.take("data:"@.len() as int) =~= "data:"@);
        assert(line.skip("data:"@.len() as int) =~= value);
        assert(data_of(line) =~= seq![trimmed(value)]);
    }
}

/// A channel is open exactly if the request for it was answered with success.
pub proof fn law_only_success_opens_a_channel(status: Option<u16>, r: EventReader)
    requires
        call_ensures(EventReader::opened, (status,), r),
    ensures
        r.is_open() <==> (status matches Some(code) && 200 <= code <= 299),
        r@.len() == 0,
{
}

/// A transcript or an error is the last event of a channel: it closes it.
pub proof fn law_the_last_event_closes_the_channel(
    reader: &mut EventReader,
    event: RemoteStreamEvent,
    last: bool,
)
    requires
        call_ensures(EventReader::delivered, (reader, &event), last),
    ensures
        last <==> event is Final || event is Error,
        last ==> !final(reader).is_open(),
        !last ==> final(reader).is_open() == old(reader).is_open(),
        final(reader)@ == old(reader)@,
{
}

/// Chunks are put together in the order in which they come, and a closed channel gives
/// nothing more.
pub proof fn law_chunks_are_put_together(
    reader: &mut EventReader,
    chunk: &[u8],
    taken: &mut EventReader,
    payload: Option<String>,
)
    requires
        call_ensures(EventReader::push_chunk, (reader, chunk), ()),
        call_ensures(EventReader::next_payload, (taken,), payload),
    ensures
        final(reader)@ == old(reader)@ + chunk@,
        final(reader).is_open() == old(reader).is_open(),
        final(taken).is_open() == old(taken).is_open(),
        !old(taken).is_open() ==> payload is None && final(taken)@ == old(taken)@,
        old(taken).is_open() ==> match payload {
            Some(said) => payloads_in(old(taken)@) == seq![said@] + payloads_in(final(taken)@),
            None => payloads_in(old(taken)@).len() == 0 && final(taken)@ == bytes_left(
                old(taken)@,
            ),
        },
{
    law_payloads_come_in_order(old(taken)@);
}

/// A frame of one `data:` line is read as what stands in the line.
pub proof fn law_frames_are_read_line_by_line(frame: &str, value: Seq<char>, r: Option<String>)
    requires
        forall|i: int| 0 <= i < value.len() ==> value[i] != '\n' && value[i] != '\r',
        frame@ == "data:"@ + value + "\n\n"@,
        call_ensures(parse_sse_frame, (frame,), r),
    ensures
        r matches Some(payload) && payload@ == trimmed(value),
{
    law_frame_carries_its_line(value);
}

} // verus!
