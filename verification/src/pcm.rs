//! The wire format of streamed audio: 16-bit samples, little-endian.

use vstd::prelude::*;

verus! {

/// The two's complement of a sample, as an unsigned 16-bit number.
pub open spec fn sample_word(sample: i16) -> int {
    if sample < 0 {
        sample + 0x1_0000
    } else {
        sample as int
    }
}

/// The sample whose two bytes are `low` and `high`.
pub open spec fn sample_of(low: u8, high: u8) -> i16 {
    let word = low + high * 0x100;
    if word >= 0x8000 {
        (word - 0x1_0000) as i16
    } else {
        word as i16
    }
}

/// The bytes of `samples`, the low byte of each before its high byte.
pub open spec fn pcm(samples: Seq<i16>) -> Seq<u8> {
    Seq::new(
        samples.len() * 2,
        |i: int|
            if i % 2 == 0 {
                (sample_word(samples[i / 2]) % 0x100) as u8
            } else {
                (sample_word(samples[i / 2]) / 0x100) as u8
            },
    )
}

/// The samples that `bytes` hold, two bytes each.
pub open spec fn samples_of(bytes: Seq<u8>) -> Seq<i16> {
    Seq::new(bytes.len() / 2, |i: int| sample_of(bytes[2 * i], bytes[2 * i + 1]))
}

/// Encodes samples for the wire.
pub fn pcm_bytes(samples: &[i16]) -> (bytes: Vec<u8>)
    ensures
        bytes@ == pcm(samples@),
        bytes@.len() == samples@.len() * 2,
{
    let mut bytes: Vec<u8> = Vec::new();
    let mut i: usize = 0;
    while i < samples.len()
        invariant
            i <= samples@.len(),
            bytes@ =~= pcm(samples@.take(i as int)),
        decreases samples@.len() - i,
    {
        let sample: i16 = samples[i];
        let word: u16 = sample as u16;
        assert(sample >= 0 ==> word == sample) by (bit_vector)
            requires
                word == sample as u16,
        ;
        assert(sample < 0 ==> word == sample + 0x1_0000) by (bit_vector)
            requires
                word == sample as u16,
        ;
        let ghost before = pcm(samples@.take(i as int));
        bytes.push((word % 0x100) as u8);
        bytes.push((word / 0x100) as u8);
        i = i + 1;
        let ghost after = pcm(samples@.take(i as int));
        assert forall|j: int| 0 <= j < after.len() implies after[j] == bytes@[j] by {
            if j < before.len() {
                assert(samples@.take(i as int)[j / 2] == samples@.take(i - 1)[j / 2]);
                assert(after[j] == before[j]);
            }
        }
    }
    assert(samples@.take(samples@.len() as int) =~= samples@);
    bytes
}

/// Decodes samples from the wire. A chunk with half a sample in it is refused:
/// its framing is broken, and dropping the odd byte would shift all that follows.
pub fn pcm_samples(bytes: &[u8]) -> (r: Option<Vec<i16>>)
    ensures
        r is Some <==> bytes@.len() % 2 == 0,
        r matches Some(samples) ==> samples@ == samples_of(bytes@),
{
    if bytes.len() % 2 != 0 {
        return None;
    }
    let mut samples: Vec<i16> = Vec::new();
    let mut at: usize = 0;
    while at < bytes.len()
        invariant
            at <= bytes@.len(),
            bytes@.len() % 2 == 0,
            at == samples@.len() * 2,
            forall|i: int|
                0 <= i < samples@.len() ==> #[trigger] samples@[i] == sample_of(
                    bytes@[2 * i],
                    bytes@[2 * i + 1],
                ),
        decreases bytes@.len() - at,
    {
        let word: u16 = bytes[at] as u16 + bytes[at + 1] as u16 * 0x100;
        let sample: i16 = word as i16;
        assert(word < 0x8000 ==> sample == word) by (bit_vector)
            requires
                sample == word as i16,
        ;
        assert(word >= 0x8000 ==> sample == word - 0x1_0000) by (bit_vector)
            requires
                sample == word as i16,
        ;
        samples.push(sample);
        at = at + 2;
    }
    assert(samples@ =~= samples_of(bytes@));
    Some(samples)
}

/// What is decoded from encoded samples are those samples.
pub proof fn law_pcm_round_trip(samples: Seq<i16>)
    ensures
        samples_of(pcm(samples)) == samples,
{
    let bytes = pcm(samples);
    assert forall|i: int| 0 <= i < samples.len() implies samples_of(bytes)[i] == samples[i] by {
        assert(bytes[2 * i] == (sample_word(samples[i]) % 0x100) as u8);
        assert(bytes[2 * i + 1] == (sample_word(samples[i]) / 0x100) as u8);
    }
    assert(samples_of(bytes) =~= samples);
}

/// What is encoded from decoded bytes are those bytes.
pub proof fn law_wire_round_trip(bytes: Seq<u8>)
    requires
        bytes.len() % 2 == 0,
    ensures
        pcm(samples_of(bytes)) == bytes,
{
    let samples = samples_of(bytes);
    assert forall|j: int| 0 <= j < bytes.len() implies pcm(samples)[j] == bytes[j] by {
        let i = j / 2;
        assert(samples[i] == sample_of(bytes[2 * i], bytes[2 * i + 1]));
        assert(j == 2 * i || j == 2 * i + 1);
        assert(sample_word(samples[i]) == bytes[2 * i] + bytes[2 * i + 1] * 0x100);
    }
    assert(pcm(samples) =~= bytes);
}

/// The wire format is little-endian two's complement: of each sample first the low
/// byte comes and then the high byte, and both together are the sample, but for a
/// negative one more than that by two to the power of sixteen.
pub proof fn law_wire_is_little_endian(samples: Seq<i16>, i: int)
    requires
        0 <= i < samples.len(),
    ensures
        pcm(samples).len() == 2 * samples.len(),
        pcm(samples)[2 * i] + 256 * pcm(samples)[2 * i + 1] == samples[i] + if samples[i] < 0 {
            65536int
        } else {
            0
        },
{
    assert(pcm(samples)[2 * i] == (sample_word(samples[i]) % 0x100) as u8);
    assert(pcm(samples)[2 * i + 1] == (sample_word(samples[i]) / 0x100) as u8);
}

/// Reading the wire format gives one sample for every two bytes, and of any two bytes
/// the sample that they stand for.
pub proof fn law_samples_are_read_from_pairs(bytes: Seq<u8>, i: int)
    requires
        0 <= i < bytes.len() / 2,
    ensures
        samples_of(bytes).len() == bytes.len() / 2,
        samples_of(bytes)[i] == bytes[2 * i] + 256 * bytes[2 * i + 1] - if bytes[2 * i + 1] >= 128 {
            65536int
        } else {
            0
        },
{
}

/// Pieces of a recording can be encoded one by one: their encodings in a row are the
/// encoding of the whole.
pub proof fn law_pieces_are_encoded_in_a_row(first: Seq<i16>, second: Seq<i16>)
    ensures
        pcm(first + second) == pcm(first) + pcm(second),
{
    let whole = first + second;
    assert forall|j: int| 0 <= j < pcm(whole).len() implies pcm(whole)[j] == (pcm(first) + pcm(
        second,
    ))[j] by {
        if j < pcm(first).len() {
            assert(whole[j / 2] == first[j / 2]);
        } else {
            assert(whole[j / 2] == second[j / 2 - first.len()]);
            assert((j - 2 * first.len()) / 2 == j / 2 - first.len());
            assert((j - 2 * first.len()) % 2 == j % 2);
        }
    }
    assert(pcm(whole) =~= pcm(first) + pcm(second));
}

/// Samples are encoded as twice as many bytes, and decoded from as many; an odd number
/// of bytes is refused.
pub proof fn law_encoded_samples_are_decoded(
    samples: &[i16],
    bytes: Vec<u8>,
    wire: &[u8],
    r: Option<Vec<i16>>,
)
    requires
        call_ensures(pcm_bytes, (samples,), bytes),
        call_ensures(pcm_samples, (wire,), r),
    ensures
        bytes@.len() == 2 * samples@.len(),
        r is Some <==> wire@.len() % 2 == 0,
        wire@ == bytes@ ==> (r matches Some(read) && read@ == samples@),
        r matches Some(read) ==> read@.len() == wire@.len() / 2,
{
    law_pcm_round_trip(samples@);
}

} // verus!
