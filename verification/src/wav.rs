//! WAV files in memory: what is uploaded, and what an upload may be.
//!
//! The files themselves are written and read by the `hound` crate.

use vstd::arithmetic::power2::pow2;
use vstd::prelude::*;

use crate::numerals::{decimal, decimal_text};
use crate::pcm::{law_pcm_round_trip, pcm, samples_of};
use crate::text::joined;

verus! {

/// Sample rate that every transcription engine expects.
pub const TARGET_SAMPLE_RATE: u32 = 16_000;

/// How the samples of a WAV file are stored.
#[derive(Clone, Copy, Debug, PartialEq, Eq, Structural)]
pub struct WavFormat {
    pub channels: u16,
    pub sample_rate: u32,
    pub bits_per_sample: u16,
    /// Whether the samples are floating-point numbers rather than integers.
    pub is_float: bool,
}

/// The format of everything that is recorded or uploaded from here: one channel
/// of 16-bit samples at [`TARGET_SAMPLE_RATE`].
pub open spec fn recording_format_spec() -> WavFormat {
    WavFormat {
        channels: 1,
        sample_rate: TARGET_SAMPLE_RATE,
        bits_per_sample: 16,
        is_float: false,
    }
}

/// The format of everything that is recorded or uploaded from here.
pub fn recording_format() -> (r: WavFormat)
    ensures
        r == recording_format_spec(),
{
    WavFormat { channels: 1, sample_rate: TARGET_SAMPLE_RATE, bits_per_sample: 16, is_float: false }
}

/// A 16-bit number, low byte first.
pub open spec fn le16(n: int) -> Seq<u8> {
    seq![(n % 0x100) as u8, (n / 0x100 % 0x100) as u8]
}

/// A 32-bit number, low byte first.
pub open spec fn le32(n: int) -> Seq<u8> {
    le16(n % 0x1_0000) + le16(n / 0x1_0000)
}

/// A WAV file of one channel of 16-bit samples: the `RIFF` header with the size
/// of what follows, the `fmt ` chunk, and the `data` chunk with the samples.
pub open spec fn wav_file(sample_rate: u32, samples: Seq<i16>) -> Seq<u8> {
    seq![0x52u8, 0x49, 0x46, 0x46] + le32(36 + 2 * samples.len() as int) + seq![
        0x57u8,
        0x41,
        0x56,
        0x45,
        0x66,
        0x6d,
        0x74,
        0x20,
    ] + le32(16) + le16(1) + le16(1) + le32(sample_rate as int) + le32(2 * sample_rate) + le16(2)
        + le16(16) + seq![0x64u8, 0x61, 0x74, 0x61] + le32(2 * samples.len() as int) + pcm(samples)
}

/// Whether so many 16-bit samples fit in a WAV file, whose sizes are 32-bit
/// numbers.
pub open spec fn fits_in_wav(sample_count: int) -> bool {
    36 + 2 * sample_count <= u32::MAX
}

/// Writes a WAV file of one channel of 16-bit samples with `hound`'s
/// `WavWriter`: `new` on an empty buffer in memory, `write_sample` for each
/// sample, and `finalize`.
///
/// The contract claims that this never fails, and that what the buffer holds in
/// the end is [`wav_file`].
#[verifier::external_body]
fn write_wav(format: WavFormat, samples: &[i16]) -> (r: Result<Vec<u8>, String>)
    requires
        format.channels == 1,
        format.bits_per_sample == 16,
        !format.is_float,
        0 < 2 * format.sample_rate <= u32::MAX,
        fits_in_wav(samples@.len() as int),
    ensures
        r is Ok,
        r->Ok_0@ == wav_file(format.sample_rate, samples@),
{
    let spec = hound::WavSpec {
        channels: format.channels,
        sample_rate: format.sample_rate,
        bits_per_sample: format.bits_per_sample,
        sample_format: hound::SampleFormat::Int,
    };
    let mut buffer = std::io::Cursor::new(Vec::new());
    let mut writer = hound::WavWriter::new(&mut buffer, spec).map_err(|e| e.to_string())?;
    for &sample in samples {
        writer.write_sample(sample).map_err(|e| e.to_string())?;
    }
    writer.finalize().map_err(|e| e.to_string())?;
    Ok(buffer.into_inner())
}

/// What `hound` reads from the header of a WAV file, or why it refuses the file.
pub uninterp spec fn wav_header(bytes: Seq<u8>) -> Result<WavFormat, Seq<char>>;

/// What `hound` reads as the integer samples of a WAV file, the channels
/// interleaved, or why it refuses the file.
pub uninterp spec fn wav_samples(bytes: Seq<u8>) -> Result<Seq<i32>, Seq<char>>;

/// A read header, its refusal taken by what it says.
pub open spec fn header_view(r: Result<WavFormat, String>) -> Result<WavFormat, Seq<char>> {
    match r {
        Ok(format) => Ok(format),
        Err(reason) => Err(reason@),
    }
}

/// Read samples, their refusal taken by what it says.
pub open spec fn samples_view(r: Result<Vec<i32>, String>) -> Result<Seq<i32>, Seq<char>> {
    match r {
        Ok(samples) => Ok(samples@),
        Err(reason) => Err(reason@),
    }
}

/// Reads the header of a WAV file with `hound`'s `WavReader::new` and `spec`.
///
/// The contract names the result [`wav_header`], and claims that the header of a
/// file that [`wav_file`] describes is the one it was written with, and that bytes
/// which do not begin as a WAV file are refused.
#[verifier::external_body]
fn read_wav_header(bytes: &[u8]) -> (r: Result<WavFormat, String>)
    ensures
        header_view(r) == wav_header(bytes@),
        !looks_like_wav(bytes@) ==> r is Err,
        forall|sample_rate: u32, samples: Seq<i16>|
            bytes@ == #[trigger] wav_file(sample_rate, samples) && fits_in_wav(
                samples.len() as int,
            ) && 2 * sample_rate <= u32::MAX ==> r is Ok && r->Ok_0 == (WavFormat {
                channels: 1,
                sample_rate,
                bits_per_sample: 16,
                is_float: false,
            }),
{
    let reader = hound::WavReader::new(std::io::Cursor::new(bytes)).map_err(|e| e.to_string())?;
    let spec = reader.spec();
    Ok(WavFormat {
        channels: spec.channels,
        sample_rate: spec.sample_rate,
        bits_per_sample: spec.bits_per_sample,
        is_float: spec.sample_format == hound::SampleFormat::Float,
    })
}

/// Reads the samples of a WAV file with `hound`'s `WavReader::new` and
/// `samples`, as 32-bit integers.
///
/// The contract names the result [`wav_samples`], and claims that the samples of
/// a file that [`wav_file`] describes are those it was written with.
#[verifier::external_body]
fn read_wav_integers(bytes: &[u8]) -> (r: Result<Vec<i32>, String>)
    ensures
        samples_view(r) == wav_samples(bytes@),
        forall|sample_rate: u32, samples: Seq<i16>|
            bytes@ == #[trigger] wav_file(sample_rate, samples) && fits_in_wav(
                samples.len() as int,
            ) && 2 * sample_rate <= u32::MAX ==> r is Ok && r->Ok_0@ == widened(samples),
{
    let mut reader = hound::WavReader::new(std::io::Cursor::new(bytes)).map_err(|e| e.to_string())?;
    let samples: Result<Vec<i32>, hound::Error> = reader.samples::<i32>().collect();
    samples.map_err(|e| e.to_string())
}

/// 16-bit samples as 32-bit integers.
pub open spec fn widened(samples: Seq<i16>) -> Seq<i32> {
    Seq::new(samples.len(), |i: int| samples[i] as i32)
}

/// Encodes 16-bit samples into a WAV file in memory, in [`recording_format`].
pub fn encode_wav_bytes(samples: &[i16]) -> (r: Result<Vec<u8>, WavError>)
    requires
        fits_in_wav(samples@.len() as int),
    ensures
        r matches Ok(bytes) && bytes@ == wav_file(TARGET_SAMPLE_RATE, samples@),
{
    match write_wav(recording_format(), samples) {
        Ok(bytes) => Ok(bytes),
        Err(reason) => Err(WavError::Malformed { reason }),
    }
}

/// Why audio could not be read from a WAV file.
#[derive(Debug)]
pub enum WavError {
    /// The file is not one that can be read.
    Malformed { reason: String },
    /// The file declares that it has no channels.
    NoChannels,
    /// The file declares samples of a size that nothing can hold.
    UnsupportedDepth { bits: u16 },
    /// The file does not hold as many samples as were written to it.
    SampleCount { expected: u64, actual: u64 },
}

impl WavError {
    /// What the error says.
    pub open spec fn text(&self) -> Seq<char> {
        match self {
            WavError::Malformed { reason } => reason@,
            WavError::NoChannels => "WAV declares zero channels"@,
            WavError::UnsupportedDepth { bits } => "WAV declares an unsupported sample size of "@
                + decimal_text(*bits as nat) + " bits"@,
            WavError::SampleCount { expected, actual } => "WAV sample count mismatch: expected "@
                + decimal_text(*expected as nat) + ", got "@ + decimal_text(*actual as nat),
        }
    }

    /// Says what is wrong with the file.
    pub fn message(&self) -> (r: String)
        ensures
            r@ == self.text(),
    {
        match self {
            WavError::Malformed { reason } => reason.clone(),
            WavError::NoChannels => "WAV declares zero channels".to_owned(),
            WavError::UnsupportedDepth { bits } => {
                let start = joined(
                    "WAV declares an unsupported sample size of ",
                    decimal(*bits as u64).as_str(),
                );
                joined(start.as_str(), " bits")
            },
            WavError::SampleCount { expected, actual } => {
                let start = joined(
                    "WAV sample count mismatch: expected ",
                    decimal(*expected).as_str(),
                );
                let middle = joined(start.as_str(), ", got ");
                joined(middle.as_str(), decimal(*actual).as_str())
            },
        }
    }
}

/// How the samples of an upload are turned into numbers between -1 and 1.
#[derive(Clone, Copy, Debug, PartialEq, Eq, Structural)]
pub enum SampleScale {
    /// They are floating-point numbers already.
    Float,
    /// They are integers, to be divided by this number.
    Integer { full_scale: u64 },
}

/// Whether the samples of a file with such a header can be scaled, and how.
pub open spec fn scale_of(format: WavFormat) -> Result<SampleScale, WavError> {
    if format.channels == 0 {
        Err(WavError::NoChannels)
    } else if format.is_float {
        Ok(SampleScale::Float)
    } else if 1 <= format.bits_per_sample <= 64 {
        Ok(
            SampleScale::Integer {
                full_scale: pow2((format.bits_per_sample - 1) as nat) as u64,
            },
        )
    } else {
        Err(WavError::UnsupportedDepth { bits: format.bits_per_sample })
    }
}

/// Decides how the samples of a file with such a header are scaled: an integer
/// sample of `n` bits by two to the power of `n - 1`.
pub fn sample_scale(format: WavFormat) -> (r: Result<SampleScale, WavError>)
    ensures
        r == scale_of(format),
        1 <= format.bits_per_sample <= 64 ==> pow2((format.bits_per_sample - 1) as nat) <= u64::MAX,
        format.channels == 0 ==> r matches Err(WavError::NoChannels),
        format.channels > 0 && format.is_float ==> r matches Ok(SampleScale::Float),
        format.channels > 0 && !format.is_float && 1 <= format.bits_per_sample <= 64 ==> (
        r matches Ok(SampleScale::Integer { full_scale }) && full_scale == pow2(
            (format.bits_per_sample - 1) as nat,
        )),
        format.channels > 0 && !format.is_float && !(1 <= format.bits_per_sample <= 64) ==> (
        r matches Err(WavError::UnsupportedDepth { bits }) && bits == format.bits_per_sample),
{
    proof {
        if 1 <= format.bits_per_sample <= 64 {
            vstd::arithmetic::power2::lemma_pow2_strictly_increases(
                (format.bits_per_sample - 1) as nat,
                64,
            );
            vstd::arithmetic::power2::lemma2_to64();
        }
    }
    if format.channels == 0 {
        return Err(WavError::NoChannels);
    }
    if format.is_float {
        return Ok(SampleScale::Float);
    }
    if format.bits_per_sample == 0 || format.bits_per_sample > 64 {
        return Err(WavError::UnsupportedDepth { bits: format.bits_per_sample });
    }
    let shift: u64 = (format.bits_per_sample - 1) as u64;
    let full_scale: u64 = 1u64 << shift;
    proof {
        vstd::bits::lemma_u64_shl_is_mul(1, shift);
    }
    Ok(SampleScale::Integer { full_scale })
}

/// An upload as it was read, before its channels are averaged and its rate is
/// changed.
#[derive(Debug)]
pub struct DecodedWav {
    pub format: WavFormat,
    pub scale: SampleScale,
    /// The samples, channels interleaved. There is none where the samples are
    /// floating-point numbers: those are read by the caller.
    pub integers: Vec<i32>,
}

/// What there is to know of a decoded upload.
pub struct Decoded {
    pub format: WavFormat,
    pub scale: SampleScale,
    pub integers: Seq<i32>,
}

impl View for DecodedWav {
    type V = Decoded;

    open spec fn view(&self) -> Decoded {
        Decoded { format: self.format, scale: self.scale, integers: self.integers@ }
    }
}

/// The audio of an upload whose header and samples have been read, or what is
/// wrong with it. What is wrong with the header is found out first.
pub open spec fn decoded(
    header: Result<WavFormat, Seq<char>>,
    samples: Result<Seq<i32>, Seq<char>>,
) -> Result<Decoded, Seq<char>> {
    match header {
        Err(reason) => Err(reason),
        Ok(format) => match scale_of(format) {
            Err(error) => Err(error.text()),
            Ok(SampleScale::Float) => Ok(
                Decoded { format, scale: SampleScale::Float, integers: seq![] },
            ),
            Ok(scale) => match samples {
                Err(reason) => Err(reason),
                Ok(integers) => Ok(Decoded { format, scale, integers }),
            },
        },
    }
}

/// A decoded upload, an error taken by what it says.
pub open spec fn decoded_view(r: Result<DecodedWav, WavError>) -> Result<Decoded, Seq<char>> {
    match r {
        Ok(wav) => Ok(wav@),
        Err(error) => Err(error.text()),
    }
}

/// Puts together what was read of an upload: `samples` are its integer samples,
/// which matter only where its header is in order and says that there are such.
pub fn assemble_wav(format: WavFormat, samples: Result<Vec<i32>, String>) -> (r: Result<
    DecodedWav,
    WavError,
>)
    ensures
        decoded_view(r) == decoded(Ok(format), samples_view(samples)),
{
    match sample_scale(format) {
        Err(error) => Err(error),
        Ok(SampleScale::Float) => {
            let integers: Vec<i32> = Vec::new();
            assert(integers@ =~= seq![]);
            Ok(DecodedWav { format, scale: SampleScale::Float, integers })
        },
        Ok(scale) => match samples {
            Err(reason) => Err(WavError::Malformed { reason }),
            Ok(integers) => Ok(DecodedWav { format, scale, integers }),
        },
    }
}

/// Decodes an uploaded WAV file of any bit depth, channel count and sample rate.
///
/// A file that [`encode_wav_bytes`] wrote gives back the samples it was written
/// with. Bytes that do not begin as a WAV file are refused.
pub fn decode_wav_bytes(bytes: &[u8]) -> (r: Result<DecodedWav, WavError>)
    ensures
        decoded_view(r) == decoded(wav_header(bytes@), wav_samples(bytes@)),
        !looks_like_wav(bytes@) ==> r is Err,
        r matches Ok(wav) ==> {
            &&& wav_header(bytes@) == Ok::<WavFormat, Seq<char>>(wav.format)
            &&& wav.format.channels > 0
            &&& wav.format.is_float ==> wav.scale is Float && wav.integers@.len() == 0
            &&& !wav.format.is_float ==> {
                &&& 1 <= wav.format.bits_per_sample <= 64
                &&& wav.scale matches SampleScale::Integer { full_scale }
                &&& full_scale == pow2((wav.format.bits_per_sample - 1) as nat)
                &&& wav_samples(bytes@) == Ok::<Seq<i32>, Seq<char>>(wav.integers@)
            }
        },
        forall|samples: Seq<i16>|
            bytes@ == #[trigger] wav_file(TARGET_SAMPLE_RATE, samples) && fits_in_wav(
                samples.len() as int,
            ) ==> (r matches Ok(wav) && wav.format == recording_format_spec() && wav.scale
                == (SampleScale::Integer { full_scale: 0x8000 }) && wav.integers@ == widened(
                samples,
            )),
{
    proof {
        vstd::arithmetic::power2::lemma2_to64();
    }
    match read_wav_header(bytes) {
        Err(reason) => Err(WavError::Malformed { reason }),
        Ok(format) => {
            let samples = read_wav_integers(bytes);
            proof {
                law_divisor_follows_from_the_depth(format);
            }
            assemble_wav(format, samples)
        },
    }
}

/// The bounds of the frames of `count` interleaved samples: each frame holds one
/// sample per channel, the last of them perhaps fewer.
pub open spec fn frame_bounds(count: int, channels: int) -> Seq<(int, int)> {
    Seq::new(
        ((count + channels - 1) / channels) as nat,
        |i: int|
            (
                i * channels,
                if (i + 1) * channels < count {
                    (i + 1) * channels
                } else {
                    count
                },
            ),
    )
}

/// The frames that are averaged into one sample each when the channels of
/// `count` interleaved samples are mixed down.
pub fn mono_frames(count: usize, channels: u16) -> (frames: Vec<(usize, usize)>)
    requires
        channels > 0,
    ensures
        frames@.len() == frame_bounds(count as int, channels as int).len(),
        forall|i: int|
            0 <= i < frames@.len() ==> {
                &&& (#[trigger] frames@[i]).0 == frame_bounds(count as int, channels as int)[i].0
                &&& frames@[i].1 == frame_bounds(count as int, channels as int)[i].1
                &&& frames@[i].0 < frames@[i].1 <= count
            },
{
    let mut frames: Vec<(usize, usize)> = Vec::new();
    let width: usize = channels as usize;
    let mut at: usize = 0;
    assert(frames@.len() * width == 0) by (nonlinear_arith)
        requires
            frames@.len() == 0,
    ;
    while at < count
        invariant
            width == channels > 0,
            at <= count,
            at == count || at == frames@.len() * width,
            frames@.len() > 0 ==> (frames@.len() - 1) * width < count,
            at == count ==> count <= frames@.len() * width,
            forall|i: int|
                0 <= i < frames@.len() ==> {
                    &&& (#[trigger] frames@[i]).0 == i * width
                    &&& frames@[i].1 == if (i + 1) * width < count {
                        (i + 1) * width
                    } else {
                        count as int
                    }
                    &&& frames@[i].0 < frames@[i].1 <= count
                },
        decreases count - at,
    {
        let end: usize = if count - at > width {
            at + width
        } else {
            count
        };
        let ghost n = frames@.len() as int;
        assert((n + 1) * width == n * width + width) by (nonlinear_arith);
        frames.push((at, end));
        at = end;
    }
    proof {
        let n = frames@.len() as int;
        let c = channels as int;
        if n == 0 {
            assert((count + c - 1) / c == 0) by (nonlinear_arith)
                requires
                    count == 0,
                    c > 0,
            ;
        } else {
            assert((n - 1) * c == n * c - c) by (nonlinear_arith);
            vstd::arithmetic::div_mod::lemma_fundamental_div_mod_converse(
                count + c - 1,
                c,
                n,
                count + c - 1 - n * c,
            );
        }
    }
    frames
}

/// Mixing down drops no sample and counts none twice: each lies in exactly one
/// frame, also where the last frame is not complete.
pub proof fn law_every_sample_is_in_one_frame(count: int, channels: int, sample: int, i: int)
    requires
        channels > 0,
        0 <= sample < count,
        0 <= i < frame_bounds(count, channels).len(),
    ensures
        0 <= sample / channels < frame_bounds(count, channels).len(),
        frame_bounds(count, channels)[i].0 <= sample < frame_bounds(count, channels)[i].1 <==> i
            == sample / channels,
{
    let home = sample / channels;
    let frames = (count + channels - 1) / channels;
    assert(home * channels <= sample < (home + 1) * channels && 0 <= home) by (nonlinear_arith)
        requires
            channels > 0,
            0 <= sample,
            home == sample / channels,
    ;
    assert(home < frames) by (nonlinear_arith)
        requires
            channels > 0,
            home * channels <= sample,
            sample < count,
            frames == (count + channels - 1) / channels,
    ;
    if i < home {
        assert((i + 1) * channels <= home * channels) by (nonlinear_arith)
            requires
                channels > 0,
                i < home,
        ;
    }
    if i > home {
        assert((home + 1) * channels <= i * channels) by (nonlinear_arith)
            requires
                channels > 0,
                i > home,
        ;
    }
}

/// Checks that a file holds as many samples as were written to it.
pub fn verify_sample_count(expected: u64, actual: u64) -> (r: Result<(), WavError>)
    ensures
        r == if actual == expected {
            Ok::<(), WavError>(())
        } else {
            Err(WavError::SampleCount { expected, actual })
        },
{
    if actual != expected {
        return Err(WavError::SampleCount { expected, actual });
    }
    Ok(())
}

/// Whether `bytes` begin as a WAV file does: a `RIFF` container of form `WAVE`.
pub open spec fn looks_like_wav(bytes: Seq<u8>) -> bool {
    &&& bytes.len() >= 12
    &&& bytes.subrange(0, 4) == seq![0x52u8, 0x49, 0x46, 0x46]
    &&& bytes.subrange(8, 12) == seq![0x57u8, 0x41, 0x56, 0x45]
}

/// Decides [`looks_like_wav`].
pub fn is_wav(bytes: &[u8]) -> (r: bool)
    ensures
        r == looks_like_wav(bytes@),
{
    if bytes.len() < 12 {
        return false;
    }
    let riff = bytes[0] == 0x52 && bytes[1] == 0x49 && bytes[2] == 0x46 && bytes[3] == 0x46;
    let wave = bytes[8] == 0x57 && bytes[9] == 0x41 && bytes[10] == 0x56 && bytes[11] == 0x45;
    proof {
        let head = bytes@.subrange(0, 4);
        let form = bytes@.subrange(8, 12);
        assert(head[0] == bytes@[0] && head[1] == bytes@[1] && head[2] == bytes@[2] && head[3]
            == bytes@[3]);
        assert(form[0] == bytes@[8] && form[1] == bytes@[9] && form[2] == bytes@[10] && form[3]
            == bytes@[11]);
        if riff {
            assert(head =~= seq![0x52u8, 0x49, 0x46, 0x46]);
        }
        if wave {
            assert(form =~= seq![0x57u8, 0x41, 0x56, 0x45]);
        }
    }
    riff && wave
}

/// Everything that is encoded here passes for a WAV file.
pub proof fn law_encoded_audio_looks_like_wav(sample_rate: u32, samples: Seq<i16>)
    ensures
        looks_like_wav(wav_file(sample_rate, samples)),
{
    let bytes = wav_file(sample_rate, samples);
    assert(bytes.subrange(0, 4) =~= seq![0x52u8, 0x49, 0x46, 0x46]);
    assert(bytes.subrange(8, 12) =~= seq![0x57u8, 0x41, 0x56, 0x45]);
}

/// The divisor of integer samples follows from their declared depth alone: it is two to
/// the power of one less than the bits, whatever the channels and the rate. There is one
/// for every depth from one to sixty-four bits, as long as there is a channel.
pub proof fn law_divisor_follows_from_the_depth(format: WavFormat)
    ensures
        format.channels == 0 ==> scale_of(format) == Err::<SampleScale, WavError>(
            WavError::NoChannels,
        ),
        format.channels > 0 && format.is_float ==> scale_of(format) == Ok::<SampleScale, WavError>(
            SampleScale::Float,
        ),
        format.channels > 0 && !format.is_float && 1 <= format.bits_per_sample <= 64 ==> (scale_of(
            format,
        ) matches Ok(SampleScale::Integer { full_scale }) && full_scale == pow2(
            (format.bits_per_sample - 1) as nat,
        )),
        format.channels > 0 && !format.is_float && !(1 <= format.bits_per_sample <= 64) ==> (
        scale_of(format) matches Err(WavError::UnsupportedDepth { bits }) && bits
            == format.bits_per_sample),
{
    if 1 <= format.bits_per_sample <= 64 {
        vstd::arithmetic::power2::lemma_pow2_strictly_increases(
            (format.bits_per_sample - 1) as nat,
            64,
        );
        vstd::arithmetic::power2::lemma2_to64();
    }
}

/// An integer sample of the declared depth is scaled to a number from minus one up to,
/// but not including, one.
pub proof fn law_scaled_samples_are_within_bounds(format: WavFormat, sample: int)
    requires
        format.channels > 0,
        !format.is_float,
        1 <= format.bits_per_sample <= 64,
        -pow2((format.bits_per_sample - 1) as nat) <= sample < pow2(
            (format.bits_per_sample - 1) as nat,
        ),
    ensures
        scale_of(format) matches Ok(SampleScale::Integer { full_scale }) && -full_scale <= sample
            < full_scale && full_scale > 0,
{
    law_divisor_follows_from_the_depth(format);
    vstd::arithmetic::power2::lemma_pow2_pos((format.bits_per_sample - 1) as nat);
}

/// Whatever was read is passed on unchanged, and whatever was refused is refused for
/// that reason: first the header, then what it declares, then the samples. Files of
/// floating-point samples have no integers.
pub proof fn law_decoding_passes_on_what_was_read(
    header: Result<WavFormat, Seq<char>>,
    samples: Result<Seq<i32>, Seq<char>>,
)
    ensures
        header matches Err(reason) ==> decoded(header, samples) == Err::<Decoded, Seq<char>>(reason),
        header matches Ok(format) ==> {
            let sound = format.channels > 0 && (format.is_float || 1 <= format.bits_per_sample
                <= 64);
            &&& format.channels == 0 ==> decoded(header, samples) == Err::<Decoded, Seq<char>>(
                "WAV declares zero channels"@,
            )
            &&& !sound ==> decoded(header, samples) is Err
            &&& !sound && format.channels > 0 ==> decoded(header, samples) == Err::<
                Decoded,
                Seq<char>,
            >(
                "WAV declares an unsupported sample size of "@ + decimal_text(
                    format.bits_per_sample as nat,
                ) + " bits"@,
            )
            &&& sound && format.is_float ==> (decoded(header, samples) matches Ok(wav) && wav.format
                == format && wav.scale is Float && wav.integers.len() == 0)
            &&& sound && !format.is_float ==> match samples {
                Ok(integers) => decoded(header, samples) matches Ok(wav) && wav.format == format
                    && wav.integers == integers && Ok::<SampleScale, WavError>(wav.scale)
                    == scale_of(format),
                Err(reason) => decoded(header, samples) == Err::<Decoded, Seq<char>>(reason),
            }
        },
{
}

/// The frames of a mix-down follow each other without a gap, from the first sample to
/// the last, and each but the last holds as many samples as there are channels.
pub proof fn law_frames_follow_each_other(count: int, channels: int, i: int)
    requires
        channels > 0,
        count > 0,
        0 <= i < frame_bounds(count, channels).len(),
    ensures
        frame_bounds(count, channels)[0].0 == 0,
        frame_bounds(count, channels).last().1 == count,
        i + 1 < frame_bounds(count, channels).len() ==> {
            &&& frame_bounds(count, channels)[i + 1].0 == frame_bounds(count, channels)[i].1
            &&& frame_bounds(count, channels)[i].1 - frame_bounds(count, channels)[i].0 == channels
        },
{
    let frames = (count + channels - 1) / channels;
    vstd::arithmetic::div_mod::lemma_fundamental_div_mod(count + channels - 1, channels);
    assert(0 * channels == 0);
    assert(channels * frames == frames * channels) by (nonlinear_arith);
    assert(frames * channels >= count);
    assert(frames > 0) by (nonlinear_arith)
        requires
            frames * channels >= count,
            count > 0,
            channels > 0,
    ;
    assert((i + 1) * channels == i * channels + channels) by (nonlinear_arith);
    assert((frames - 1) * channels == frames * channels - channels) by (nonlinear_arith);
    if i + 1 < frames {
        assert((i + 1) * channels <= (frames - 1) * channels) by (nonlinear_arith)
            requires
                i + 1 <= frames - 1,
                channels > 0,
        ;
    }
}

/// Only what says so in its first twelve bytes is taken for a WAV file.
pub proof fn law_wav_files_say_what_they_are(bytes: Seq<u8>)
    ensures
        looks_like_wav(bytes) <==> bytes.len() >= 12 && bytes[0] == 'R' as u8 && bytes[1] == 'I' as u8
            && bytes[2] == 'F' as u8 && bytes[3] == 'F' as u8 && bytes[8] == 'W' as u8 && bytes[9]
            == 'A' as u8 && bytes[10] == 'V' as u8 && bytes[11] == 'E' as u8,
{
    if bytes.len() >= 12 {
        let head = bytes.subrange(0, 4);
        let form = bytes.subrange(8, 12);
        assert(head[0] == bytes[0] && head[1] == bytes[1] && head[2] == bytes[2] && head[3]
            == bytes[3]);
        assert(form[0] == bytes[8] && form[1] == bytes[9] && form[2] == bytes[10] && form[3]
            == bytes[11]);
        if bytes[0] == 0x52 && bytes[1] == 0x49 && bytes[2] == 0x46 && bytes[3] == 0x46 {
            assert(head =~= seq![0x52u8, 0x49, 0x46, 0x46]);
        }
        if bytes[8] == 0x57 && bytes[9] == 0x41 && bytes[10] == 0x56 && bytes[11] == 0x45 {
            assert(form =~= seq![0x57u8, 0x41, 0x56, 0x45]);
        }
    }
}

/// What an error says of the file: the reason as it was given, or the numbers that are
/// wrong, in decimal.
pub proof fn law_errors_name_what_is_wrong(error: WavError)
    ensures
        match error {
            WavError::Malformed { reason } => error.text() == reason@,
            WavError::NoChannels => error.text() == "WAV declares zero channels"@,
            WavError::UnsupportedDepth { bits } => error.text()
                == "WAV declares an unsupported sample size of "@ + decimal_text(bits as nat)
                + " bits"@,
            WavError::SampleCount { expected, actual } => error.text()
                == "WAV sample count mismatch: expected "@ + decimal_text(expected as nat)
                + ", got "@ + decimal_text(actual as nat),
        },
{
}

/// What is recorded here is one channel of 16-bit integers at sixteen kilohertz, of
/// which a WAV file takes what its 32-bit sizes can count.
pub proof fn law_recordings_have_one_format(sample_count: int)
    ensures
        recording_format_spec().channels == 1,
        recording_format_spec().sample_rate == 16_000,
        recording_format_spec().bits_per_sample == 16,
        !recording_format_spec().is_float,
        fits_in_wav(sample_count) <==> 36 + 2 * sample_count <= 0xffff_ffff,
{
}

/// The number that four bytes give, the low one first.
pub open spec fn number_at(bytes: Seq<u8>, at: int) -> int {
    bytes[at] + 0x100 * bytes[at + 1] + 0x1_0000 * bytes[at + 2] + 0x100_0000 * bytes[at + 3]
}

proof fn lemma_le32_is_worth_its_number(n: int)
    requires
        0 <= n <= u32::MAX,
    ensures
        le32(n).len() == 4,
        number_at(le32(n), 0) == n,
{
    let low = n % 0x1_0000;
    let high = n / 0x1_0000;
    assert(low == 0x100 * (low / 0x100 % 0x100) + low % 0x100);
    assert(high == 0x100 * (high / 0x100 % 0x100) + high % 0x100);
    assert(n == 0x1_0000 * high + low);
}

/// A file has a header of 44 bytes, and behind it all the samples and nothing else. The
/// header tells how long the file and the samples are, that there is one channel of 16
/// bits, and the rate.
pub proof fn law_files_hold_all_the_samples(sample_rate: u32, samples: Seq<i16>)
    requires
        fits_in_wav(samples.len() as int),
        2 * sample_rate <= u32::MAX,
    ensures
        ({
            let bytes = wav_file(sample_rate, samples);
            &&& bytes.len() == 44 + 2 * samples.len()
            &&& samples_of(bytes.skip(44)) == samples
            &&& number_at(bytes, 4) == bytes.len() - 8
            &&& number_at(bytes, 16) == 16
            &&& bytes[20] == 1 && bytes[21] == 0
            &&& bytes[22] == 1 && bytes[23] == 0
            &&& number_at(bytes, 24) == sample_rate
            &&& number_at(bytes, 28) == 2 * sample_rate
            &&& bytes[32] == 2 && bytes[33] == 0
            &&& bytes[34] == 16 && bytes[35] == 0
            &&& number_at(bytes, 40) == 2 * samples.len()
        }),
{
    let bytes = wav_file(sample_rate, samples);
    let count = 2 * samples.len() as int;
    lemma_le32_is_worth_its_number(36 + count);
    lemma_le32_is_worth_its_number(16);
    lemma_le32_is_worth_its_number(sample_rate as int);
    lemma_le32_is_worth_its_number(2 * sample_rate);
    lemma_le32_is_worth_its_number(count);
    assert(bytes.len() == 44 + 2 * samples.len());
    assert(bytes.subrange(4, 8) =~= le32(36 + count));
    assert(bytes.subrange(16, 20) =~= le32(16));
    assert(bytes.subrange(24, 28) =~= le32(sample_rate as int));
    assert(bytes.subrange(28, 32) =~= le32(2 * sample_rate));
    assert(bytes.subrange(40, 44) =~= le32(count));
    assert(bytes.skip(44) =~= pcm(samples));
    law_pcm_round_trip(samples);
    lemma_number_at_part(bytes, 4);
    lemma_number_at_part(bytes, 16);
    lemma_number_at_part(bytes, 24);
    lemma_number_at_part(bytes, 28);
    lemma_number_at_part(bytes, 40);
}

proof fn lemma_number_at_part(bytes: Seq<u8>, at: int)
    requires
        0 <= at <= bytes.len() - 4,
    ensures
        number_at(bytes, at) == number_at(bytes.subrange(at, at + 4), 0),
{
}

/// What was read, and what was decoded, is known by what it holds; an error, by what it
/// says.
pub proof fn law_read_files_are_known_by_what_they_hold(
    header: Result<WavFormat, String>,
    samples: Result<Vec<i32>, String>,
    wav: Result<DecodedWav, WavError>,
)
    ensures
        header matches Ok(format) ==> header_view(header) == Ok::<WavFormat, Seq<char>>(format),
        header matches Err(reason) ==> header_view(header) == Err::<WavFormat, Seq<char>>(reason@),
        samples matches Ok(list) ==> samples_view(samples) == Ok::<Seq<i32>, Seq<char>>(list@),
        samples matches Err(reason) ==> samples_view(samples) == Err::<Seq<i32>, Seq<char>>(
            reason@,
        ),
        wav matches Ok(audio) ==> (decoded_view(wav) matches Ok(known) && known.format
            == audio.format && known.scale == audio.scale && known.integers == audio.integers@),
        wav matches Err(error) ==> decoded_view(wav) == Err::<Decoded, Seq<char>>(error.text()),
{
}

/// Widening a sample does not change what it is worth.
pub proof fn law_widened_samples_are_the_same(samples: Seq<i16>, i: int)
    ensures
        widened(samples).len() == samples.len(),
        0 <= i < samples.len() ==> widened(samples)[i] == samples[i],
{
}

/// Integer samples are divided by two to the power of one less than their depth, with
/// however many channels and at whatever rate they come.
pub proof fn law_samples_are_scaled_by_their_depth(
    format: WavFormat,
    r: Result<SampleScale, WavError>,
)
    requires
        call_ensures(sample_scale, (format,), r),
    ensures
        r is Ok <==> format.channels > 0 && (format.is_float || 1 <= format.bits_per_sample <= 64),
        r matches Ok(SampleScale::Integer { full_scale }) ==> !format.is_float && full_scale
            == pow2((format.bits_per_sample - 1) as nat),
        r matches Ok(SampleScale::Float) ==> format.is_float,
        format.channels == 0 ==> r matches Err(WavError::NoChannels),
        r matches Err(WavError::UnsupportedDepth { bits }) ==> bits == format.bits_per_sample,
        r matches Err(error) ==> error is NoChannels || error is UnsupportedDepth,
{
}

/// A decoded file keeps its format and all of its integer samples, to be divided by two
/// to the power of one less than their depth.
pub proof fn law_decoded_files_keep_their_samples(bytes: &[u8], r: Result<DecodedWav, WavError>)
    requires
        call_ensures(decode_wav_bytes, (bytes,), r),
    ensures
        r matches Ok(wav) ==> {
            &&& wav_header(bytes@) == Ok::<WavFormat, Seq<char>>(wav.format)
            &&& wav.format.channels > 0
            &&& wav.format.is_float <==> wav.scale is Float
            &&& !wav.format.is_float ==> {
                &&& wav.scale == (SampleScale::Integer {
                    full_scale: pow2((wav.format.bits_per_sample - 1) as nat) as u64,
                })
                &&& wav_samples(bytes@) == Ok::<Seq<i32>, Seq<char>>(wav.integers@)
            }
        },
{
}

/// What is encoded is the file of all the samples, at sixteen kilohertz; read again, it
/// gives them back.
pub proof fn law_encoded_files_give_the_samples_back(
    samples: &[i16],
    written: Result<Vec<u8>, WavError>,
    bytes: &[u8],
    read: Result<DecodedWav, WavError>,
)
    requires
        fits_in_wav(samples@.len() as int),
        call_ensures(encode_wav_bytes, (samples,), written),
        written matches Ok(file) && file@ == bytes@,
        call_ensures(decode_wav_bytes, (bytes,), read),
    ensures
        bytes@ == wav_file(16_000, samples@),
        read matches Ok(wav) && {
            &&& wav.format.channels == 1
            &&& wav.format.sample_rate == 16_000
            &&& wav.format.bits_per_sample == 16
            &&& wav.scale == (SampleScale::Integer { full_scale: 0x8000 })
            &&& wav.integers@.len() == samples@.len()
            &&& forall|i: int| 0 <= i < samples@.len() ==> #[trigger] wav.integers@[i] == samples@[i]
        },
{
}

/// A file passes the count exactly if it holds as many samples as were written to it.
pub proof fn law_missing_samples_are_noticed(
    expected: u64,
    actual: u64,
    r: Result<(), WavError>,
)
    requires
        call_ensures(verify_sample_count, (expected, actual), r),
    ensures
        r is Ok <==> actual == expected,
        r matches Err(error) ==> error == (WavError::SampleCount { expected, actual }),
{
}

/// The frames of a mix-down hold one sample of each channel, from the first to the last,
/// without a gap; only the last may hold fewer.
pub proof fn law_channels_are_mixed_frame_by_frame(
    count: usize,
    channels: u16,
    frames: Vec<(usize, usize)>,
    i: int,
)
    requires
        channels > 0,
        count > 0,
        call_ensures(mono_frames, (count, channels), frames),
    ensures
        frames@.len() > 0,
        frames@[0].0 == 0,
        frames@.last().1 == count,
        0 <= i < frames@.len() - 1 ==> {
            &&& frames@[i + 1].0 == frames@[i].1
            &&& frames@[i].1 - frames@[i].0 == channels
        },
        0 <= i < frames@.len() ==> frames@[i].0 < frames@[i].1 <= frames@[i].0 + channels,
{
    let bounds = frame_bounds(count as int, channels as int);
    assert((count + channels - 1) / (channels as int) >= 1) by (nonlinear_arith)
        requires
            count > 0,
            channels > 0,
    ;
    law_frames_follow_each_other(count as int, channels as int, 0);
    if 0 <= i < frames@.len() {
        law_frames_follow_each_other(count as int, channels as int, i);
        assert((i + 1) * channels == i * channels + channels) by (nonlinear_arith);
        assert(frames@[i].0 == bounds[i].0 && frames@[i].1 == bounds[i].1);
        if i + 1 < frames@.len() {
            assert(frames@[i + 1].0 == bounds[i + 1].0);
        }
    }
    let last = frames@.len() - 1;
    assert(frames@[last].1 == bounds[last].1);
    assert(frames@[0].0 == bounds[0].0);
}

} // verus!
