//! Playback duration of an encoded audio stream.
//!
//! The decoder is an outside one. It is handed a stream only where its
//! reading of the stream has been followed to the end and found free of
//! hard failure: that is so for WAVE streams, whose chunks are walked here
//! before the decoder sees them. Of any other stream nothing is claimed; a
//! caller learns from [`duration_if_read`] that the decoder was not asked.

use vstd::prelude::*;

verus! {

/// Why a stream has no duration to report.
#[derive(Debug, Clone, Copy, PartialEq, Eq, Structural)]
pub enum DurationUnavailable {
    /// The decoder refused the stream.
    Undecodable,
    /// The stream decodes, but no total length was found for it.
    UnknownLength,
}

/// The 16-bit number that `data` holds at `at`, low byte first.
pub open spec fn le16(data: Seq<u8>, at: int) -> int {
    data[at] + 256 * data[at + 1]
}

/// The 32-bit number that `data` holds at `at`, low byte first.
pub open spec fn le32(data: Seq<u8>, at: int) -> int {
    data[at] + 256 * data[at + 1] + 65536 * data[at + 2] + 16777216 * data[at + 3]
}

/// Whether `data` holds the four bytes `a b c d` at `at`.
pub open spec fn has_tag(data: Seq<u8>, at: int, a: u8, b: u8, c: u8, d: u8) -> bool {
    data[at] == a && data[at + 1] == b && data[at + 2] == c && data[at + 3] == d
}

/// Whether `bits` is a sample size of integer PCM.
pub open spec fn is_integer_size(bits: int) -> bool {
    bits == 8 || bits == 16 || bits == 24 || bits == 32
}

/// Whether the `len` bytes at `at` are a format chunk that the decoder reads
/// whole and without hard failure: one to eight channels, a sample rate that
/// is not zero, frames of just the size of their samples, and one of
/// - integer PCM in 16, 18 or 40 bytes, with 8, 16, 24 or 32 bits;
/// - floating point in 16, 18 (with no extra data) or 40 bytes, with 32 or 64
///   bits;
/// - A-law or mu-law in 18 bytes with no extra data, with 8 bits;
/// - the extensible format in 40 bytes with 22 of extra data, a container of
///   8, 16, 24 or 32 bits, no more valid bits than that, and a channel mask
///   within its lower 24 bits.
pub open spec fn is_read_format(data: Seq<u8>, at: int, len: int) -> bool {
    let format = le16(data, at);
    let channels = le16(data, at + 2);
    let bits = le16(data, at + 14);
    &&& len >= 16
    &&& at + len <= data.len()
    &&& 1 <= channels <= 8
    &&& le32(data, at + 4) != 0
    &&& le16(data, at + 12) * 8 == channels * bits
    &&& {
        ||| format == 1 && (len == 16 || len == 18 || len == 40) && is_integer_size(bits)
        ||| format == 3 && (len == 16 || len == 40 || (len == 18 && le16(data, at + 16) == 0))
            && (bits == 32 || bits == 64)
        ||| (format == 6 || format == 7) && len == 18 && le16(data, at + 16) == 0 && bits == 8
        ||| format == 0xfffe && len == 40 && le16(data, at + 16) == 22 && is_integer_size(bits)
            && le16(data, at + 18) <= bits && le32(data, at + 20) < 0x100_0000
    }
}

/// Whether the chunks of `data` from `at` on lead the decoder to the sample
/// data: every chunk lies within the bytes; there is one format chunk, which
/// is one that the decoder reads, before the `data` chunk; a `fact` chunk
/// has four bytes; a `LIST` chunk has an even length of four or more; any
/// other chunk is passed over, with a byte of padding behind an odd length.
pub open spec fn reads_to_data(data: Seq<u8>, at: int, format_seen: bool) -> bool
    decreases data.len() - at,
{
    if at < 12 || at + 8 > data.len() {
        false
    } else {
        let len = le32(data, at + 4);
        if has_tag(data, at, 0x64, 0x61, 0x74, 0x61) {
            format_seen
        } else if has_tag(data, at, 0x66, 0x6d, 0x74, 0x20) {
            !format_seen && is_read_format(data, at + 8, len) && reads_to_data(
                data,
                at + 8 + len,
                true,
            )
        } else if has_tag(data, at, 0x66, 0x61, 0x63, 0x74) {
            len == 4 && at + 12 <= data.len() && reads_to_data(data, at + 12, format_seen)
        } else if has_tag(data, at, 0x4c, 0x49, 0x53, 0x54) {
            len >= 4 && len % 2 == 0 && at + 8 + len <= data.len() && reads_to_data(
                data,
                at + 8 + len,
                format_seen,
            )
        } else {
            at + 8 + len + len % 2 <= data.len() && reads_to_data(
                data,
                at + 8 + len + len % 2,
                format_seen,
            )
        }
    }
}

/// Whether `data` is a stream that the decoder is handed: under two
/// gibibytes, a `RIFF` container of form `WAVE` from its first byte on, with
/// chunks that lead the decoder to the sample data.
pub open spec fn decoder_reads(data: Seq<u8>) -> bool {
    &&& 12 <= data.len() < 0x8000_0000
    &&& has_tag(data, 0, 0x52, 0x49, 0x46, 0x46)
    &&& has_tag(data, 8, 0x57, 0x41, 0x56, 0x45)
    &&& reads_to_data(data, 12, false)
}

/// Length of a decoded stream: whole seconds and the nanoseconds beyond them.
pub type StreamLength = (u64, u32);

/// What the decoder makes of an encoded stream: `None` when it refuses the
/// bytes; otherwise the stream's total length, where it found one.
pub uninterp spec fn decoded_length(data: Seq<u8>) -> Option<Option<StreamLength>>;

/// Trusted: `rodio::decoder::DecoderError`, the error with which the decoder
/// refuses a stream. It is carried through unread.
#[verifier::external_type_specification]
#[verifier::external_body]
pub struct ExDecoderError(rodio::decoder::DecoderError);

/// Trusted: opens `data` with `rodio::Decoder::new` over an in-memory cursor
/// and asks the decoder for `rodio::Source::total_duration`, which is handed
/// back as the seconds and nanoseconds that it holds. Nothing is proved of
/// the decoder. The contract only gives its answer a name, as a function of
/// the bytes: an error means that the decoder refused them, `Ok(None)` that
/// it found no total length.
///
/// Admitted are the streams on which the decoder was followed from its
/// probe through the WAVE reader and the PCM decoder to the first decoded
/// packet: there it divides by, shifts by and builds a time base from
/// nothing but what [`decoder_reads`] has found positive and in range. Left
/// out are, among WAVE streams, a sample rate of zero, an extensible format
/// whose container is not 8, 16, 24 or 32 bits wide or whose mask reaches
/// beyond 24 bits, more than eight channels, the ADPCM formats, and chunks
/// that the decoder refuses or that do not lie within the bytes; and every
/// stream of another container, whose readers hold places that fail hard
/// on streams that no test on a few header fields tells apart.
#[verifier::external_body]
fn decode_length(data: Vec<u8>) -> (r: Result<Option<StreamLength>, rodio::decoder::DecoderError>)
    requires
        decoder_reads(data@),
    ensures
        match r {
            Ok(length) => decoded_length(data@) == Some(length),
            Err(_) => decoded_length(data@) is None,
        },
{
    match rodio::Decoder::new(std::io::Cursor::new(data)) {
        Ok(source) => Ok(
            match rodio::Source::total_duration(&source) {
                Some(d) => Some((d.as_secs(), d.subsec_nanos())),
                None => None,
            },
        ),
        Err(e) => Err(e),
    }
}

/// The duration that a decoding outcome stands for: the whole seconds of the
/// length, what lies beyond them dropped.
pub open spec fn duration_of(decoded: Option<Option<StreamLength>>) -> Result<
    u64,
    DurationUnavailable,
> {
    match decoded {
        Some(Some(length)) => Ok(length.0),
        Some(None) => Err(DurationUnavailable::UnknownLength),
        None => Err(DurationUnavailable::Undecodable),
    }
}

/// The 16-bit number at `at`, low byte first.
fn read_le16(data: &Vec<u8>, at: usize) -> (r: u64)
    requires
        at + 2 <= data.len(),
    ensures
        r == le16(data@, at as int),
        r < 0x1_0000,
{
    (data[at] as u64) + 256 * (data[at + 1] as u64)
}

/// The 32-bit number at `at`, low byte first.
fn read_le32(data: &Vec<u8>, at: usize) -> (r: u64)
    requires
        at + 4 <= data.len(),
    ensures
        r == le32(data@, at as int),
        r < 0x1_0000_0000,
{
    (data[at] as u64) + 256 * (data[at + 1] as u64) + 65536 * (data[at + 2] as u64) + 16777216 * (
    data[at + 3] as u64)
}

/// Whether the four bytes `a b c d` stand at `at`.
fn tag_is(data: &Vec<u8>, at: usize, a: u8, b: u8, c: u8, d: u8) -> (r: bool)
    requires
        at + 4 <= data.len(),
    ensures
        r == has_tag(data@, at as int, a, b, c, d),
{
    data[at] == a && data[at + 1] == b && data[at + 2] == c && data[at + 3] == d
}

/// Whether the `len` bytes at `at` are a format chunk that the decoder
/// reads.
fn format_is_read(data: &Vec<u8>, at: usize, len: u64) -> (r: bool)
    requires
        at <= data.len() < 0x8000_0000,
    ensures
        r == is_read_format(data@, at as int, len as int),
{
    if len < 16 || len > (data.len() - at) as u64 {
        return false;
    }
    let format = read_le16(data, at);
    let channels = read_le16(data, at + 2);
    let rate = read_le32(data, at + 4);
    let frame_len = read_le16(data, at + 12);
    let bits = read_le16(data, at + 14);
    if channels < 1 || channels > 8 || rate == 0 {
        return false;
    }
    assert(channels * bits < 0x8_0000) by (nonlinear_arith)
        requires
            channels <= 8,
            bits < 0x1_0000,
    ;
    if frame_len * 8 != channels * bits {
        return false;
    }
    let integer = bits == 8 || bits == 16 || bits == 24 || bits == 32;
    if format == 1 {
        (len == 16 || len == 18 || len == 40) && integer
    } else if format == 3 {
        (bits == 32 || bits == 64) && (len == 16 || len == 40 || (len == 18 && read_le16(
            data,
            at + 16,
        ) == 0))
    } else if format == 6 || format == 7 {
        len == 18 && read_le16(data, at + 16) == 0 && bits == 8
    } else if format == 0xfffe {
        len == 40 && read_le16(data, at + 16) == 22 && integer && read_le16(data, at + 18) <= bits
            && read_le32(data, at + 20) < 0x100_0000
    } else {
        false
    }
}

/// Whether `data` is a stream that the decoder is handed.
pub fn is_read_by_decoder(data: &Vec<u8>) -> (r: bool)
    ensures
        r == decoder_reads(data@),
{
    if data.len() < 12 || data.len() >= 0x8000_0000 {
        return false;
    }
    if !tag_is(data, 0, 0x52, 0x49, 0x46, 0x46) || !tag_is(data, 8, 0x57, 0x41, 0x56, 0x45) {
        return false;
    }
    let mut at: usize = 12;
    let mut format_seen = false;
    loop
        invariant
            12 <= at <= data.len() < 0x8000_0000,
            has_tag(data@, 0, 0x52, 0x49, 0x46, 0x46),
            has_tag(data@, 8, 0x57, 0x41, 0x56, 0x45),
            reads_to_data(data@, 12, false) == reads_to_data(data@, at as int, format_seen),
        decreases data.len() - at,
    {
        if data.len() - at < 8 {
            return false;
        }
        let len: u64 = read_le32(data, at + 4);
        if tag_is(data, at, 0x64, 0x61, 0x74, 0x61) {
            return format_seen;
        }
        let body: usize = at + 8;
        let format = tag_is(data, at, 0x66, 0x6d, 0x74, 0x20);
        let fact = tag_is(data, at, 0x66, 0x61, 0x63, 0x74);
        let list = tag_is(data, at, 0x4c, 0x49, 0x53, 0x54);
        if format && (format_seen || !format_is_read(data, body, len)) {
            return false;
        }
        if fact && len != 4 {
            return false;
        }
        if list && (len < 4 || len % 2 != 0) {
            return false;
        }
        let step: u64 = if format || fact || list {
            len
        } else {
            len + len % 2
        };
        if step > (data.len() - body) as u64 {
            return false;
        }
        at = body + step as usize;
        format_seen = format_seen || format;
    }
}

/// Turns a decoding outcome into a duration in whole seconds, or the reason
/// why there is none.
pub fn duration_from_decoded(decoded: Option<Option<StreamLength>>) -> (r: Result<
    u64,
    DurationUnavailable,
>)
    ensures
        r == duration_of(decoded),
{
    match decoded {
        Some(Some(length)) => Ok(length.0),
        Some(None) => Err(DurationUnavailable::UnknownLength),
        None => Err(DurationUnavailable::Undecodable),
    }
}

/// Duration, in whole seconds, of the audio stream encoded in `data`, as the
/// decoder finds it. The stream has to be one that the decoder is handed;
/// [`duration_if_read`] tests that first.
pub fn get_duration(data: Vec<u8>) -> (r: Result<u64, DurationUnavailable>)
    requires
        decoder_reads(data@),
    ensures
        r == duration_of(decoded_length(data@)),
{
    let decoded = match decode_length(data) {
        Ok(length) => Some(length),
        Err(_) => None,
    };
    duration_from_decoded(decoded)
}

/// What is known of the duration of `data`: nothing where the decoder is
/// not handed the stream, else what the decoder finds.
pub open spec fn known_duration(data: Seq<u8>) -> Option<Result<u64, DurationUnavailable>> {
    if decoder_reads(data) {
        Some(duration_of(decoded_length(data)))
    } else {
        None
    }
}

/// Duration of the stream in `data`, where the decoder is handed it; `None`
/// says that the decoder was not asked, and nothing of the stream.
pub fn duration_if_read(data: Vec<u8>) -> (r: Option<Result<u64, DurationUnavailable>>)
    ensures
        r == known_duration(data@),
{
    if is_read_by_decoder(&data) {
        Some(get_duration(data))
    } else {
        None
    }
}

} // verus!
