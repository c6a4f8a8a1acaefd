//! The framing of the files that hold the scene and the assets: an LZ4 block
//! behind the length of its content.

use vstd::prelude::*;

verus! {

/// What `lz4_flex::decompress_size_prepended` makes of an input: the content,
/// or `None` where it reports an error.
pub uninterp spec fn lz4_block_decoded(input: Seq<u8>) -> Option<Seq<u8>>;

/// The error of `lz4_flex::decompress_size_prepended`.
#[verifier::external_type_specification]
#[verifier::external_body]
pub struct ExDecompressError(lz4_flex::block::DecompressError);

/// The number that four bytes stand for, the least significant byte first.
pub open spec fn little_endian(bytes: Seq<u8>) -> nat {
    (bytes[0] as nat) + (bytes[1] as nat) * 0x100 + (bytes[2] as nat) * 0x1_0000 + (bytes[3] as nat)
        * 0x100_0000
}

/// `lz4_flex::compress_prepend_size`: the input as one LZ4 block, behind the
/// length of the input as four bytes, the least significant first.  The crate
/// documents that `decompress_size_prepended` gives the input back.
#[verifier::external_body]
fn compress_prepend_size(input: &[u8]) -> (output: Vec<u8>)
    requires
        input@.len() <= u32::MAX,
    ensures
        output@.len() >= 4,
        little_endian(output@) == input@.len(),
        lz4_block_decoded(output@) == Some(input@),
{
    lz4_flex::compress_prepend_size(input)
}

/// The longest run of bytes of the value 255 that packed bytes may hold.  The
/// decompression adds such a run up in a 32-bit number, which a run of this
/// length and the byte behind it cannot overflow.
pub const MAX_LENGTH_RUN: usize = 16_843_008;

/// The length of the run of bytes of the value 255 that ends before
/// position `end`.
pub open spec fn length_run(bytes: Seq<u8>, end: int) -> nat
    decreases end,
{
    if end <= 0 || end > bytes.len() || bytes[end - 1] != 0xff {
        0
    } else {
        length_run(bytes, end - 1) + 1
    }
}

/// No run of bytes of the value 255 is longer than `MAX_LENGTH_RUN`.
pub open spec fn length_runs_fit(bytes: Seq<u8>) -> bool {
    forall|end: int| 0 <= end <= bytes.len() ==> length_run(bytes, end) <= MAX_LENGTH_RUN
}

/// `lz4_flex::decompress_size_prepended`, with the crate's checked decoding:
/// the content of a block that stands behind its length.  It reports an error
/// where fewer than four bytes are given, where the content has not the length
/// that the four bytes state, and where the block reaches beyond its input or
/// its output.  Inputs with a longer run of the value 255 than
/// `MAX_LENGTH_RUN` are left out: on them the sum of a length may overflow.
#[verifier::external_body]
fn decompress_size_prepended(input: &[u8]) -> (output: Result<
    Vec<u8>,
    lz4_flex::block::DecompressError,
>)
    requires
        length_runs_fit(input@),
    ensures
        match output {
            Ok(content) => {
                &&& lz4_block_decoded(input@) == Some(content@)
                &&& input@.len() >= 4
                &&& content@.len() == little_endian(input@)
            },
            Err(_) => lz4_block_decoded(input@) is None,
        },
{
    lz4_flex::decompress_size_prepended(input)
}

/// Why bytes could not be packed or unpacked.
#[derive(Clone, Copy, Debug, PartialEq, Eq, Structural)]
pub enum CodecError {
    /// The content is longer than the four bytes of the length can state, or
    /// longer than the caller allows.
    TooLong,
    /// The bytes are no block behind its length.
    Malformed,
    /// The bytes hold a longer run of the value 255 than `MAX_LENGTH_RUN`.
    Overlong,
}

/// The longest content that can be packed.
pub const MAX_CONTENT_LENGTH: u64 = 0xffff_ffff;

/// The length that packed bytes state for their content, or `None` where
/// fewer than the four bytes of the length are there.
pub fn stated_length(packed: &[u8]) -> (length: Option<u32>)
    ensures
        length is Some <==> packed@.len() >= 4,
        length matches Some(n) ==> n == little_endian(packed@),
{
    if packed.len() < 4 {
        return None;
    }
    let b0 = packed[0] as u32;
    let b1 = packed[1] as u32;
    let b2 = packed[2] as u32;
    let b3 = packed[3] as u32;
    Some(b0 + b1 * 0x100 + b2 * 0x1_0000 + b3 * 0x100_0000)
}

/// Whether content of the given length can be packed: its length must be one
/// that four bytes can state.
pub fn can_pack(length: usize) -> (fits: bool)
    ensures
        fits == (length <= MAX_CONTENT_LENGTH),
{
    length as u64 <= MAX_CONTENT_LENGTH
}

/// Packs content for a file: compressed, behind its length.  It is refused
/// exactly where it is longer than `MAX_CONTENT_LENGTH`; what is packed can
/// be unpacked again.
pub fn pack(content: &[u8]) -> (packed: Result<Vec<u8>, CodecError>)
    ensures
        match packed {
            Ok(bytes) => {
                &&& content@.len() <= MAX_CONTENT_LENGTH
                &&& bytes@.len() >= 4
                &&& little_endian(bytes@) == content@.len()
                &&& lz4_block_decoded(bytes@) == Some(content@)
            },
            Err(error) => content@.len() > MAX_CONTENT_LENGTH && error == CodecError::TooLong,
        },
{
    if !can_pack(content.len()) {
        return Err(CodecError::TooLong);
    }
    Ok(compress_prepend_size(content))
}

/// Turns the outcome of the decompression into the library's own terms.
pub fn unpack_outcome(outcome: Result<Vec<u8>, lz4_flex::block::DecompressError>) -> (content:
    Result<Vec<u8>, CodecError>)
    ensures
        match (outcome, content) {
            (Ok(given), Ok(returned)) => returned == given,
            (Err(_), Err(error)) => error == CodecError::Malformed,
            _ => false,
        },
{
    match outcome {
        Ok(content) => Ok(content),
        Err(_) => Err(CodecError::Malformed),
    }
}

/// Whether no run of bytes of the value 255 is longer than
/// `MAX_LENGTH_RUN`.
pub fn check_length_runs(bytes: &[u8]) -> (fit: bool)
    ensures
        fit == length_runs_fit(bytes@),
{
    let mut run: usize = 0;
    let mut end: usize = 0;
    while end < bytes.len()
        invariant
            end <= bytes@.len(),
            run == length_run(bytes@, end as int),
            run <= MAX_LENGTH_RUN,
            forall|earlier: int|
                0 <= earlier <= end ==> length_run(bytes@, earlier) <= MAX_LENGTH_RUN,
        decreases bytes@.len() - end,
    {
        if bytes[end] == 0xff {
            run = run + 1;
        } else {
            run = 0;
        }
        end = end + 1;
        if run > MAX_LENGTH_RUN {
            assert(length_run(bytes@, end as int) > MAX_LENGTH_RUN);
            return false;
        }
    }
    true
}

/// What `unpack` refuses before it looks at the block: bytes that state a
/// longer content than `limit`, and bytes with too long a run of the value
/// 255.
pub open spec fn refused_unread(packed: Seq<u8>, limit: usize) -> Option<CodecError> {
    if packed.len() >= 4 && little_endian(packed) > limit {
        Some(CodecError::TooLong)
    } else if !length_runs_fit(packed) {
        Some(CodecError::Overlong)
    } else {
        None
    }
}

/// Unpacks the bytes of a file: the content of the block, which has the
/// length that the first four bytes state.  The content is allocated at that
/// length before the block is read, so the caller says how long it may be:
/// bytes that state more than `limit` are refused as `TooLong`.  Bytes with
/// too long a run of the value 255 are refused as `Overlong`, and other bytes
/// that are no block behind its length as `Malformed`.
pub fn unpack(packed: &[u8], limit: usize) -> (content: Result<Vec<u8>, CodecError>)
    ensures
        match content {
            Ok(bytes) => {
                &&& refused_unread(packed@, limit) is None
                &&& lz4_block_decoded(packed@) == Some(bytes@)
                &&& packed@.len() >= 4
                &&& bytes@.len() == little_endian(packed@)
                &&& bytes@.len() <= limit
            },
            Err(error) => match refused_unread(packed@, limit) {
                Some(refusal) => error == refusal,
                None => lz4_block_decoded(packed@) is None && error == CodecError::Malformed,
            },
        },
{
    if let Some(length) = stated_length(packed) {
        if length as u64 > limit as u64 {
            return Err(CodecError::TooLong);
        }
    }
    if !check_length_runs(packed) {
        return Err(CodecError::Overlong);
    }
    unpack_outcome(decompress_size_prepended(packed))
}

} // verus!
