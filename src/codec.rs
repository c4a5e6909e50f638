//! The zstd calls the library makes, and what zstd documents of them.
use vstd::prelude::*;

verus! {

/// The content size zstd reports for a frame that does not declare one.
pub const CONTENT_SIZE_UNKNOWN: u64 = 0xFFFF_FFFF_FFFF_FFFF;

/// The content size zstd reports for a buffer that is not a readable frame header.
pub const CONTENT_SIZE_ERROR: u64 = 0xFFFF_FFFF_FFFF_FFFE;

/// The frame that zstd's one-shot compression writes for `src` at `level`
/// into a buffer of `capacity` bytes. The room given can decide how a block
/// is stored, so it is part of what determines the frame.
pub uninterp spec fn zstd_frame_of(src: Seq<u8>, level: int, capacity: int) -> Seq<u8>;

/// What zstd's one-shot decompression makes of `src`, where it succeeds:
/// the concatenated contents of its frames.
pub uninterp spec fn decompressed_of(src: Seq<u8>) -> Seq<u8>;

/// The raw value of `ZSTD_getFrameContentSize` on `src`: the declared size of
/// its first frame, or one of the two special values above.
pub uninterp spec fn content_size_code(src: Seq<u8>) -> u64;

/// zstd's input limit for its compression bound (`ZSTD_MAX_INPUT_SIZE`),
/// which depends on the width of `usize`.
pub open spec fn max_bounded_input() -> int {
    if usize::MAX == 0xFFFF_FFFF_FFFF_FFFF {
        0xFF00_FF00_FF00_FF00
    } else {
        0xFF00_FF00
    }
}

/// What `ZSTD_compressBound` returns for `n` input bytes: the worst-case
/// compressed size below the input limit, else the error code
/// `srcSize_wrong` (72), stored as its negation.
pub open spec fn compress_bound_of(n: int) -> int {
    if n < max_bounded_input() {
        n + n / 256 + if n < 128 * 1024 {
            (128 * 1024 - n) / 2048
        } else {
            0
        }
    } else {
        usize::MAX - 71
    }
}

#[verifier::external_type_specification]
#[verifier::external_body]
pub struct ExContentSizeError(zstd_safe::ContentSizeError);

/// Relies on zstd_safe::compress_bound (ZSTD_compressBound): below the input
/// limit the ZSTD_COMPRESSBOUND formula of zstd.h, at or above it
/// `ERROR(srcSize_wrong)`.
pub assume_specification[ zstd_safe::compress_bound ](src_size: usize) -> (r: usize)
    ensures
        r == compress_bound_of(src_size as int),
;

/// Relies on zstd_safe::get_frame_content_size, which maps the two special
/// values of ZSTD_getFrameContentSize to `Err` and `Ok(None)` and passes any
/// other value on.
pub assume_specification[ zstd_safe::get_frame_content_size ](src: &[u8]) -> (r: Result<Option<u64>, zstd_safe::ContentSizeError>)
    ensures
        content_size_code(src@) == CONTENT_SIZE_ERROR ==> r is Err,
        content_size_code(src@) == CONTENT_SIZE_UNKNOWN ==> r is Ok && r->Ok_0 is None,
        content_size_code(src@) != CONTENT_SIZE_ERROR && content_size_code(src@)
            != CONTENT_SIZE_UNKNOWN ==> r is Ok && r->Ok_0 == Some(content_size_code(src@)),
;

/// Relies on zstd_safe::compress (ZSTD_compress) into a slice: on success it
/// has written the frame of `src` at `level` for a buffer of `dst`'s length,
/// no longer than `dst`, at the start of `dst`, and returns its length. zstd is lossless, and a frame made
/// in one pass always declares its content size (zstd.h, note 3 on
/// ZSTD_getFrameContentSize).
#[verifier::external_body]
pub(crate) fn compress_into(dst: &mut [u8], src: &[u8], level: i32) -> (r: Result<usize, usize>)
    ensures
        final(dst)@.len() == old(dst)@.len(),
        r is Ok ==> r->Ok_0 <= old(dst)@.len(),
        r is Ok ==> final(dst)@.subrange(0, r->Ok_0 as int) == zstd_frame_of(
            src@,
            level as int,
            old(dst)@.len() as int,
        ),
        r is Ok ==> decompressed_of(final(dst)@.subrange(0, r->Ok_0 as int)) == src@,
        r is Ok ==> content_size_code(final(dst)@.subrange(0, r->Ok_0 as int)) == src@.len(),
{
    zstd_safe::compress(dst, src, level)
}

/// Relies on zstd_safe::decompress (ZSTD_decompress) into a slice: on success
/// it has written the decompressed contents of `src`, no longer than `dst`, at
/// the start of `dst`, and returns their length.
#[verifier::external_body]
pub(crate) fn decompress_into(dst: &mut [u8], src: &[u8]) -> (r: Result<usize, usize>)
    ensures
        final(dst)@.len() == old(dst)@.len(),
        r is Ok ==> r->Ok_0 <= old(dst)@.len(),
        r is Ok ==> final(dst)@.subrange(0, r->Ok_0 as int) == decompressed_of(src@),
{
    zstd_safe::decompress(dst, src)
}

/// Relies on Vec::try_reserve_exact: it leaves the contents as they are and
/// reports whether the capacity could be reserved.
#[verifier::external_body]
pub(crate) fn try_reserve_exact(v: &mut Vec<u8>, additional: usize) -> (ok: bool)
    ensures
        final(v)@ == old(v)@,
{
    v.try_reserve_exact(additional).is_ok()
}

} // verus!
