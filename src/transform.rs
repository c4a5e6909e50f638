//! Compressing or decompressing a payload into an exactly reserved buffer.
use vstd::prelude::*;
use crate::codec::{
    compress_bound_of, compress_into, content_size_code, decompress_into, decompressed_of,
    try_reserve_exact, zstd_frame_of, CONTENT_SIZE_ERROR, CONTENT_SIZE_UNKNOWN,
};

verus! {

/// The zstd level payloads are compressed at: the maximum.
pub const COMPRESSION_LEVEL: i32 = 22;

/// Why a payload could not be transformed.
#[derive(Debug, Clone, Copy, PartialEq, Eq, Structural)]
pub enum TransformError {
    /// The exact number of bytes could not be reserved.
    OutOfMemory(u64),
    /// The frame does not declare its decompressed size.
    UnknownContentSize,
    /// The payload does not start with a readable frame header.
    CorruptFrame,
    /// The declared decompressed size exceeds what a buffer can hold.
    TooLarge(u64),
    /// zstd reported this error code.
    CodecError(usize),
}

/// The result of a transformation that did not fail.
#[derive(Debug)]
pub enum TransformOutcome {
    /// The payload already was in the requested state.
    Skipped,
    /// The transformed payload.
    Produced(Vec<u8>),
}

/// The frame a payload is compressed to: zstd at the fixed level, into a
/// buffer of exactly zstd's bound for the payload's length.
pub open spec fn compressed_payload(payload: Seq<u8>) -> Seq<u8> {
    zstd_frame_of(payload, COMPRESSION_LEVEL as int, compress_bound_of(payload.len() as int))
}

/// What zstd documents of a frame made from `payload`: it decompresses to
/// `payload` and declares its length.
pub open spec fn restores(frame: Seq<u8>, payload: Seq<u8>) -> bool {
    &&& decompressed_of(frame) == payload
    &&& content_size_code(frame) == payload.len()
}

/// The error that the declared content size `code` decides by itself, if any.
pub open spec fn content_size_error(code: u64) -> Option<TransformError> {
    if code == CONTENT_SIZE_ERROR {
        Some(TransformError::CorruptFrame)
    } else if code == CONTENT_SIZE_UNKNOWN {
        Some(TransformError::UnknownContentSize)
    } else if code > isize::MAX {
        Some(TransformError::TooLarge(code))
    } else {
        None
    }
}

/// How many bytes to reserve for a frame that declares `size`, or why there
/// is no such number.
pub fn decompressed_capacity(size: Option<u64>) -> (r: Result<usize, TransformError>)
    ensures
        size is None ==> r == Err::<usize, TransformError>(TransformError::UnknownContentSize),
        size is Some && size->Some_0 > isize::MAX ==> r == Err::<usize, TransformError>(
            TransformError::TooLarge(size->Some_0),
        ),
        size is Some && size->Some_0 <= isize::MAX ==> r == Ok::<usize, TransformError>(
            size->Some_0 as usize,
        ),
{
    match size {
        None => Err(TransformError::UnknownContentSize),
        Some(n) => {
            if n > isize::MAX as u64 {
                Err(TransformError::TooLarge(n))
            } else {
                Ok(n as usize)
            }
        },
    }
}

/// Appends the compressed frame of `payload` to `out`, after reserving
/// exactly zstd's bound for it. On failure `out` is left as it was.
pub fn compress_append(out: &mut Vec<u8>, payload: &[u8]) -> (r: Result<(), TransformError>)
    ensures
        r is Ok ==> final(out)@ == old(out)@ + compressed_payload(payload@),
        r is Ok ==> restores(compressed_payload(payload@), payload@),
        r is Ok ==> compressed_payload(payload@).len() <= compress_bound_of(
            payload@.len() as int,
        ),
        r is Err ==> final(out)@ == old(out)@,
        r is Err ==> r->Err_0 is OutOfMemory || r->Err_0 is CodecError,
        r is Err && r->Err_0 is OutOfMemory ==> r->Err_0
            == TransformError::OutOfMemory(compress_bound_of(payload@.len() as int) as u64),
{
    let size = zstd_safe::compress_bound(payload.len());
    let to_offset = out.len();
    let end = match to_offset.checked_add(size) {
        Some(e) => e,
        None => {
            return Err(TransformError::OutOfMemory(size as u64));
        },
    };
    if !try_reserve_exact(out, size) {
        return Err(TransformError::OutOfMemory(size as u64));
    }
    out.resize(end, 0u8);
    let res = {
        let (_head, tail) = out.as_mut_slice().split_at_mut(to_offset);
        compress_into(tail, payload, COMPRESSION_LEVEL)
    };
    proof {
        assert(out@.subrange(0, to_offset as int) =~= old(out)@);
    }
    match res {
        Ok(n) => {
            out.truncate(to_offset + n);
            assert(out@ =~= old(out)@ + compressed_payload(payload@));
            Ok(())
        },
        Err(code) => {
            out.truncate(to_offset);
            Err(TransformError::CodecError(code))
        },
    }
}

/// Appends the decompressed contents of the frame `payload` to `out`, after
/// reserving exactly the size the frame declares. On failure `out` is left as
/// it was.
pub fn decompress_append(out: &mut Vec<u8>, payload: &[u8]) -> (r: Result<(), TransformError>)
    ensures
        content_size_error(content_size_code(payload@)) is Some ==> r == Err::<(), TransformError>(
            content_size_error(content_size_code(payload@))->Some_0,
        ),
        r is Ok ==> final(out)@ == old(out)@ + decompressed_of(payload@),
        r is Ok ==> decompressed_of(payload@).len() <= content_size_code(payload@),
        r is Err ==> final(out)@ == old(out)@,
        r is Err && content_size_error(content_size_code(payload@)) is None ==> r
            == Err::<(), TransformError>(TransformError::OutOfMemory(content_size_code(payload@)))
            || r->Err_0 is CodecError,
{
    let size = match zstd_safe::get_frame_content_size(payload) {
        Ok(declared) => match decompressed_capacity(declared) {
            Ok(n) => n,
            Err(e) => {
                return Err(e);
            },
        },
        Err(_) => {
            return Err(TransformError::CorruptFrame);
        },
    };
    let to_offset = out.len();
    let end = match to_offset.checked_add(size) {
        Some(e) => e,
        None => {
            return Err(TransformError::OutOfMemory(size as u64));
        },
    };
    if !try_reserve_exact(out, size) {
        return Err(TransformError::OutOfMemory(size as u64));
    }
    out.resize(end, 0u8);
    let res = {
        let (_head, tail) = out.as_mut_slice().split_at_mut(to_offset);
        decompress_into(tail, payload)
    };
    proof {
        assert(out@.subrange(0, to_offset as int) =~= old(out)@);
    }
    match res {
        Ok(n) => {
            out.truncate(to_offset + n);
            assert(out@ =~= old(out)@ + decompressed_of(payload@));
            Ok(())
        },
        Err(code) => {
            out.truncate(to_offset);
            Err(TransformError::CodecError(code))
        },
    }
}

/// Brings `payload` into the requested state: nothing to do when it already
/// is in it, else a compressed frame or the decompressed contents.
pub fn transform(payload: &[u8], is_compressed: bool, want_compress: bool) -> (r: Result<
    TransformOutcome,
    TransformError,
>)
    ensures
        is_compressed == want_compress ==> r is Ok && r->Ok_0 is Skipped,
        is_compressed != want_compress && r is Ok ==> r->Ok_0 is Produced,
        is_compressed != want_compress && r is Ok && want_compress ==> r->Ok_0->Produced_0@
            == compressed_payload(payload@) && restores(r->Ok_0->Produced_0@, payload@),
        is_compressed != want_compress && r is Ok && !want_compress ==> r->Ok_0->Produced_0@
            == decompressed_of(payload@),
        is_compressed != want_compress && r is Ok && want_compress ==> r->Ok_0->Produced_0@.len()
            <= compress_bound_of(payload@.len() as int),
        is_compressed != want_compress && r is Ok && !want_compress ==> r->Ok_0->Produced_0@.len()
            <= content_size_code(payload@),
        is_compressed != want_compress && want_compress && r is Err ==> r->Err_0 is OutOfMemory
            || r->Err_0 is CodecError,
        is_compressed != want_compress && want_compress && r is Err && r->Err_0 is OutOfMemory
            ==> r->Err_0 == TransformError::OutOfMemory(
            compress_bound_of(payload@.len() as int) as u64,
        ),
        is_compressed != want_compress && !want_compress && content_size_error(
            content_size_code(payload@),
        ) is Some ==> r == Err::<TransformOutcome, TransformError>(
            content_size_error(content_size_code(payload@))->Some_0,
        ),
        is_compressed != want_compress && !want_compress && content_size_error(
            content_size_code(payload@),
        ) is None && r is Err ==> r->Err_0 == TransformError::OutOfMemory(
            content_size_code(payload@),
        ) || r->Err_0 is CodecError,
{
    if is_compressed == want_compress {
        return Ok(TransformOutcome::Skipped);
    }
    let mut out: Vec<u8> = Vec::new();
    let res = if want_compress {
        compress_append(&mut out, payload)
    } else {
        decompress_append(&mut out, payload)
    };
    match res {
        Ok(()) => {
            assert(out@ =~= Seq::empty() + out@);
            Ok(TransformOutcome::Produced(out))
        },
        Err(e) => Err(e),
    }
}

} // verus!
