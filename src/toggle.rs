//! The whole operation on a cache file: classify, transform, reassemble.
use vstd::prelude::*;
use crate::codec::{compress_bound_of, content_size_code, decompressed_of};
use crate::header::{
    assemble, assembled, classification_of, classify, header_of, identifier_of, le_bytes, le_u32,
    marker_of, payload_of, rewrite_header, split_container, tag_of, toggled, Classification,
    FormatError, COMPRESSED_MARKER, HEADER_LEN, IDENTIFIER_OFFSET,
};
use crate::transform::{
    compress_append, compressed_payload, content_size_error, decompress_append, restores,
    TransformError,
};

verus! {

/// Why a cache file could not be toggled.
#[derive(Debug, Clone, Copy, PartialEq, Eq, Structural)]
pub enum ToggleError {
    /// The header was refused.
    Format(FormatError),
    /// The payload could not be transformed.
    Transform(TransformError),
}

/// The result of a toggle that did not fail.
#[derive(Debug)]
pub enum ToggleOutcome {
    /// The file already was in the requested state; whether it is compressed.
    Skipped { compressed: bool },
    /// The whole new file: rewritten header, then the transformed payload.
    Produced(Vec<u8>),
}

/// The file that converting `raw` into the requested state makes.
pub open spec fn converted(raw: Seq<u8>, compress: bool) -> Seq<u8> {
    assembled(
        header_of(raw),
        toggled(identifier_of(raw)),
        if compress {
            compressed_payload(payload_of(raw))
        } else {
            decompressed_of(payload_of(raw))
        },
    )
}

/// `packed` is what compressing the valid raw file `raw` produced.
pub open spec fn compressed_to(raw: Seq<u8>, packed: Seq<u8>) -> bool {
    &&& packed == converted(raw, true)
    &&& restores(payload_of(packed), payload_of(raw))
}

/// `unpacked` is what decompressing the valid compressed file `raw` produced.
pub open spec fn decompressed_to(raw: Seq<u8>, unpacked: Seq<u8>) -> bool {
    unpacked == converted(raw, false)
}

/// Brings the cache file `raw` into the requested state.
///
/// A refused header fails whatever is requested. A file already in the
/// requested state is skipped. Otherwise the result is the header with the
/// toggled identifier, followed by the compressed or decompressed payload.
pub fn toggle_compression(raw: &[u8], compress: bool) -> (r: Result<ToggleOutcome, ToggleError>)
    ensures
        classification_of(raw@) is Err ==> r == Err::<ToggleOutcome, ToggleError>(
            ToggleError::Format(classification_of(raw@)->Err_0),
        ),
        classification_of(raw@) is Ok && classification_of(raw@)->Ok_0.is_compressed == compress
            ==> r is Ok && r->Ok_0 == (ToggleOutcome::Skipped { compressed: compress }),
        classification_of(raw@) is Ok && classification_of(raw@)->Ok_0.is_compressed != compress
            && r is Ok ==> r->Ok_0 is Produced,
        r is Ok && r->Ok_0 is Produced ==> classification_of(raw@) is Ok
            && classification_of(raw@)->Ok_0.is_compressed != compress,
        r is Ok && r->Ok_0 is Produced ==> classification_of(r->Ok_0->Produced_0@) == Ok::<
            Classification,
            FormatError,
        >(
            Classification {
                identifier: toggled(identifier_of(raw@)),
                is_compressed: compress,
                toggled_identifier: identifier_of(raw@),
            },
        ),
        r is Ok && r->Ok_0 is Produced && compress ==> payload_of(r->Ok_0->Produced_0@).len() <= compress_bound_of(
            payload_of(raw@).len() as int,
        ),
        r is Ok && r->Ok_0 is Produced && !compress ==> payload_of(r->Ok_0->Produced_0@).len()
            <= content_size_code(payload_of(raw@)),
        r is Ok && r->Ok_0 is Produced && compress ==> compressed_to(raw@, r->Ok_0->Produced_0@),
        r is Ok && r->Ok_0 is Produced && !compress ==> decompressed_to(
            raw@,
            r->Ok_0->Produced_0@,
        ),
        classification_of(raw@) is Ok && classification_of(raw@)->Ok_0.is_compressed != compress
            && compress && r is Err ==> r->Err_0 is Transform && (r->Err_0->Transform_0 is OutOfMemory
            || r->Err_0->Transform_0 is CodecError),
        classification_of(raw@) is Ok && classification_of(raw@)->Ok_0.is_compressed != compress
            && compress && r is Err && r->Err_0->Transform_0 is OutOfMemory ==> r->Err_0
            == ToggleError::Transform(
            TransformError::OutOfMemory(compress_bound_of(payload_of(raw@).len() as int) as u64),
        ),
        classification_of(raw@) is Ok && classification_of(raw@)->Ok_0.is_compressed != compress
            && !compress && content_size_error(content_size_code(payload_of(raw@))) is Some ==> r
            == Err::<ToggleOutcome, ToggleError>(
            ToggleError::Transform(content_size_error(content_size_code(payload_of(raw@)))->Some_0),
        ),
        classification_of(raw@) is Ok && classification_of(raw@)->Ok_0.is_compressed != compress
            && !compress && content_size_error(content_size_code(payload_of(raw@))) is None && r is Err
            ==> r->Err_0 == ToggleError::Transform(
            TransformError::OutOfMemory(content_size_code(payload_of(raw@))),
        ) || (r->Err_0 is Transform && r->Err_0->Transform_0 is CodecError),
{
    let c = match classify(raw) {
        Ok(c) => c,
        Err(e) => {
            return Err(ToggleError::Format(e));
        },
    };
    if c.is_compressed == compress {
        return Ok(ToggleOutcome::Skipped { compressed: compress });
    }
    let (header, payload) = split_container(raw);
    let mut out = rewrite_header(header, c.toggled_identifier);
    let res = if compress {
        compress_append(&mut out, payload)
    } else {
        decompress_append(&mut out, payload)
    };
    match res {
        Ok(()) => {
            proof {
                let p = out@.subrange(HEADER_LEN as int, out@.len() as int);
                if compress {
                    assert(p =~= compressed_payload(payload@));
                } else {
                    assert(p =~= decompressed_of(payload@));
                }
                assert(out@ =~= assembled(header@, c.toggled_identifier, p));
                lemma_payload_of_assembled(header@, c.toggled_identifier, p);
                lemma_converted_state(raw@, compress);
            }
            Ok(ToggleOutcome::Produced(out))
        },
        Err(e) => Err(ToggleError::Transform(e)),
    }
}

/// The payload of an assembled file is the payload it was assembled from.
pub proof fn lemma_payload_of_assembled(header: Seq<u8>, id: u32, payload: Seq<u8>)
    requires
        header.len() == HEADER_LEN,
    ensures
        header_of(assembled(header, id, payload)).len() == HEADER_LEN,
        payload_of(assembled(header, id, payload)) == payload,
{
    assert(payload_of(assembled(header, id, payload)) =~= payload);
}

/// Reading back the identifier written into an assembled file gives it back.
pub proof fn lemma_identifier_of_assembled(header: Seq<u8>, id: u32, payload: Seq<u8>)
    requires
        header.len() == HEADER_LEN,
    ensures
        identifier_of(assembled(header, id, payload)) == id,
{
    let s = assembled(header, id, payload);
    let o = IDENTIFIER_OFFSET as int;
    assert(s[o] == le_bytes(id)[0]);
    assert(s[o + 1] == le_bytes(id)[1]);
    assert(s[o + 2] == le_bytes(id)[2]);
    assert(s[o + 3] == le_bytes(id)[3]);
    assert(((((id & 0xff) as u8) as u32) | (((((id >> 8u32) & 0xff) as u8) as u32) << 8u32) | (
    ((((id >> 16u32) & 0xff) as u8) as u32) << 16u32) | (((((id >> 24u32) & 0xff) as u8) as u32)
        << 24u32)) == id) by (bit_vector);
}

/// Toggling keeps the engine tag, flips a valid marker, and toggling twice
/// restores the identifier.
pub proof fn lemma_toggled(id: u32)
    requires
        marker_of(id) == COMPRESSED_MARKER || marker_of(id) == 0,
    ensures
        tag_of(toggled(id)) == tag_of(id),
        marker_of(id) == COMPRESSED_MARKER ==> marker_of(toggled(id)) == 0,
        marker_of(id) == 0 ==> marker_of(toggled(id)) == COMPRESSED_MARKER,
        toggled(toggled(id)) == id,
{
    assert(((id & 0xffffu32) & 0xffffu32) == id & 0xffffu32) by (bit_vector);
    assert(((id & 0xffffu32) >> 16u32) == 0u32) by (bit_vector);
    assert(((id & 0xffffu32) | (0x861Au32 << 16u32)) & 0xffffu32 == id & 0xffffu32)
        by (bit_vector);
    assert(((id & 0xffffu32) | (0x861Au32 << 16u32)) >> 16u32 == 0x861Au32) by (bit_vector);
    assert((id >> 16u32) == 0x861Au32 ==> (id & 0xffffu32) | (0x861Au32 << 16u32) == id)
        by (bit_vector);
    assert((id >> 16u32) == 0u32 ==> (id & 0xffffu32) == id) by (bit_vector);
}

/// Converting a valid file gives a valid file in the requested state, with
/// the toggled identifier and the same engine tag; asking again for that
/// state therefore skips it.
pub proof fn lemma_converted_state(raw: Seq<u8>, compress: bool)
    requires
        classification_of(raw) is Ok,
        classification_of(raw)->Ok_0.is_compressed != compress,
    ensures
        classification_of(converted(raw, compress)) == Ok::<Classification, FormatError>(
            Classification {
                identifier: toggled(identifier_of(raw)),
                is_compressed: compress,
                toggled_identifier: identifier_of(raw),
            },
        ),
        tag_of(identifier_of(converted(raw, compress))) == tag_of(identifier_of(raw)),
{
    let id = identifier_of(raw);
    let p = if compress {
        compressed_payload(payload_of(raw))
    } else {
        decompressed_of(payload_of(raw))
    };
    lemma_identifier_of_assembled(header_of(raw), toggled(id), p);
    lemma_toggled(id);
}

/// Compressing a valid raw file and decompressing the result gives the
/// original file back, byte for byte: the payload is restored, the engine tag
/// is kept at each step, and the marker is set, then cleared.
pub proof fn lemma_round_trip(raw: Seq<u8>, packed: Seq<u8>, unpacked: Seq<u8>)
    requires
        classification_of(raw) is Ok,
        !classification_of(raw)->Ok_0.is_compressed,
        compressed_to(raw, packed),
        decompressed_to(packed, unpacked),
    ensures
        marker_of(identifier_of(packed)) == COMPRESSED_MARKER,
        tag_of(identifier_of(packed)) == tag_of(identifier_of(raw)),
        marker_of(identifier_of(unpacked)) == 0,
        tag_of(identifier_of(unpacked)) == tag_of(identifier_of(raw)),
        unpacked == raw,
{
    let id = identifier_of(raw);
    lemma_converted_state(raw, true);
    lemma_toggled(id);
    lemma_payload_of_assembled(header_of(raw), toggled(id), compressed_payload(payload_of(raw)));
    lemma_converted_state(packed, false);
    let h = header_of(packed);
    assert(h =~= assembled(header_of(raw), toggled(id), Seq::empty()));
    assert(unpacked =~= assembled(h, id, payload_of(raw)));
    lemma_identifier_of_assembled(header_of(raw), id, payload_of(raw));
    assert(unpacked =~= raw) by {
        let o = IDENTIFIER_OFFSET as int;
        assert(unpacked.subrange(0, o) =~= raw.subrange(0, o));
        assert(unpacked.subrange(o + 4, unpacked.len() as int) =~= raw.subrange(o + 4, raw.len() as int));
        assert(le_u32(unpacked, o) == le_u32(raw, o));
        assert(unpacked.subrange(o, o + 4) =~= le_bytes(id));
        lemma_le_bytes_of_le_u32(raw, o);
        assert(raw.subrange(o, o + 4) =~= le_bytes(id));
    }
}

/// Writing back an identifier read from four bytes gives those bytes.
pub proof fn lemma_le_bytes_of_le_u32(b: Seq<u8>, at: int)
    requires
        0 <= at,
        at + 4 <= b.len(),
    ensures
        le_bytes(le_u32(b, at)) == b.subrange(at, at + 4),
{
    let (b0, b1, b2, b3) = (b[at], b[at + 1], b[at + 2], b[at + 3]);
    let x = le_u32(b, at);
    assert(x == (b0 as u32) | ((b1 as u32) << 8u32) | ((b2 as u32) << 16u32) | ((b3 as u32) << 24u32));
    assert({
        let y = (b0 as u32) | ((b1 as u32) << 8u32) | ((b2 as u32) << 16u32) | ((b3 as u32) << 24u32);
        &&& (y & 0xff) as u8 == b0
        &&& ((y >> 8u32) & 0xff) as u8 == b1
        &&& ((y >> 16u32) & 0xff) as u8 == b2
        &&& ((y >> 24u32) & 0xff) as u8 == b3
    }) by (bit_vector);
    assert(le_bytes(x) =~= b.subrange(at, at + 4));
}

} // verus!
