use vstd::prelude::*;

verus! {

/// Length of the fixed header that precedes the payload.
pub const HEADER_LEN: usize = 2048;

/// Byte offset of the little-endian format identifier inside the header.
pub const IDENTIFIER_OFFSET: usize = 4;

/// Upper 16 bits of the identifier of a file whose payload is compressed.
pub const COMPRESSED_MARKER: u32 = 0x861A;

/// First engine tag this tool accepts.
pub const ENGINE_TAG_0261: u32 = 0x0261;

/// Second engine tag this tool accepts.
pub const ENGINE_TAG_0007: u32 = 0x0007;

/// Why a buffer is not a cache file this tool can handle.
#[derive(Debug, Clone, Copy, PartialEq, Eq, Structural)]
pub enum FormatError {
    /// Shorter than the header.
    TooSmall,
    /// The marker (upper 16 bits of the identifier) is neither compressed nor raw.
    InvalidMarker(u32),
    /// The marker is valid but the engine tag is not one this tool accepts.
    UnsupportedEngineTag(u32),
}

/// The little-endian `u32` stored in `b[at..at + 4]`.
pub open spec fn le_u32(b: Seq<u8>, at: int) -> u32 {
    (b[at] as u32) | ((b[at + 1] as u32) << 8u32) | ((b[at + 2] as u32) << 16u32) | ((b[at + 3]
        as u32) << 24u32)
}

/// The four little-endian bytes of `x`.
pub open spec fn le_bytes(x: u32) -> Seq<u8> {
    seq![(x & 0xff) as u8, ((x >> 8u32) & 0xff) as u8, ((x >> 16u32) & 0xff) as u8, ((x >> 24u32) & 0xff) as u8]
}

/// The format identifier of a buffer at least as long as the header.
pub open spec fn identifier_of(raw: Seq<u8>) -> u32 {
    le_u32(raw, IDENTIFIER_OFFSET as int)
}

/// The compression marker: the upper 16 bits of an identifier.
pub open spec fn marker_of(id: u32) -> u32 {
    id >> 16u32
}

/// The engine tag: the lower 16 bits of an identifier.
pub open spec fn tag_of(id: u32) -> u32 {
    id & 0xffffu32
}

pub open spec fn is_valid_marker(id: u32) -> bool {
    marker_of(id) == COMPRESSED_MARKER || marker_of(id) == 0
}

pub open spec fn is_recognized_tag(id: u32) -> bool {
    tag_of(id) == ENGINE_TAG_0261 || tag_of(id) == ENGINE_TAG_0007
}

/// The identifier for the opposite state: same engine tag, marker set or cleared.
pub open spec fn toggled(id: u32) -> u32 {
    if marker_of(id) == COMPRESSED_MARKER {
        tag_of(id)
    } else {
        tag_of(id) | (COMPRESSED_MARKER << 16u32)
    }
}

/// The verdict on a buffer: its identifier, whether its payload is compressed,
/// and the identifier it carries once toggled; or why it is refused.
pub open spec fn classification_of(raw: Seq<u8>) -> Result<Classification, FormatError> {
    if raw.len() < HEADER_LEN {
        Err(FormatError::TooSmall)
    } else {
        let id = identifier_of(raw);
        if !is_valid_marker(id) {
            Err(FormatError::InvalidMarker(id))
        } else if !is_recognized_tag(id) {
            Err(FormatError::UnsupportedEngineTag(id))
        } else {
            Ok(
                Classification {
                    identifier: id,
                    is_compressed: marker_of(id) == COMPRESSED_MARKER,
                    toggled_identifier: toggled(id),
                },
            )
        }
    }
}

/// The header of a buffer at least as long as the header.
pub open spec fn header_of(raw: Seq<u8>) -> Seq<u8> {
    raw.subrange(0, HEADER_LEN as int)
}

/// What follows the header.
pub open spec fn payload_of(raw: Seq<u8>) -> Seq<u8> {
    raw.subrange(HEADER_LEN as int, raw.len() as int)
}

/// `header` with the identifier replaced by `id`, followed by `payload`.
pub open spec fn assembled(header: Seq<u8>, id: u32, payload: Seq<u8>) -> Seq<u8> {
    header.subrange(0, IDENTIFIER_OFFSET as int) + le_bytes(id) + header.subrange(
        IDENTIFIER_OFFSET + 4,
        header.len() as int,
    ) + payload
}

/// What a valid header says about its file.
#[derive(Debug, Clone, Copy, PartialEq, Eq, Structural)]
pub struct Classification {
    /// The identifier as stored in the header.
    pub identifier: u32,
    /// Whether the payload is compressed.
    pub is_compressed: bool,
    /// The identifier for the opposite state.
    pub toggled_identifier: u32,
}

/// Reads the little-endian `u32` at `b[at..at + 4]`.
pub fn read_le_u32(b: &[u8], at: usize) -> (r: u32)
    requires
        at + 4 <= b@.len(),
    ensures
        r == le_u32(b@, at as int),
{
    (b[at] as u32) | ((b[at + 1] as u32) << 8u32) | ((b[at + 2] as u32) << 16u32) | ((b[at + 3]
        as u32) << 24u32)
}

/// The identifier for the opposite state of a valid identifier.
pub fn toggle_identifier(id: u32) -> (r: u32)
    ensures
        r == toggled(id),
{
    let low = id & 0xffff;
    if id >> 16u32 == COMPRESSED_MARKER {
        low
    } else {
        low | (COMPRESSED_MARKER << 16u32)
    }
}

/// Parses and validates the header of `raw`.
///
/// Fails with `TooSmall` below the header length, then with `InvalidMarker`
/// when the marker is neither compressed nor raw, then with
/// `UnsupportedEngineTag` when the engine tag is not recognized.
pub fn classify(raw: &[u8]) -> (r: Result<Classification, FormatError>)
    ensures
        r == classification_of(raw@),
        raw@.len() < HEADER_LEN ==> r == Err::<Classification, FormatError>(FormatError::TooSmall),
        raw@.len() >= HEADER_LEN && !is_valid_marker(identifier_of(raw@)) ==> r == Err::<
            Classification,
            FormatError,
        >(FormatError::InvalidMarker(identifier_of(raw@))),
        raw@.len() >= HEADER_LEN && is_valid_marker(identifier_of(raw@)) && !is_recognized_tag(
            identifier_of(raw@),
        ) ==> r == Err::<Classification, FormatError>(
            FormatError::UnsupportedEngineTag(identifier_of(raw@)),
        ),
{
    if raw.len() < HEADER_LEN {
        return Err(FormatError::TooSmall);
    }
    let id = read_le_u32(raw, IDENTIFIER_OFFSET);
    let high = id >> 16u32;
    let low = id & 0xffff;
    let is_compressed = high == COMPRESSED_MARKER;
    let is_raw = high == 0;
    if !is_compressed && !is_raw {
        return Err(FormatError::InvalidMarker(id));
    }
    if low != ENGINE_TAG_0261 && low != ENGINE_TAG_0007 {
        return Err(FormatError::UnsupportedEngineTag(id));
    }
    Ok(Classification { identifier: id, is_compressed, toggled_identifier: toggle_identifier(id) })
}

/// Splits `raw` into its header and its payload.
pub fn split_container(raw: &[u8]) -> (r: (&[u8], &[u8]))
    requires
        raw@.len() >= HEADER_LEN,
    ensures
        r.0@ == header_of(raw@),
        r.1@ == payload_of(raw@),
{
    raw.split_at(HEADER_LEN)
}

/// A copy of `header` whose identifier is replaced by `id`.
pub fn rewrite_header(header: &[u8], id: u32) -> (r: Vec<u8>)
    requires
        header@.len() == HEADER_LEN,
    ensures
        r@ == assembled(header@, id, Seq::empty()),
{
    let mut out: Vec<u8> = Vec::with_capacity(HEADER_LEN);
    out.extend_from_slice(header);
    let bytes: [u8; 4] = [
        (id & 0xff) as u8,
        ((id >> 8u32) & 0xff) as u8,
        ((id >> 16u32) & 0xff) as u8,
        ((id >> 24u32) & 0xff) as u8,
    ];
    let mut i: usize = 0;
    while i < 4
        invariant
            0 <= i <= 4,
            out@.len() == HEADER_LEN,
            bytes@ == le_bytes(id),
            forall|k: int|
                0 <= k < HEADER_LEN ==> #[trigger] out@[k] == if IDENTIFIER_OFFSET <= k
                    < IDENTIFIER_OFFSET + i {
                    bytes@[k - IDENTIFIER_OFFSET]
                } else {
                    header@[k]
                },
        decreases 4 - i,
    {
        out.set(IDENTIFIER_OFFSET + i, bytes[i]);
        i = i + 1;
    }
    assert(out@ =~= assembled(header@, id, Seq::empty()));
    out
}

/// The header of a cache file with its identifier replaced by `id`, followed
/// by `payload`.
pub fn assemble(header: &[u8], id: u32, payload: &[u8]) -> (r: Vec<u8>)
    requires
        header@.len() == HEADER_LEN,
    ensures
        r@ == assembled(header@, id, payload@),
{
    let mut out = rewrite_header(header, id);
    out.extend_from_slice(payload);
    assert(out@ =~= assembled(header@, id, payload@));
    out
}

} // verus!
