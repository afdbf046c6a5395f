//! The capture container: a file header, then chunks that each start with an
//! entry header. Only the chunk walk lives here; what the chunks hold is
//! decoded elsewhere.
use crate::stream::le_value;
use vstd::prelude::*;

verus! {

/// Bytes in a file header.
pub const HEADER_SIZE: usize = 56;

/// Bytes in a chunk's entry header.
pub const ENTRY_HEADER_SIZE: usize = 16;

/// Bytes in the hardware description that an ASIC-info chunk holds.
pub const ASIC_INFO_SIZE: usize = 704;

/// Bytes between the entry header of a trace-data chunk and its trace.
pub const SQTT_DATA_PREFIX: usize = 8;

#[derive(Clone, Copy, PartialEq, Eq, Structural, Debug)]
pub struct RgpHeader {
    pub magic_number: u32,
    pub version_major: u32,
    pub version_minor: u32,
    pub flags: u32,
    pub chunk_offset: i32,
    pub second: i32,
    pub minute: i32,
    pub hour: i32,
    pub day_in_month: i32,
    pub month: i32,
    pub year: i32,
    pub day_in_week: i32,
    pub day_in_year: i32,
    pub is_daylight_savings: i32,
}

#[derive(Clone, Copy, PartialEq, Eq, Structural, Debug)]
pub struct ChunkId {
    pub ty: u8,
    pub index: u8,
    pub reserved: u16,
}

#[derive(Clone, Copy, PartialEq, Eq, Structural, Debug)]
pub struct RgpEntryHeader {
    pub chunk_id: ChunkId,
    pub version_major: u16,
    pub version_minor: u16,
    pub size: i32,
    pub reserved: i32,
}

/// The kinds of chunk, numbered from 0 in this order.
#[derive(Clone, Copy, PartialEq, Eq, Structural, Debug)]
pub enum SqttFileChunkType {
    AsicInfo,
    SqttDesc,
    SqttData,
    ApiInfo,
    IsaDatabase,
    QueueEventTimings,
    ClockCalibration,
    CpuInfo,
    SpmDb,
    CodeObjectDatabase,
    CodeObjectLoaderEvents,
    PsoCorrelation,
    InstrumentationTable,
}

/// Why a capture cannot be walked.
#[derive(Clone, Copy, PartialEq, Eq, Structural, Debug)]
pub enum RgpError {
    /// A structure at `offset` runs past the end of the file.
    Truncated { offset: usize },
    /// A chunk declares fewer bytes than its own entry header.
    ChunkTooSmall { offset: usize },
    /// A chunk of a kind that has no number.
    UnknownChunkType(u8),
    /// A trace-data chunk whose trace does not lie within the file.
    ChunkOutOfBounds { offset: usize },
    /// No ASIC-info chunk.
    MissingAsicInfo,
}

/// The little-endian number held by the `n` bytes at `at`.
pub open spec fn le_at(s: Seq<u8>, at: nat, n: nat) -> nat {
    le_value(s.subrange(at as int, (at + n) as int))
}

/// The chunk kind with number `ty`.
pub open spec fn chunk_type_of(ty: u8) -> Option<SqttFileChunkType> {
    if ty == 0 {
        Some(SqttFileChunkType::AsicInfo)
    } else if ty == 1 {
        Some(SqttFileChunkType::SqttDesc)
    } else if ty == 2 {
        Some(SqttFileChunkType::SqttData)
    } else if ty == 3 {
        Some(SqttFileChunkType::ApiInfo)
    } else if ty == 4 {
        Some(SqttFileChunkType::IsaDatabase)
    } else if ty == 5 {
        Some(SqttFileChunkType::QueueEventTimings)
    } else if ty == 6 {
        Some(SqttFileChunkType::ClockCalibration)
    } else if ty == 7 {
        Some(SqttFileChunkType::CpuInfo)
    } else if ty == 8 {
        Some(SqttFileChunkType::SpmDb)
    } else if ty == 9 {
        Some(SqttFileChunkType::CodeObjectDatabase)
    } else if ty == 10 {
        Some(SqttFileChunkType::CodeObjectLoaderEvents)
    } else if ty == 11 {
        Some(SqttFileChunkType::PsoCorrelation)
    } else if ty == 12 {
        Some(SqttFileChunkType::InstrumentationTable)
    } else {
        None
    }
}

impl SqttFileChunkType {
    /// The chunk kind with number `ty`, if any.
    pub fn from_u8(ty: u8) -> (r: Option<SqttFileChunkType>)
        ensures
            r == chunk_type_of(ty),
    {
        match ty {
            0 => Some(SqttFileChunkType::AsicInfo),
            1 => Some(SqttFileChunkType::SqttDesc),
            2 => Some(SqttFileChunkType::SqttData),
            3 => Some(SqttFileChunkType::ApiInfo),
            4 => Some(SqttFileChunkType::IsaDatabase),
            5 => Some(SqttFileChunkType::QueueEventTimings),
            6 => Some(SqttFileChunkType::ClockCalibration),
            7 => Some(SqttFileChunkType::CpuInfo),
            8 => Some(SqttFileChunkType::SpmDb),
            9 => Some(SqttFileChunkType::CodeObjectDatabase),
            10 => Some(SqttFileChunkType::CodeObjectLoaderEvents),
            11 => Some(SqttFileChunkType::PsoCorrelation),
            12 => Some(SqttFileChunkType::InstrumentationTable),
            _ => None,
        }
    }
}

/// Reads two bytes at `at`, little-endian.
fn read_u16(data: &[u8], at: usize) -> (r: u16)
    requires
        at + 2 <= data@.len(),
    ensures
        r as nat == le_at(data@, at as nat, 2),
{
    let b0 = data[at];
    let b1 = data[at + 1];
    let r = (b0 as u16) | (b1 as u16) << 8u16;
    proof {
        assert(r == b0 as u16 + 256 * (b1 as nat)) by (bit_vector)
            requires
                r == (b0 as u16) | (b1 as u16) << 8u16,
        ;
        let w = data@.subrange(at as int, at + 2);
        reveal_with_fuel(le_value, 3);
        assert(w.drop_first().drop_first() =~= Seq::<u8>::empty());
    }
    r
}

/// Reads four bytes at `at`, little-endian.
fn read_u32(data: &[u8], at: usize) -> (r: u32)
    requires
        at + 4 <= data@.len(),
    ensures
        r as nat == le_at(data@, at as nat, 4),
{
    let b0 = data[at];
    let b1 = data[at + 1];
    let b2 = data[at + 2];
    let b3 = data[at + 3];
    let r = (b0 as u32) | (b1 as u32) << 8u32 | (b2 as u32) << 16u32 | (b3 as u32) << 24u32;
    proof {
        assert(r == b0 as u32 + 256 * (b1 as u32 + 256 * (b2 as u32 + 256 * (b3 as nat)))) by (bit_vector)
            requires
                r == (b0 as u32) | (b1 as u32) << 8u32 | (b2 as u32) << 16u32 | (b3 as u32) << 24u32,
        ;
        let w = data@.subrange(at as int, at + 4);
        reveal_with_fuel(le_value, 5);
        assert(w.drop_first().drop_first().drop_first().drop_first() =~= Seq::<u8>::empty());
    }
    r
}

/// The file header at the start of `s`.
pub open spec fn header_of(s: Seq<u8>) -> RgpHeader {
    RgpHeader {
        magic_number: le_at(s, 0, 4) as u32,
        version_major: le_at(s, 4, 4) as u32,
        version_minor: le_at(s, 8, 4) as u32,
        flags: le_at(s, 12, 4) as u32,
        chunk_offset: le_at(s, 16, 4) as u32 as i32,
        second: le_at(s, 20, 4) as u32 as i32,
        minute: le_at(s, 24, 4) as u32 as i32,
        hour: le_at(s, 28, 4) as u32 as i32,
        day_in_month: le_at(s, 32, 4) as u32 as i32,
        month: le_at(s, 36, 4) as u32 as i32,
        year: le_at(s, 40, 4) as u32 as i32,
        day_in_week: le_at(s, 44, 4) as u32 as i32,
        day_in_year: le_at(s, 48, 4) as u32 as i32,
        is_daylight_savings: le_at(s, 52, 4) as u32 as i32,
    }
}

/// The entry header at byte `at` of `s`.
pub open spec fn entry_header_of(s: Seq<u8>, at: nat) -> RgpEntryHeader {
    RgpEntryHeader {
        chunk_id: ChunkId {
            ty: s[at as int],
            index: s[at + 1 as int],
            reserved: le_at(s, at + 2, 2) as u16,
        },
        version_major: le_at(s, at + 4, 2) as u16,
        version_minor: le_at(s, at + 6, 2) as u16,
        size: le_at(s, at + 8, 4) as u32 as i32,
        reserved: le_at(s, at + 12, 4) as u32 as i32,
    }
}

/// The file header, little-endian, at the start of `i`.
pub fn parse_header(i: &[u8]) -> (r: Result<RgpHeader, RgpError>)
    ensures
        i@.len() < HEADER_SIZE ==> r == Err::<RgpHeader, RgpError>(RgpError::Truncated { offset: 0 }),
        i@.len() >= HEADER_SIZE ==> r == Ok::<RgpHeader, RgpError>(header_of(i@)),
{
    if i.len() < HEADER_SIZE {
        return Err(RgpError::Truncated { offset: 0 });
    }
    Ok(RgpHeader {
        magic_number: read_u32(i, 0),
        version_major: read_u32(i, 4),
        version_minor: read_u32(i, 8),
        flags: read_u32(i, 12),
        chunk_offset: read_u32(i, 16) as i32,
        second: read_u32(i, 20) as i32,
        minute: read_u32(i, 24) as i32,
        hour: read_u32(i, 28) as i32,
        day_in_month: read_u32(i, 32) as i32,
        month: read_u32(i, 36) as i32,
        year: read_u32(i, 40) as i32,
        day_in_week: read_u32(i, 44) as i32,
        day_in_year: read_u32(i, 48) as i32,
        is_daylight_savings: read_u32(i, 52) as i32,
    })
}

/// The entry header, little-endian, at byte `at` of `i`.
pub fn parse_entry_header_at(i: &[u8], at: usize) -> (r: Result<RgpEntryHeader, RgpError>)
    ensures
        i@.len() < at + ENTRY_HEADER_SIZE ==> r == Err::<RgpEntryHeader, RgpError>(
            RgpError::Truncated { offset: at },
        ),
        i@.len() >= at + ENTRY_HEADER_SIZE ==> r == Ok::<RgpEntryHeader, RgpError>(
            entry_header_of(i@, at as nat),
        ),
{
    if at > i.len() || i.len() - at < ENTRY_HEADER_SIZE {
        return Err(RgpError::Truncated { offset: at });
    }
    Ok(RgpEntryHeader {
        chunk_id: ChunkId { ty: i[at], index: i[at + 1], reserved: read_u16(i, at + 2) },
        version_major: read_u16(i, at + 4),
        version_minor: read_u16(i, at + 6),
        size: read_u32(i, at + 8) as i32,
        reserved: read_u32(i, at + 12) as i32,
    })
}

/// The entry header, little-endian, at the start of `i`.
pub fn parse_entry_header(i: &[u8]) -> (r: Result<RgpEntryHeader, RgpError>)
    ensures
        i@.len() < ENTRY_HEADER_SIZE ==> r == Err::<RgpEntryHeader, RgpError>(
            RgpError::Truncated { offset: 0 },
        ),
        i@.len() >= ENTRY_HEADER_SIZE ==> r == Ok::<RgpEntryHeader, RgpError>(
            entry_header_of(i@, 0),
        ),
{
    parse_entry_header_at(i, 0)
}


/// Where the parts of a capture lie: the hardware description, and the byte
/// range of each trace, in file order.
pub struct RgpChunks {
    pub asic_info: usize,
    pub sqtt_data: Vec<(usize, usize)>,
}

/// What one chunk adds to the walk: the ASIC-info offset and trace ranges
/// so far, moved on by the chunk with entry header `e` at `offset`.
pub open spec fn chunk_step(
    s: Seq<u8>,
    offset: nat,
    e: RgpEntryHeader,
    t: SqttFileChunkType,
    asic: Option<usize>,
    traces: Seq<(usize, usize)>,
) -> Result<(Option<usize>, Seq<(usize, usize)>), RgpError> {
    let start = offset + ENTRY_HEADER_SIZE;
    if t == SqttFileChunkType::AsicInfo {
        if start + ASIC_INFO_SIZE > s.len() {
            Err(RgpError::Truncated { offset: start as usize })
        } else {
            Ok((Some(start as usize), traces))
        }
    } else if t == SqttFileChunkType::SqttData {
        let from = start + SQTT_DATA_PREFIX;
        let to = offset + e.size - ENTRY_HEADER_SIZE;
        if from > to || to > s.len() {
            Err(RgpError::ChunkOutOfBounds { offset: offset as usize })
        } else {
            Ok((asic, traces.push((from as usize, to as usize))))
        }
    } else {
        Ok((asic, traces))
    }
}

/// Walking the chunks from byte `offset` to the end of `s`.
pub open spec fn walk(s: Seq<u8>, offset: nat, asic: Option<usize>, traces: Seq<(usize, usize)>) -> Result<
    (Option<usize>, Seq<(usize, usize)>),
    RgpError,
>
    decreases s.len() - offset,
{
    if offset >= s.len() {
        Ok((asic, traces))
    } else if offset + ENTRY_HEADER_SIZE > s.len() {
        Err(RgpError::Truncated { offset: offset as usize })
    } else {
        let e = entry_header_of(s, offset);
        if e.size < ENTRY_HEADER_SIZE {
            Err(RgpError::ChunkTooSmall { offset: offset as usize })
        } else {
            match chunk_type_of(e.chunk_id.ty) {
                None => Err(RgpError::UnknownChunkType(e.chunk_id.ty)),
                Some(t) => match chunk_step(s, offset, e, t, asic, traces) {
                    Err(err) => Err(err),
                    Ok((a, c)) => if offset + e.size >= s.len() {
                        Ok((a, c))
                    } else {
                        walk(s, (offset + e.size) as nat, a, c)
                    },
                },
            }
        }
    }
}

/// The outcome of a walk: an ASIC-info chunk must have been met.
pub open spec fn finish_walk(w: Result<(Option<usize>, Seq<(usize, usize)>), RgpError>) -> Result<
    (usize, Seq<(usize, usize)>),
    RgpError,
> {
    match w {
        Err(err) => Err(err),
        Ok((None, _)) => Err(RgpError::MissingAsicInfo),
        Ok((Some(a), c)) => Ok((a, c)),
    }
}

/// Walking a whole capture: from the offset that its header gives, to an
/// ASIC-info offset and the trace ranges.
pub open spec fn walk_capture(s: Seq<u8>) -> Result<(usize, Seq<(usize, usize)>), RgpError> {
    if s.len() < HEADER_SIZE {
        Err(RgpError::Truncated { offset: 0 })
    } else {
        let off = header_of(s).chunk_offset;
        if off < 0 {
            finish_walk(Ok((None, Seq::empty())))
        } else {
            finish_walk(walk(s, off as nat, None, Seq::empty()))
        }
    }
}

/// Finds the ASIC-info and trace-data chunks of a capture. The last
/// ASIC-info chunk counts; the trace of a trace-data chunk starts past its
/// entry header and 8 more bytes, and ends 16 bytes short of the chunk's end.
pub fn find_chunks(data: &[u8]) -> (r: Result<RgpChunks, RgpError>)
    ensures
        match walk_capture(data@) {
            Ok((a, c)) => r matches Ok(ch) && ch.asic_info == a && ch.sqtt_data@ == c,
            Err(err) => r matches Err(e) && e == err,
        },
{
    let hdr = match parse_header(data) {
        Ok(h) => h,
        Err(err) => {
            return Err(err);
        },
    };
    let mut asic: Option<usize> = None;
    let mut traces: Vec<(usize, usize)> = Vec::new();
    let mut offset: usize = if hdr.chunk_offset < 0 {
        data.len()
    } else {
        hdr.chunk_offset as usize
    };
    while offset < data.len()
        invariant
            walk_capture(data@) == finish_walk(walk(data@, offset as nat, asic, traces@)),
        decreases data@.len() - offset,
    {
        let e = match parse_entry_header_at(data, offset) {
            Ok(e) => e,
            Err(err) => {
                return Err(err);
            },
        };
        if e.size < ENTRY_HEADER_SIZE as i32 {
            return Err(RgpError::ChunkTooSmall { offset });
        }
        let t = match SqttFileChunkType::from_u8(e.chunk_id.ty) {
            Some(t) => t,
            None => {
                return Err(RgpError::UnknownChunkType(e.chunk_id.ty));
            },
        };
        let size = e.size as usize;
        let start_at = offset + ENTRY_HEADER_SIZE;
        match t {
            SqttFileChunkType::AsicInfo => {
                if start_at > data.len() || data.len() - start_at < ASIC_INFO_SIZE {
                    return Err(RgpError::Truncated { offset: start_at });
                }
                asic = Some(start_at);
            },
            SqttFileChunkType::SqttData => {
                if size - ENTRY_HEADER_SIZE < ENTRY_HEADER_SIZE + SQTT_DATA_PREFIX || size
                    - ENTRY_HEADER_SIZE > data.len() - offset {
                    return Err(RgpError::ChunkOutOfBounds { offset });
                }
                traces.push((start_at + SQTT_DATA_PREFIX, offset + (size - ENTRY_HEADER_SIZE)));
            },
            _ => {},
        }
        if size >= data.len() - offset {
            offset = data.len();
        } else {
            offset = offset + size;
        }
    }
    match asic {
        Some(a) => Ok(RgpChunks { asic_info: a, sqtt_data: traces }),
        None => Err(RgpError::MissingAsicInfo),
    }
}

} // verus!
