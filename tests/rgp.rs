use sqtt::rgp::{
    find_chunks, parse_entry_header, parse_header, RgpError, SqttFileChunkType, ASIC_INFO_SIZE,
};

fn header(chunk_offset: i32) -> Vec<u8> {
    let mut h = Vec::new();
    for v in [0x5254_4700u32, 1, 5, 0] {
        h.extend(v.to_le_bytes());
    }
    for v in [chunk_offset, 30, 15, 9, 2, 7, 2024, 3, 180, -1] {
        h.extend(v.to_le_bytes());
    }
    h
}

fn entry(ty: u8, size: i32) -> Vec<u8> {
    let mut e = vec![ty, 0];
    e.extend(0u16.to_le_bytes());
    e.extend(1u16.to_le_bytes());
    e.extend(2u16.to_le_bytes());
    e.extend(size.to_le_bytes());
    e.extend(0i32.to_le_bytes());
    e
}

#[test]
fn header_fields() {
    let h = parse_header(&header(56)).unwrap();
    assert_eq!(h.magic_number, 0x5254_4700);
    assert_eq!(h.version_minor, 5);
    assert_eq!(h.chunk_offset, 56);
    assert_eq!(h.year, 2024);
    assert_eq!(h.is_daylight_savings, -1);
    assert_eq!(parse_header(&header(56)[..55]), Err(RgpError::Truncated { offset: 0 }));
}

#[test]
fn entry_header_fields() {
    let e = parse_entry_header(&entry(2, 100)).unwrap();
    assert_eq!(e.chunk_id.ty, 2);
    assert_eq!(e.version_major, 1);
    assert_eq!(e.version_minor, 2);
    assert_eq!(e.size, 100);
    assert!(parse_entry_header(&entry(2, 100)[..15]).is_err());
    assert_eq!(SqttFileChunkType::from_u8(2), Some(SqttFileChunkType::SqttData));
    assert_eq!(SqttFileChunkType::from_u8(13), None);
}

#[test]
fn chunk_walk() {
    let mut data = header(56);
    // An ASIC-info chunk.
    data.extend(entry(0, (16 + ASIC_INFO_SIZE) as i32));
    data.extend(vec![0u8; ASIC_INFO_SIZE]);
    // A description chunk, skipped.
    data.extend(entry(1, 20));
    data.extend([0u8; 4]);
    // A trace-data chunk: 8 bytes of prefix, 40 of trace, 16 left off.
    let at = data.len();
    data.extend(entry(2, 16 + 8 + 40 + 16));
    data.extend(vec![7u8; 8 + 40 + 16]);
    let chunks = find_chunks(&data).unwrap();
    assert_eq!(chunks.asic_info, 56 + 16);
    assert_eq!(chunks.sqtt_data, vec![(at + 24, at + 24 + 40)]);
}

#[test]
fn chunk_walk_errors() {
    let mut data = header(56);
    data.extend(entry(1, 20));
    data.extend([0u8; 4]);
    assert_eq!(find_chunks(&data).err(), Some(RgpError::MissingAsicInfo));
    let mut data = header(56);
    data.extend(entry(0, 8));
    assert_eq!(find_chunks(&data).err(), Some(RgpError::ChunkTooSmall { offset: 56 }));
    let mut data = header(56);
    data.extend(entry(40, 16));
    assert_eq!(find_chunks(&data).err(), Some(RgpError::UnknownChunkType(40)));
    let mut data = header(56);
    data.extend(entry(0, 16 + ASIC_INFO_SIZE as i32));
    assert_eq!(find_chunks(&data).err(), Some(RgpError::Truncated { offset: 72 }));
    let mut data = header(56);
    data.extend(entry(2, 100));
    assert_eq!(find_chunks(&data).err(), Some(RgpError::ChunkOutOfBounds { offset: 56 }));
    assert_eq!(find_chunks(&header(-4)).err(), Some(RgpError::MissingAsicInfo));
}
