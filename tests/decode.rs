use sqtt::{parse_sqtt, BitReader, PacketKind, SqttChunk, SqttError};

const USERDATA_2: u64 = 0x030D08 / 4;

/// A bit string, lowest bit first.
struct Bits(Vec<bool>);

impl Bits {
    fn new() -> Bits {
        Bits(Vec::new())
    }

    /// Appends a packet of `len` bits with the given (bottom, width, value) fields.
    fn packet(&mut self, len: usize, fields: &[(usize, usize, u64)]) -> &mut Bits {
        let mut p = vec![false; len];
        for &(bottom, width, value) in fields {
            for b in 0..width {
                p[bottom + b] = (value >> b) & 1 == 1;
            }
        }
        self.0.extend(p);
        self
    }

    /// The bits as bytes, padded with zeros to whole bytes and to `min_len`.
    fn bytes(&self, min_len: usize) -> Vec<u8> {
        let mut out = vec![0u8; ((self.0.len() + 7) / 8).max(min_len)];
        for (i, &b) in self.0.iter().enumerate() {
            if b {
                out[i / 8] |= 1 << (i % 8);
            }
        }
        out
    }
}

fn rows(chunk: &SqttChunk, kind: PacketKind) -> usize {
    chunk.column(kind).seq.len()
}

fn fields(chunk: &SqttChunk, kind: PacketKind, row: usize) -> Vec<u64> {
    chunk.column(kind).fields[row].clone()
}

fn total_rows(chunk: &SqttChunk) -> usize {
    chunk.columns.iter().map(|c| c.seq.len()).sum()
}

fn reg_write(bits: &mut Bits, reg: u64, val: u64) {
    bits.packet(64, &[(0, 4, 9), (4, 3, 0), (16, 16, reg), (32, 32, val)]);
}

fn short_ts(bits: &mut Bits, dt: u64) {
    bits.packet(8, &[(0, 4, 8), (4, 4, dt)]);
}

#[test]
fn reader_peeks_and_consumes() {
    let data = [0xABu8, 0xCD, 0xEF, 0x01, 0x23, 0x45, 0x67, 0x89];
    let mut r = BitReader::new(&data);
    assert_eq!(r.bits(0, 4), Some(0xB));
    assert_eq!(r.bits(4, 8), Some(0xDA));
    assert_eq!(r.consume(12), Some(()));
    assert_eq!(r.bits(0, 4), Some(0xC));
    assert_eq!(r.bits(0, 52), Some(0x8967452301EFC));
    assert_eq!(r.bits(0, 53), None);
    assert_eq!(r.consume(53), None);
    assert_eq!(r.consume(52), Some(()));
    assert_eq!(r.bits(0, 1), None);
    assert_eq!(r.bits(0, 0), Some(0));
}

#[test]
fn reader_reads_past_the_window() {
    let data: Vec<u8> = (0..32u8).map(|i| i.wrapping_mul(37).wrapping_add(11)).collect();
    let whole = u128::from_le_bytes(data[0..16].try_into().unwrap());
    let mut r = BitReader::new(&data);
    assert_eq!(r.consume(7), Some(()));
    assert_eq!(r.bits(0, 60), Some(((whole >> 7) & ((1u128 << 60) - 1)) as u64));
    assert_eq!(r.bits(3, 57), Some(((whole >> 10) & ((1u128 << 57) - 1)) as u64));
}

#[test]
fn reader_near_the_end() {
    let data = [0xFFu8; 10];
    let mut r = BitReader::new(&data);
    assert_eq!(r.consume(70), Some(()));
    assert_eq!(r.bits(0, 10), Some(0x3FF));
    assert_eq!(r.bits(0, 11), None);
    assert_eq!(r.consume(11), None);
    assert_eq!(r.consume(10), Some(()));
    assert_eq!(r.bits(0, 1), None);
}

#[test]
fn register_write_fields_round_trip() {
    let mut b = Bits::new();
    b.packet(64, &[(0, 4, 9), (4, 3, 5), (7, 2, 3), (9, 2, 1), (11, 1, 1), (15, 1, 1), (16, 16, 0xBEEF), (32, 32, 0xDEADBEEF)]);
    let chunk = parse_sqtt(&b.bytes(8)).unwrap();
    assert_eq!(rows(&chunk, PacketKind::RegWrite), 1);
    assert_eq!(fields(&chunk, PacketKind::RegWrite, 0), vec![3, 1, 1, 1, 0xBEEF, 0xDEADBEEF]);
    assert_eq!(chunk.column(PacketKind::RegWrite).timestamp[0], 5);
    assert_eq!(chunk.column(PacketKind::RegWrite).seq[0], 0);
}

#[test]
fn initiator_fields_round_trip() {
    let mut b = Bits::new();
    b.packet(64, &[(0, 4, 1), (4, 3, 7), (7, 3, 6), (14, 2, 2), (16, 2, 1), (18, 2, 3), (20, 33, 0x1_2345_6789)]);
    let chunk = parse_sqtt(&b.bytes(8)).unwrap();
    assert_eq!(fields(&chunk, PacketKind::Initiator, 0), vec![2, 1, 3, 0x1_2345_6789]);
    assert_eq!(chunk.column(PacketKind::Initiator).timestamp[0], 6);
}

#[test]
fn other_kinds_round_trip() {
    let mut b = Bits::new();
    // EventB: selector 0xE1.
    b.packet(32, &[(0, 8, 0xE1), (8, 3, 1), (11, 1, 1), (12, 2, 2), (14, 4, 9), (18, 2, 3), (20, 12, 0xABC)]);
    // WaveStart.
    b.packet(32, &[(0, 4, 12), (4, 3, 2), (7, 1, 1), (8, 2, 3), (10, 3, 5), (13, 5, 17), (18, 4, 6), (25, 7, 100)]);
    // WaveAllocEnd.
    b.packet(20, &[(0, 4, 5), (4, 1, 1), (5, 3, 4), (8, 1, 1), (9, 2, 2), (11, 3, 7), (15, 5, 30)]);
    // Immediate.
    b.packet(24, &[(0, 4, 4), (5, 3, 1), (8, 16, 0xF00D)]);
    // Long timestamp of type 2.
    b.packet(64, &[(0, 4, 1), (4, 3, 0), (14, 2, 2), (16, 48, 0xFEDC_BA98_7654)]);
    // ValuInst.
    b.packet(12, &[(0, 3, 3), (3, 3, 2), (6, 1, 1), (7, 5, 21)]);
    // GenericInst.
    b.packet(20, &[(0, 3, 2), (4, 3, 1), (7, 1, 0), (8, 5, 19), (13, 7, 99)]);
    let chunk = parse_sqtt(&b.bytes(8)).unwrap();
    assert_eq!(fields(&chunk, PacketKind::EventB, 0), vec![1, 2, 9, 3, 0xABC]);
    assert_eq!(fields(&chunk, PacketKind::WaveStart, 0), vec![1, 3, 5, 17, 6, 100]);
    assert_eq!(fields(&chunk, PacketKind::WaveAllocEnd, 0), vec![1, 1, 2, 7, 30]);
    assert_eq!(fields(&chunk, PacketKind::Immediate, 0), vec![0xF00D]);
    assert_eq!(fields(&chunk, PacketKind::LongTimestamp, 0), vec![2, 0xFEDC_BA98_7654]);
    assert_eq!(fields(&chunk, PacketKind::ValuInst, 0), vec![1, 21]);
    assert_eq!(fields(&chunk, PacketKind::GenericInst, 0), vec![0, 19, 99]);
    // Deltas 1, 2, 4, 1, then none, 2, 1.
    let ts: Vec<u64> = [PacketKind::EventB, PacketKind::WaveStart, PacketKind::WaveAllocEnd, PacketKind::Immediate, PacketKind::LongTimestamp, PacketKind::ValuInst, PacketKind::GenericInst]
        .iter()
        .map(|&k| chunk.column(k).timestamp[0])
        .collect();
    assert_eq!(ts, vec![1, 3, 7, 8, 8, 10, 11]);
    let seqs: Vec<u32> = [PacketKind::EventB, PacketKind::GenericInst].iter().map(|&k| chunk.column(k).seq[0]).collect();
    assert_eq!(seqs, vec![0, 6]);
    assert_eq!(total_rows(&chunk), 7);
}

#[test]
fn short_timestamps_sum_with_bias() {
    let deltas = [3u64, 0, 15, 7, 1, 9, 2, 11, 5];
    let mut b = Bits::new();
    for &d in &deltas {
        short_ts(&mut b, d);
    }
    let chunk = parse_sqtt(&b.bytes(8)).unwrap();
    let sum: u64 = deltas.iter().sum();
    assert_eq!(chunk.end_timestamp, sum + 4 * deltas.len() as u64);
    assert_eq!(rows(&chunk, PacketKind::ShortTimestamp), deltas.len());
    assert_eq!(chunk.column(PacketKind::ShortTimestamp).timestamp[..3].to_vec(), vec![0, 7, 11]);
    assert_eq!(chunk.column(PacketKind::ShortTimestamp).seq[..3].to_vec(), vec![0, 1, 2]);
}

#[test]
fn long_timestamp_of_type_one_adds_its_value() {
    let mut b = Bits::new();
    b.packet(64, &[(0, 4, 1), (14, 2, 1), (16, 48, 1000)]);
    short_ts(&mut b, 2);
    b.packet(64, &[(0, 4, 1), (14, 2, 0), (16, 48, 5000)]);
    let chunk = parse_sqtt(&b.bytes(8)).unwrap();
    assert_eq!(chunk.column(PacketKind::LongTimestamp).timestamp.clone(), vec![0, 1006]);
    assert_eq!(chunk.column(PacketKind::ShortTimestamp).timestamp.clone(), vec![1000]);
    assert_eq!(chunk.end_timestamp, 1006);
}

#[test]
fn unknown_selector_fails() {
    let mut b = Bits::new();
    short_ts(&mut b, 1);
    reg_write(&mut b, 7, 7);
    b.packet(8, &[(0, 8, 0x07)]);
    short_ts(&mut b, 1);
    assert_eq!(parse_sqtt(&b.bytes(8)).err(), Some(SqttError::UnknownPacket(0x07)));
}

#[test]
fn unknown_selector_in_the_middle_of_valid_packets() {
    for at in 0..5 {
        let mut b = Bits::new();
        for i in 0..5 {
            if i == at {
                b.packet(8, &[(0, 8, 0x97)]);
            }
            short_ts(&mut b, i as u64);
        }
        assert_eq!(parse_sqtt(&b.bytes(8)).err(), Some(SqttError::UnknownPacket(0x97)));
    }
}

#[test]
fn trailing_nonzero_half_byte_fails() {
    let data = [0u8, 0, 0, 0, 0, 0, 0, 0x50];
    assert_eq!(parse_sqtt(&data).err(), Some(SqttError::UnknownPacket(5)));
}

#[test]
fn zero_padding_ends_cleanly() {
    let mut b = Bits::new();
    reg_write(&mut b, 1, 2);
    short_ts(&mut b, 3);
    b.packet(32, &[(0, 4, 12)]);
    let data = b.bytes(20);
    let chunk = parse_sqtt(&data).unwrap();
    assert_eq!(total_rows(&chunk), 3);
    assert_eq!(rows(&chunk, PacketKind::WaveStart), 1);
    let zeros = [0u8; 8];
    assert_eq!(total_rows(&parse_sqtt(&zeros).unwrap()), 0);
}

#[test]
fn cut_off_packet_ends_without_its_record() {
    let mut b = Bits::new();
    short_ts(&mut b, 1);
    reg_write(&mut b, 1, 2);
    let data = b.bytes(8);
    assert_eq!(data.len(), 9);
    let chunk = parse_sqtt(&data[..8]).unwrap();
    assert_eq!(rows(&chunk, PacketKind::ShortTimestamp), 1);
    assert_eq!(rows(&chunk, PacketKind::RegWrite), 0);
}

#[test]
fn cut_off_packet_whose_fields_fit_keeps_its_record() {
    // A 96-bit packet whose fields end at bit 10, in a 64-bit buffer.
    let mut b = Bits::new();
    b.packet(11, &[(0, 8, 0x41), (7, 3, 5)]);
    let chunk = parse_sqtt(&b.bytes(8)).unwrap();
    assert_eq!(rows(&chunk, PacketKind::Packet0x41), 1);
    assert_eq!(chunk.column(PacketKind::Packet0x41).timestamp[0], 5);
}

#[test]
fn every_packet_gives_one_record() {
    let mut b = Bits::new();
    let mut n = 0;
    for i in 0..20u64 {
        match i % 4 {
            0 => short_ts(&mut b, i % 16),
            1 => reg_write(&mut b, USERDATA_2, i),
            2 => {
                b.packet(12, &[(0, 4, 13), (4, 3, 1), (7, 5, 9)]);
            }
            _ => {
                b.packet(8, &[(0, 4, 14), (4, 2, 3)]);
            }
        }
        n += 1;
    }
    b.packet(4, &[]);
    let chunk = parse_sqtt(&b.bytes(64)).unwrap();
    assert_eq!(total_rows(&chunk), n);
    let seq = &chunk.column(PacketKind::RegWrite).seq;
    assert_eq!(seq.clone(), vec![1, 5, 9, 13, 17]);
}
