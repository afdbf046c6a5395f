//! Decoding one trace buffer into per-kind record columns.
use crate::bit_reader::BitReader;
use crate::packet::{
    build_packet_length_table, kind_index, kind_layout, layout, layout_extent, layout_wf,
    lemma_layout_fits, packet_kind, packet_length, sqtt_packet_kind, FieldSpec, PacketKind,
    NUM_KINDS,
};
use crate::stream::{bit_len, stream_bits};
use vstd::arithmetic::power2::{lemma2_to64, pow2};
use vstd::prelude::*;

verus! {

/// One decoded packet: its sequence number, its timestamp, and its stored
/// fields in layout order.
pub type RecordView = (u32, u64, Seq<u64>);

/// The records of one kind, one row per packet.
pub struct PacketColumns {
    pub seq: Vec<u32>,
    pub timestamp: Vec<u64>,
    pub fields: Vec<Vec<u64>>,
}

impl PacketColumns {
    pub open spec fn wf(&self) -> bool {
        &&& self.seq@.len() == self.timestamp@.len()
        &&& self.seq@.len() == self.fields@.len()
    }

    pub open spec fn rows(&self) -> Seq<RecordView> {
        Seq::new(
            self.seq@.len(),
            |i: int| (self.seq@[i], self.timestamp@[i], self.fields@[i]@),
        )
    }

    pub fn new() -> (r: PacketColumns)
        ensures
            r.wf(),
            r.rows() == Seq::<RecordView>::empty(),
    {
        let r = PacketColumns { seq: Vec::new(), timestamp: Vec::new(), fields: Vec::new() };
        assert(r.rows() =~= Seq::<RecordView>::empty());
        r
    }

    /// Number of rows.
    pub fn len(&self) -> (r: usize)
        requires
            self.wf(),
        ensures
            r == self.rows().len(),
    {
        self.seq.len()
    }

    fn push_row(&mut self, seq: u32, timestamp: u64, fields: Vec<u64>)
        requires
            old(self).wf(),
        ensures
            final(self).wf(),
            final(self).rows() == old(self).rows().push((seq, timestamp, fields@)),
    {
        self.seq.push(seq);
        self.timestamp.push(timestamp);
        self.fields.push(fields);
        assert(self.rows() =~= old(self).rows().push((seq, timestamp, fields@)));
    }
}

/// Everything decoded from one trace buffer: the records of each kind, at
/// the position of the kind, and the running timestamp where decoding stopped.
pub struct SqttChunk {
    pub columns: Vec<PacketColumns>,
    pub end_timestamp: u64,
}

impl SqttChunk {
    pub open spec fn wf(&self) -> bool {
        &&& self.columns@.len() == NUM_KINDS
        &&& forall|k: int| 0 <= k < NUM_KINDS ==> (#[trigger] self.columns@[k]).wf()
    }

    /// The records, one sequence per kind.
    pub open spec fn records(&self) -> Seq<Seq<RecordView>> {
        self.columns@.map_values(|c: PacketColumns| c.rows())
    }

    /// A chunk with no records.
    pub fn new() -> (r: SqttChunk)
        ensures
            r.wf(),
            r.records() == no_records(),
            r.end_timestamp == 0,
    {
        let mut columns: Vec<PacketColumns> = Vec::new();
        let mut k: usize = 0;
        while k < NUM_KINDS
            invariant
                k <= NUM_KINDS,
                columns@.len() == k,
                forall|j: int| 0 <= j < k ==> (#[trigger] columns@[j]).wf() && columns@[j].rows()
                    == Seq::<RecordView>::empty(),
            decreases NUM_KINDS - k,
        {
            columns.push(PacketColumns::new());
            k = k + 1;
        }
        let r = SqttChunk { columns, end_timestamp: 0 };
        assert(r.records() =~= no_records());
        r
    }

    /// The records of one kind.
    pub fn column(&self, kind: PacketKind) -> (r: &PacketColumns)
        requires
            self.wf(),
        ensures
            *r == self.columns@[kind_index(kind) as int],
            r.wf(),
            r.rows() == self.records()[kind_index(kind) as int],
    {
        &self.columns[kind.index()]
    }

    fn push_record(&mut self, kind: PacketKind, seq: u32, timestamp: u64, fields: Vec<u64>)
        requires
            old(self).wf(),
        ensures
            final(self).wf(),
            final(self).end_timestamp == old(self).end_timestamp,
            final(self).records() == old(self).records().update(
                kind_index(kind) as int,
                old(self).records()[kind_index(kind) as int].push((seq, timestamp, fields@)),
            ),
    {
        let k = kind.index();
        let mut col = self.columns.remove(k);
        col.push_row(seq, timestamp, fields);
        self.columns.insert(k, col);
        assert(self.columns@ =~= old(self).columns@.update(k as int, col));
        assert(self.records() =~= old(self).records().update(
            kind_index(kind) as int,
            old(self).records()[kind_index(kind) as int].push((seq, timestamp, fields@)),
        ));
    }
}

/// Failure to decode a buffer.
#[derive(Clone, Copy, PartialEq, Eq, Structural, Debug)]
pub enum SqttError {
    /// A selector that no packet has; a trailing half-byte selector is given
    /// as it stands.
    UnknownPacket(u8),
}

/// One empty record sequence per kind.
pub open spec fn no_records() -> Seq<Seq<RecordView>> {
    Seq::new(NUM_KINDS as nat, |k: int| Seq::<RecordView>::empty())
}

/// The stored fields of the packet at bit `pos`, for the first fields of a
/// layout.
pub open spec fn stored_values(s: Seq<u8>, pos: nat, l: Seq<FieldSpec>) -> Seq<u64>
    decreases l.len(),
{
    if l.len() == 0 {
        Seq::empty()
    } else {
        let prev = stored_values(s, pos, l.drop_last());
        let f = l.last();
        if f.delta {
            prev
        } else {
            prev.push(stream_bits(s, pos + f.bottom as nat, f.width as nat) as u64)
        }
    }
}

/// The timestamp `ts` moved on by the delta fields of the packet at `pos`.
pub open spec fn timestamp_after(s: Seq<u8>, pos: nat, l: Seq<FieldSpec>, ts: u64) -> u64
    decreases l.len(),
{
    if l.len() == 0 {
        ts
    } else {
        let prev = timestamp_after(s, pos, l.drop_last(), ts);
        let f = l.last();
        if f.delta {
            prev.wrapping_add(stream_bits(s, pos + f.bottom as nat, f.width as nat) as u64)
        } else {
            prev
        }
    }
}

/// The running timestamp after a packet of `kind` with stored fields `v`,
/// where `ts` is the timestamp recorded with it. A long timestamp of type 1
/// adds its value; a short timestamp adds its value and 4.
pub open spec fn timestamp_past(kind: PacketKind, ts: u64, v: Seq<u64>) -> u64 {
    match kind {
        PacketKind::LongTimestamp => if v[0] == 1 {
            ts.wrapping_add(v[1])
        } else {
            ts
        },
        PacketKind::ShortTimestamp => ts.wrapping_add((v[0] + 4) as u64),
        _ => ts,
    }
}

/// Where decoding stands: the cursor, the number of packets parsed, the
/// running timestamp and the records so far.
pub struct DecodeState {
    pub pos: nat,
    pub count: nat,
    pub timestamp: u64,
    pub records: Seq<Seq<RecordView>>,
}

/// The state after the fields of the packet at the cursor, with selector
/// `sel`, have been read: a record and a timestamp where the packet carries a
/// record and its fields lie within the buffer.
pub open spec fn record_packet(s: Seq<u8>, st: DecodeState, sel: u8) -> DecodeState {
    match packet_kind(sel) {
        None => st,
        Some(k) => {
            let l = kind_layout(k);
            if st.pos + layout_extent(l) <= bit_len(s) {
                let ts = timestamp_after(s, st.pos, l, st.timestamp);
                let v = stored_values(s, st.pos, l);
                let i = kind_index(k) as int;
                DecodeState {
                    timestamp: timestamp_past(k, ts, v),
                    records: st.records.update(
                        i,
                        st.records[i].push(((st.count % 0x1_0000_0000) as u32, ts, v)),
                    ),
                    ..st
                }
            } else {
                st
            }
        },
    }
}

/// The fields of the packet at the cursor lie within the buffer.
pub open spec fn fields_fit(s: Seq<u8>, st: DecodeState, sel: u8) -> bool {
    match packet_kind(sel) {
        None => true,
        Some(k) => st.pos + layout_extent(kind_layout(k)) <= bit_len(s),
    }
}

/// Decoding from state `st` to the end of `s`: the final state, or the
/// selector that no packet has.
pub open spec fn decode_from(s: Seq<u8>, st: DecodeState) -> Result<DecodeState, u8>
    decreases bit_len(s) - st.pos,
{
    if st.pos + 8 > bit_len(s) {
        if st.pos + 4 > bit_len(s) {
            Ok(st)
        } else {
            let nib = stream_bits(s, st.pos, 4) as u8;
            if nib == 0 {
                Ok(st)
            } else {
                Err(nib)
            }
        }
    } else {
        let sel = stream_bits(s, st.pos, 8) as u8;
        match packet_length(sel) {
            None => Err(sel),
            Some(len) => {
                let next = record_packet(s, st, sel);
                if !fields_fit(s, st, sel) || st.pos + len > bit_len(s) {
                    Ok(next)
                } else {
                    decode_from(
                        s,
                        DecodeState { pos: st.pos + len as nat, count: st.count + 1, ..next },
                    )
                }
            },
        }
    }
}

/// The state before the first packet.
pub open spec fn initial_state() -> DecodeState {
    DecodeState { pos: 0, count: 0, timestamp: 0, records: no_records() }
}

/// Decoding a whole buffer.
pub open spec fn decode(s: Seq<u8>) -> Result<DecodeState, u8> {
    decode_from(s, initial_state())
}


/// The layout of every kind, at the position of the kind.
fn build_layout_table() -> (r: Vec<Vec<FieldSpec>>)
    ensures
        r@.len() == NUM_KINDS,
        forall|k: PacketKind| #[trigger] r@[kind_index(k) as int]@ == kind_layout(k),
{
    vec![
        layout(PacketKind::Packet0x21),
        layout(PacketKind::Packet0x31),
        layout(PacketKind::Packet0x41),
        layout(PacketKind::Packet0x51),
        layout(PacketKind::LongTimestamp),
        layout(PacketKind::EventA),
        layout(PacketKind::EventB),
        layout(PacketKind::Initiator),
        layout(PacketKind::RegWrite),
        layout(PacketKind::WaveStart),
        layout(PacketKind::WaveAllocEnd),
        layout(PacketKind::GenericInst),
        layout(PacketKind::ValuInst),
        layout(PacketKind::Immediate),
        layout(PacketKind::ImmediateOne),
        layout(PacketKind::ShortTimestamp),
        layout(PacketKind::Packet0x6),
        layout(PacketKind::Packet0xe),
        layout(PacketKind::Packet0xf),
    ]
}

/// Reads the fields of the packet at the cursor of `reader` in layout order,
/// and moves `timestamp` on by its delta fields; `None` where a field runs
/// past the end of the buffer.
#[verifier::rlimit(40)]
fn extract(reader: BitReader, l: &Vec<FieldSpec>, timestamp: u64) -> (r: Option<(Vec<u64>, u64)>)
    requires
        reader.wf(),
        layout_wf(l@),
    ensures
        r is Some <==> reader.pos() + layout_extent(l@) <= bit_len(reader.data()),
        r matches Some((v, t)) ==> v@ == stored_values(reader.data(), reader.pos(), l@) && t
            == timestamp_after(reader.data(), reader.pos(), l@, timestamp),
{
    let ghost s = reader.data();
    let ghost pos = reader.pos();
    let mut rd = reader;
    let mut last: usize = 0;
    let mut values: Vec<u64> = Vec::new();
    let mut ts = timestamp;
    let mut i: usize = 0;
    while i < l.len()
        invariant
            s == reader.data(),
            pos == reader.pos(),
            rd.wf(),
            rd.data() == s,
            rd.pos() == pos + last,
            layout_wf(l@),
            i <= l@.len(),
            i < l@.len() ==> last <= l@[i as int].bottom,
            0 < i ==> pos + l@[i - 1].bottom + l@[i - 1].width <= bit_len(s),
            values@ == stored_values(s, pos, l@.take(i as int)),
            ts == timestamp_after(s, pos, l@.take(i as int), timestamp),
        decreases l@.len() - i,
    {
        let f = l[i];
        assert(0 < f.width <= crate::bit_reader::LOOK_AHEAD && f.bottom + f.width <= layout_extent(
            l@,
        )) by {
            assert(l@[i as int] == f);
        }
        if f.bottom + f.width - last > crate::bit_reader::LOOK_AHEAD {
            if rd.consume(f.bottom - last).is_none() {
                assert(pos + f.bottom > bit_len(s));
                assert(pos + layout_extent(l@) > bit_len(s));
                return None;
            }
            last = f.bottom;
        }
        let x = match rd.bits(f.bottom - last, f.width) {
            Some(x) => x,
            None => {
                assert(pos + f.bottom + f.width > bit_len(s));
                assert(pos + layout_extent(l@) > bit_len(s));
                return None;
            },
        };
        proof {
            assert(l@.take(i + 1).drop_last() =~= l@.take(i as int));
        }
        if f.delta {
            ts = ts.wrapping_add(x);
        } else {
            values.push(x);
        }
        i = i + 1;
    }
    proof {
        assert(l@.take(l@.len() as int) =~= l@);
    }
    Some((values, ts))
}

/// The running timestamp after a packet of `kind` with stored fields
/// `values`, recorded at `ts`.
fn advance_timestamp(kind: PacketKind, ts: u64, values: &Vec<u64>) -> (r: u64)
    requires
        kind == PacketKind::LongTimestamp ==> values@.len() >= 2,
        kind == PacketKind::ShortTimestamp ==> values@.len() >= 1 && values@[0] < 16,
    ensures
        r == timestamp_past(kind, ts, values@),
{
    match kind {
        PacketKind::LongTimestamp => if values[0] == 1 {
            ts.wrapping_add(values[1])
        } else {
            ts
        },
        PacketKind::ShortTimestamp => ts.wrapping_add(values[0] + 4),
        _ => ts,
    }
}


/// Decodes one trace buffer. Stops cleanly at the end of the buffer, at a
/// trailing half-byte of zeros, or at a packet cut off by the end of the
/// buffer; fails on a selector that no packet has.
pub fn parse_sqtt(i: &[u8]) -> (r: Result<SqttChunk, SqttError>)
    requires
        8 <= i@.len(),
        8 * i@.len() <= usize::MAX,
    ensures
        match decode(i@) {
            Ok(st) => r matches Ok(c) && c.wf() && c.records() == st.records && c.end_timestamp
                == st.timestamp,
            Err(sel) => r == Err::<SqttChunk, SqttError>(SqttError::UnknownPacket(sel)),
        },
{
    let table = build_packet_length_table();
    let layouts = build_layout_table();
    let mut reader = BitReader::new(i);
    let mut chunk = SqttChunk::new();
    let mut seq: u32 = 0;
    let mut timestamp: u64 = 0;
    let ghost mut count: nat = 0;
    proof {
        lemma2_to64();
    }
    loop
        invariant
            reader.wf(),
            reader.data() == i@,
            chunk.wf(),
            table@.len() == 256,
            forall|s: u8| #[trigger] table@[s as int] == packet_length(s),
            layouts@.len() == NUM_KINDS,
            forall|k: PacketKind| #[trigger] layouts@[kind_index(k) as int]@ == kind_layout(k),
            seq as nat == count % 0x1_0000_0000,
            pow2(4) == 16,
            pow2(8) == 256,
            decode_from(
                i@,
                DecodeState {
                    pos: reader.pos(),
                    count,
                    timestamp,
                    records: chunk.records(),
                },
            ) == decode(i@),
        decreases bit_len(i@) - reader.pos(),
    {
        let ghost st = DecodeState {
            pos: reader.pos(),
            count,
            timestamp,
            records: chunk.records(),
        };
        let sel = match reader.bits(0, 8) {
            Some(x) => x as u8,
            None => {
                match reader.bits(0, 4) {
                    Some(x) => {
                        if x != 0 {
                            return Err(SqttError::UnknownPacket(x as u8));
                        }
                    },
                    None => {},
                }
                chunk.end_timestamp = timestamp;
                return Ok(chunk);
            },
        };
        let len = match table[sel as usize] {
            Some(n) => n,
            None => {
                return Err(SqttError::UnknownPacket(sel));
            },
        };
        proof {
            assert(sel == stream_bits(i@, st.pos, 8) as u8);
            assert(packet_length(sel) == Some(len));
        }
        let sub = reader;
        let advanced = reader.consume(len as usize);
        let mut fits = true;
        match sqtt_packet_kind(sel) {
            None => {},
            Some(kind) => {
                proof {
                    lemma_layout_fits(sel);
                }
                match extract(sub, &layouts[kind.index()], timestamp) {
                    None => {
                        fits = false;
                    },
                    Some((values, ts)) => {
                        proof {
                            reveal_with_fuel(stored_values, 3);
                        }
                        let next = advance_timestamp(kind, ts, &values);
                        chunk.push_record(kind, seq, ts, values);
                        timestamp = next;
                    },
                }
            },
        }
        proof {
            assert(chunk.records() == record_packet(i@, st, sel).records);
            assert(timestamp == record_packet(i@, st, sel).timestamp);
        }
        if !fits || advanced.is_none() {
            chunk.end_timestamp = timestamp;
            return Ok(chunk);
        }
        seq = seq.wrapping_add(1);
        proof {
            count = count + 1;
            assert(seq as nat == count % 0x1_0000_0000);
        }
    }
}

} // verus!
