//! Rebuilding marker events from register writes and initiators taken in
//! sequence order.
use crate::merge::{is_merge_of, merge_columns, column_views, columns_sorted, MergeItem};
use crate::packet::{kind_index, PacketKind};
use crate::sqtt::{PacketColumns, RecordView, SqttChunk};
use crate::userdata::{api_code, declared_len, SqttUserdata};
use vstd::prelude::*;

verus! {

/// Register that carries marker words.
pub const SQ_THREAD_TRACE_USERDATA_2: u64 = 0x030D08 / 4;

/// The other register that carries marker words.
pub const SQ_THREAD_TRACE_USERDATA_3: u64 = 0x030D0C / 4;

/// Initiator value (low 20 bits) that starts a marker.
pub const THREAD_TRACE_MARKER: u64 = 53;

/// Position of the register number among a register write's stored fields.
pub const REG_WRITE_REG: usize = 4;

/// Position of the value among a register write's stored fields.
pub const REG_WRITE_VAL: usize = 5;

/// Position of the type among an initiator's stored fields.
pub const INITIATOR_TYPE: usize = 2;

/// Position of the value among an initiator's stored fields.
pub const INITIATOR_VAL: usize = 3;

/// A completed marker. The times are left for the consumer to fill.
#[derive(Clone, Copy, PartialEq, Eq, Structural, Debug)]
pub struct MarkerEvent {
    pub api_type: u32,
    pub start: u64,
    pub end: u64,
}

/// What the reassembly reads of one merged row.
pub enum MarkerInput {
    /// A write of `val` to register `reg`.
    Write { reg: u64, val: u64 },
    /// An initiator of type `ty` with value `val`.
    Initiator { ty: u64, val: u64 },
    /// A row without the fields that the reassembly reads.
    Other,
}

/// The reassembly's input for a merged row; column 0 holds register writes,
/// column 1 initiators.
pub open spec fn marker_input(rw: Seq<RecordView>, init: Seq<RecordView>, m: MergeItem) -> MarkerInput {
    if m.kind == 0 {
        let f = rw[m.index as int].2;
        if f.len() > REG_WRITE_VAL {
            MarkerInput::Write { reg: f[REG_WRITE_REG as int], val: f[REG_WRITE_VAL as int] }
        } else {
            MarkerInput::Other
        }
    } else {
        let f = init[m.index as int].2;
        if f.len() > INITIATOR_VAL {
            MarkerInput::Initiator { ty: f[INITIATOR_TYPE as int], val: f[INITIATOR_VAL as int] }
        } else {
            MarkerInput::Other
        }
    }
}

/// One step of the reassembly, on the words gathered so far and the API codes
/// of the markers completed so far. A write to a userdata register adds a
/// word, and completes the marker once there are as many words as the first
/// declares; a marker initiator drops the words of an incomplete marker.
pub open spec fn marker_step(acc: Seq<u32>, events: Seq<u32>, input: MarkerInput) -> (Seq<u32>, Seq<u32>) {
    match input {
        MarkerInput::Write { reg, val } => {
            if reg == SQ_THREAD_TRACE_USERDATA_2 || reg == SQ_THREAD_TRACE_USERDATA_3 {
                let a = acc.push(val as u32);
                if declared_len(a[0]) == a.len() {
                    (Seq::empty(), events.push(api_code(a[0]) as u32))
                } else {
                    (a, events)
                }
            } else {
                (acc, events)
            }
        },
        MarkerInput::Initiator { ty, val } => {
            if ty == 0 && val % 0x10_0000 == THREAD_TRACE_MARKER {
                (Seq::empty(), events)
            } else {
                (acc, events)
            }
        },
        MarkerInput::Other => (acc, events),
    }
}

/// The words left over and the API codes of the markers completed, after the
/// rows of `order`.
pub open spec fn reassemble(rw: Seq<RecordView>, init: Seq<RecordView>, order: Seq<MergeItem>) -> (Seq<u32>, Seq<u32>)
    decreases order.len(),
{
    if order.len() == 0 {
        (Seq::empty(), Seq::empty())
    } else {
        let (acc, events) = reassemble(rw, init, order.drop_last());
        marker_step(acc, events, marker_input(rw, init, order.last()))
    }
}

/// The API codes of a list of events.
pub open spec fn event_codes(events: Seq<MarkerEvent>) -> Seq<u32> {
    events.map_values(|e: MarkerEvent| e.api_type)
}

/// The markers completed by the rows of `order`, which name register
/// writes (column 0) and initiators (column 1).
pub fn reassemble_markers(rw: &PacketColumns, init: &PacketColumns, order: &Vec<MergeItem>) -> (r: Vec<MarkerEvent>)
    requires
        rw.wf(),
        init.wf(),
        forall|j: int| 0 <= j < order@.len() ==> {
            let m = #[trigger] order@[j];
            (m.kind == 0 && m.index < rw.rows().len()) || (m.kind == 1 && m.index < init.rows().len())
        },
    ensures
        event_codes(r@) == reassemble(rw.rows(), init.rows(), order@).1,
        forall|j: int| 0 <= j < r@.len() ==> (#[trigger] r@[j]).start == 0 && r@[j].end == 0,
{
    let mut acc: Vec<u32> = Vec::new();
    let mut events: Vec<MarkerEvent> = Vec::new();
    let mut j: usize = 0;
    while j < order.len()
        invariant
            rw.wf(),
            init.wf(),
            j <= order@.len(),
            forall|j: int| 0 <= j < order@.len() ==> {
                let m = #[trigger] order@[j];
                (m.kind == 0 && m.index < rw.rows().len()) || (m.kind == 1 && m.index < init.rows().len())
            },
            (acc@, event_codes(events@)) == reassemble(rw.rows(), init.rows(), order@.take(j as int)),
            forall|i: int| 0 <= i < events@.len() ==> (#[trigger] events@[i]).start == 0 && events@[i].end == 0,
        decreases order@.len() - j,
    {
        let m = order[j];
        let ghost prev = reassemble(rw.rows(), init.rows(), order@.take(j as int));
        proof {
            assert(order@.take(j + 1).drop_last() =~= order@.take(j as int));
            assert(order@.take(j + 1).last() == m);
            assert(reassemble(rw.rows(), init.rows(), order@.take(j + 1)) == marker_step(
                prev.0,
                prev.1,
                marker_input(rw.rows(), init.rows(), m),
            ));
        }
        if m.kind == 0 {
            let f = &rw.fields[m.index];
            assert(f@ == rw.rows()[m.index as int].2);
            if f.len() > REG_WRITE_VAL {
                let reg = f[REG_WRITE_REG];
                if reg == SQ_THREAD_TRACE_USERDATA_2 || reg == SQ_THREAD_TRACE_USERDATA_3 {
                    acc.push(#[verifier::truncate] (f[REG_WRITE_VAL] as u32));
                    if SqttUserdata::len(acc[0]) == acc.len() {
                        let mut words: Vec<u32> = Vec::new();
                        std::mem::swap(&mut acc, &mut words);
                        let api_type = match SqttUserdata::new(words) {
                            Ok(u) => u.api_type(),
                            Err(_) => 0,
                        };
                        assert(api_type == api_code(words@[0]) as u32);
                        events.push(MarkerEvent { api_type, start: 0, end: 0 });
                        proof {
                            assert(event_codes(events@) =~= reassemble(rw.rows(), init.rows(), order@.take(j + 1)).1);
                        }
                    }
                }
            }
        } else {
            let f = &init.fields[m.index];
            assert(f@ == init.rows()[m.index as int].2);
            if f.len() > INITIATOR_VAL {
                let v = f[INITIATOR_VAL];
                assert(v & 0xfffff == v % 0x10_0000) by (bit_vector);
                if f[INITIATOR_TYPE] == 0 && v & 0xfffff == THREAD_TRACE_MARKER {
                    acc.clear();
                }
            }
        }
        j = j + 1;
    }
    proof {
        assert(order@.take(order@.len() as int) =~= order@);
    }
    events
}


/// The sequence numbers of the register writes and of the initiators of a
/// chunk, as the two columns to merge.
pub open spec fn marker_columns(chunk: &SqttChunk) -> Seq<Seq<u32>> {
    let rw = chunk.columns@[kind_index(PacketKind::RegWrite) as int];
    let init = chunk.columns@[kind_index(PacketKind::Initiator) as int];
    seq![rw.seq@, init.seq@]
}

/// `v` never decreases.
pub fn column_is_sorted(v: &Vec<u32>) -> (r: bool)
    ensures
        r == forall|i: int, j: int| 0 <= i <= j < v@.len() ==> v@[i] <= v@[j],
{
    let mut i: usize = 1;
    if v.len() == 0 {
        return true;
    }
    while i < v.len()
        invariant
            1 <= i <= v@.len(),
            forall|a: int, b: int| 0 <= a <= b < i ==> v@[a] <= v@[b],
        decreases v@.len() - i,
    {
        if v[i - 1] > v[i] {
            return false;
        }
        i = i + 1;
    }
    true
}

/// The markers of a chunk: its register writes and initiators merged by
/// sequence number, then reassembled.
pub fn marker_events(chunk: &SqttChunk) -> (r: Vec<MarkerEvent>)
    requires
        chunk.wf(),
        columns_sorted(marker_columns(chunk)),
    ensures
        exists|order: Seq<MergeItem>|
            is_merge_of(marker_columns(chunk), order) && event_codes(r@) == reassemble(
                chunk.records()[kind_index(PacketKind::RegWrite) as int],
                chunk.records()[kind_index(PacketKind::Initiator) as int],
                order,
            ).1,
        forall|j: int| 0 <= j < r@.len() ==> (#[trigger] r@[j]).start == 0 && r@[j].end == 0,
{
    let rw = chunk.column(PacketKind::RegWrite);
    let init = chunk.column(PacketKind::Initiator);
    let columns: Vec<&Vec<u32>> = vec![&rw.seq, &init.seq];
    proof {
        assert(columns@[0]@ == rw.seq@);
        assert(columns@[1]@ == init.seq@);
        assert(column_views(columns@) =~= marker_columns(chunk));
    }
    let order = merge_columns(&columns);
    proof {
        assert forall|j: int| 0 <= j < order@.len() implies {
            let m = #[trigger] order@[j];
            (m.kind == 0 && m.index < rw.rows().len()) || (m.kind == 1 && m.index < init.rows().len())
        } by {
            assert(crate::merge::valid_item(marker_columns(chunk), order@[j]));
        }
    }
    reassemble_markers(rw, init, &order)
}


/// Two writes to the userdata registers, the first declaring two words,
/// complete exactly one marker, whose API code is bits [7:26] of the first
/// word, and leave no words behind.
pub proof fn lemma_two_word_marker(w0: u32, w1: u32, reg0: u64, reg1: u64, events: Seq<u32>)
    requires
        declared_len(w0) == 2,
        reg0 == SQ_THREAD_TRACE_USERDATA_2 || reg0 == SQ_THREAD_TRACE_USERDATA_3,
        reg1 == SQ_THREAD_TRACE_USERDATA_2 || reg1 == SQ_THREAD_TRACE_USERDATA_3,
    ensures
        ({
            let first = marker_step(Seq::empty(), events, MarkerInput::Write { reg: reg0, val: w0 as u64 });
            let second = marker_step(first.0, first.1, MarkerInput::Write { reg: reg1, val: w1 as u64 });
            &&& first.1 == events
            &&& second.0 == Seq::<u32>::empty()
            &&& second.1 == events.push(api_code(w0) as u32)
        }),
{
    let first = marker_step(Seq::empty(), events, MarkerInput::Write { reg: reg0, val: w0 as u64 });
    assert(first.0 =~= seq![w0]);
    assert(first.0.push(w1)[0] == w0);
}

/// A marker initiator seen while a marker is incomplete drops its words and
/// completes no marker.
pub proof fn lemma_initiator_resyncs(acc: Seq<u32>, events: Seq<u32>, ty: u64, val: u64)
    requires
        acc.len() > 0,
        ty == 0,
        val % 0x10_0000 == THREAD_TRACE_MARKER,
    ensures
        marker_step(acc, events, MarkerInput::Initiator { ty, val }) == (Seq::<u32>::empty(), events),
{
}

} // verus!
