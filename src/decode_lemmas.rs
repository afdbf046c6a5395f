//! What decoding does on whole classes of buffers.
use crate::packet::{kind_index, kind_layout, lemma_layout_fits, packet_kind, packet_length, PacketKind, NUM_KINDS};
use crate::sqtt::{decode, decode_from, initial_state, no_records, record_packet, DecodeState, RecordView};
use crate::stream::{bit_len, le_value, lemma_bits_of_truncated, lemma_shift_twice, stream_bits};
use vstd::arithmetic::power2::{lemma2_to64, pow2};
use vstd::prelude::*;

verus! {

/// Number of records over all kinds.
pub open spec fn total_records(recs: Seq<Seq<RecordView>>) -> nat
    decreases recs.len(),
{
    if recs.len() == 0 {
        0
    } else {
        total_records(recs.drop_last()) + recs.last().len()
    }
}

proof fn lemma_total_records_push(recs: Seq<Seq<RecordView>>, i: int, r: RecordView)
    requires
        0 <= i < recs.len(),
    ensures
        total_records(recs.update(i, recs[i].push(r))) == total_records(recs) + 1,
    decreases recs.len(),
{
    if i < recs.len() - 1 {
        lemma_total_records_push(recs.drop_last(), i, r);
        assert(recs.update(i, recs[i].push(r)).drop_last() =~= recs.drop_last().update(
            i,
            recs.drop_last()[i].push(r),
        ));
    } else {
        assert(recs.update(i, recs[i].push(r)).drop_last() =~= recs.drop_last());
    }
}

proof fn lemma_total_records_empty(recs: Seq<Seq<RecordView>>)
    requires
        forall|k: int| 0 <= k < recs.len() ==> (#[trigger] recs[k]).len() == 0,
    ensures
        total_records(recs) == 0,
    decreases recs.len(),
{
    if recs.len() > 0 {
        lemma_total_records_empty(recs.drop_last());
    }
}

/// `n` whole packets, each of a kind that carries a record, lie back to back
/// from bit `from` to bit `to`.
pub open spec fn packets_between(s: Seq<u8>, from: nat, to: nat, n: nat) -> bool
    decreases n,
{
    if n == 0 {
        from == to
    } else {
        let sel = stream_bits(s, from, 8) as u8;
        &&& from + 8 <= bit_len(s)
        &&& packet_kind(sel) is Some
        &&& packet_length(sel) is Some
        &&& from + packet_length(sel).unwrap() <= bit_len(s)
        &&& packets_between(s, from + packet_length(sel).unwrap() as nat, to, (n - 1) as nat)
    }
}

/// All bits from `from` to the end of the buffer are zero.
pub open spec fn zero_from(s: Seq<u8>, from: nat) -> bool {
    from <= bit_len(s) && stream_bits(s, from, (bit_len(s) - from) as nat) == 0
}

/// The state after the whole packet at the cursor.
pub open spec fn after_packet(s: Seq<u8>, st: DecodeState) -> DecodeState {
    let sel = stream_bits(s, st.pos, 8) as u8;
    DecodeState {
        pos: st.pos + packet_length(sel).unwrap() as nat,
        count: st.count + 1,
        ..record_packet(s, st, sel)
    }
}

/// The state after `n` whole packets.
pub open spec fn after_packets(s: Seq<u8>, st: DecodeState, n: nat) -> DecodeState
    decreases n,
{
    if n == 0 {
        st
    } else {
        after_packets(s, after_packet(s, st), (n - 1) as nat)
    }
}

/// Decoding runs through whole packets one record each.
pub proof fn lemma_decode_packets(s: Seq<u8>, st: DecodeState, to: nat, n: nat)
    requires
        packets_between(s, st.pos, to, n),
        st.records.len() == NUM_KINDS,
    ensures
        decode_from(s, st) == decode_from(s, after_packets(s, st, n)),
        after_packets(s, st, n).pos == to,
        after_packets(s, st, n).count == st.count + n,
        after_packets(s, st, n).records.len() == NUM_KINDS,
        total_records(after_packets(s, st, n).records) == total_records(st.records) + n,
    decreases n,
{
    if n > 0 {
        let sel = stream_bits(s, st.pos, 8) as u8;
        lemma_layout_fits(sel);
        let k = packet_kind(sel).unwrap();
        let i = kind_index(k) as int;
        let st1 = after_packet(s, st);
        assert(decode_from(s, st) == decode_from(s, st1));
        let ts = crate::sqtt::timestamp_after(s, st.pos, kind_layout(k), st.timestamp);
        let v = crate::sqtt::stored_values(s, st.pos, kind_layout(k));
        lemma_total_records_push(st.records, i, ((st.count % 0x1_0000_0000) as u32, ts, v));
        lemma_decode_packets(s, st1, to, (n - 1) as nat);
    }
}

proof fn lemma_zero_bits(s: Seq<u8>, from: nat, w: nat)
    requires
        zero_from(s, from),
        w <= bit_len(s) - from,
    ensures
        stream_bits(s, from, w) == 0,
        w <= 4 ==> zero_from(s, from + 4) || from + 4 > bit_len(s),
{
    let y = le_value(s) / pow2(from);
    let n = (bit_len(s) - from) as nat;
    lemma2_to64();
    assert(y % pow2(n) == 0);
    lemma_bits_of_truncated(y, n, 0, w);
    assert(y / pow2(0) == y);
    assert((0nat / pow2(0)) % pow2(w) == 0) by {
        vstd::arithmetic::power2::lemma_pow2_pos(w);
        vstd::arithmetic::div_mod::lemma_small_mod(0, pow2(w));
    }
    if from + 4 <= bit_len(s) {
        lemma_bits_of_truncated(y, n, 4, (n - 4) as nat);
        lemma_shift_twice(le_value(s), from, 4);
        assert((0nat / pow2(4)) % pow2((n - 4) as nat) == 0) by {
            vstd::arithmetic::power2::lemma_pow2_pos((n - 4) as nat);
            vstd::arithmetic::div_mod::lemma_small_mod(0, pow2((n - 4) as nat));
        }
        assert(stream_bits(s, from + 4, (n - 4) as nat) == 0);
        assert((bit_len(s) - (from + 4)) as nat == (n - 4) as nat);
    }
}

/// Decoding zero bits to the end of the buffer adds no record and ends
/// cleanly.
proof fn lemma_zero_padding(s: Seq<u8>, st: DecodeState)
    requires
        zero_from(s, st.pos),
    ensures
        decode_from(s, st) matches Ok(fin) && fin.records == st.records,
    decreases bit_len(s) - st.pos,
{
    lemma2_to64();
    if st.pos + 8 > bit_len(s) {
        if st.pos + 4 <= bit_len(s) {
            lemma_zero_bits(s, st.pos, 4);
        }
    } else {
        lemma_zero_bits(s, st.pos, 8);
        lemma_zero_bits(s, st.pos, 4);
        assert(stream_bits(s, st.pos, 8) as u8 == 0u8);
        assert(packet_length(0u8) == Some(4u8));
        assert(packet_kind(0u8) is None);
        let next = DecodeState { pos: st.pos + 4, count: st.count + 1, ..st };
        assert(decode_from(s, st) == decode_from(s, next));
        lemma_zero_padding(s, next);
    }
}

/// A buffer of whole packets followed by zero bits decodes cleanly, to one
/// record per packet.
pub proof fn lemma_valid_packets_decode(s: Seq<u8>, n: nat, end: nat)
    requires
        packets_between(s, 0, end, n),
        zero_from(s, end),
    ensures
        decode(s) matches Ok(fin) && total_records(fin.records) == n,
{
    let st = initial_state();
    assert(no_records().len() == NUM_KINDS);
    lemma_total_records_empty(no_records());
    lemma_decode_packets(s, st, end, n);
    lemma_zero_padding(s, after_packets(s, st, n));
}

/// A selector that no packet has, met after whole packets, fails the
/// decoding with that selector; decoding met it after exactly those packets.
pub proof fn lemma_unknown_selector_fails(s: Seq<u8>, n: nat, at: nat)
    requires
        packets_between(s, 0, at, n),
        at + 8 <= bit_len(s),
        packet_length(stream_bits(s, at, 8) as u8) is None,
    ensures
        decode(s) == Err::<DecodeState, u8>(stream_bits(s, at, 8) as u8),
        after_packets(s, initial_state(), n).pos == at,
        after_packets(s, initial_state(), n).count == n,
{
    let st = initial_state();
    assert(no_records().len() == NUM_KINDS);
    lemma_decode_packets(s, st, at, n);
}


/// Every byte of `s` is a short-timestamp packet.
pub open spec fn all_short_timestamps(s: Seq<u8>) -> bool {
    forall|i: int| 0 <= i < s.len() ==> #[trigger] s[i] % 16 == 8
}

/// The sum of the high halves of the bytes: the values of short-timestamp
/// packets.
pub open spec fn high_nibble_sum(s: Seq<u8>) -> nat
    decreases s.len(),
{
    if s.len() == 0 {
        0
    } else {
        (s[0] / 16) as nat + high_nibble_sum(s.drop_first())
    }
}

proof fn lemma_wrapping_add_mod(x: u64, y: u64)
    ensures
        x.wrapping_add(y) as nat == (x + y) % 0x1_0000_0000_0000_0000,
{
    let m: int = 0x1_0000_0000_0000_0000;
    if x + y > u64::MAX {
        vstd::arithmetic::div_mod::lemma_fundamental_div_mod_converse(x + y, m, 1, x + y - m);
    } else {
        vstd::arithmetic::div_mod::lemma_small_mod((x + y) as nat, m as nat);
    }
}

/// The bits of byte `i`, from bit `b` on.
proof fn lemma_byte_bits(s: Seq<u8>, i: nat, b: nat, w: nat)
    requires
        i < s.len(),
        b + w <= 8,
    ensures
        stream_bits(s, 8 * i + b, w) == (s[i as int] as nat / pow2(b)) % pow2(w),
{
    crate::stream::lemma_window_field(s, i, 1, b, w);
    assert(s.subrange(i as int, i + 1 as int) =~= seq![s[i as int]]);
    assert(seq![s[i as int]].drop_first() =~= Seq::<u8>::empty());
    reveal_with_fuel(le_value, 2);
}

proof fn lemma_short_run(s: Seq<u8>, st: DecodeState, i: nat)
    requires
        all_short_timestamps(s),
        i <= s.len(),
        st.pos == 8 * i,
        st.records.len() == NUM_KINDS,
    ensures
        decode_from(s, st) matches Ok(fin) && fin.timestamp as nat == (st.timestamp + high_nibble_sum(
            s.skip(i as int),
        ) + 4 * (s.len() - i)) % 0x1_0000_0000_0000_0000,
    decreases s.len() - i,
{
    let m: int = 0x1_0000_0000_0000_0000;
    if i == s.len() {
        assert(s.skip(i as int) =~= Seq::<u8>::empty());
        vstd::arithmetic::div_mod::lemma_small_mod(st.timestamp as nat, m as nat);
    } else {
        lemma2_to64();
        let byte = s[i as int];
        lemma_byte_bits(s, i, 0, 8);
        lemma_byte_bits(s, i, 4, 4);
        assert(byte % 16 == 8);
        assert(byte % 8 == 0 && byte / 16 < 16) by (bit_vector)
            requires
                byte % 16 == 8,
        ;
        let sel = stream_bits(s, st.pos, 8) as u8;
        assert(sel == byte);
        assert(packet_length(sel) == Some(8u8));
        assert(packet_kind(sel) == Some(PacketKind::ShortTimestamp));
        let l = kind_layout(PacketKind::ShortTimestamp);
        assert(l.drop_last() =~= Seq::<crate::packet::FieldSpec>::empty());
        reveal_with_fuel(crate::sqtt::stored_values, 2);
        reveal_with_fuel(crate::sqtt::timestamp_after, 2);
        let nib = stream_bits(s, st.pos + 4, 4);
        assert(nib == byte / 16);
        assert(crate::sqtt::stored_values(s, st.pos, l) == seq![nib as u64]);
        assert(crate::sqtt::timestamp_after(s, st.pos, l, st.timestamp) == st.timestamp);
        let ts1 = st.timestamp.wrapping_add((nib + 4) as u64);
        let st1 = after_packet(s, st);
        assert(st1.timestamp == ts1);
        assert(decode_from(s, st) == decode_from(s, st1));
        lemma_short_run(s, st1, i + 1);
        lemma_wrapping_add_mod(st.timestamp, (nib + 4) as u64);
        let rest = high_nibble_sum(s.skip(i + 1 as int)) + 4 * (s.len() - (i + 1));
        assert(s.skip(i as int).drop_first() =~= s.skip(i + 1 as int));
        assert(high_nibble_sum(s.skip(i as int)) == (byte / 16) as nat + high_nibble_sum(s.skip(i + 1 as int)));
        let x = st.timestamp + nib + 4;
        vstd::arithmetic::div_mod::lemma_add_mod_noop(x % m, rest, m);
        vstd::arithmetic::div_mod::lemma_mod_twice(x, m);
        vstd::arithmetic::div_mod::lemma_add_mod_noop(x, rest, m);
    }
}

/// A buffer of short-timestamp packets alone ends at the timestamp that is
/// the sum of their values plus 4 for each, and holds one record per packet.
pub proof fn lemma_short_timestamps_sum(s: Seq<u8>)
    requires
        all_short_timestamps(s),
    ensures
        decode(s) matches Ok(fin) && fin.timestamp as nat == (high_nibble_sum(s) + 4 * s.len())
            % 0x1_0000_0000_0000_0000,
{
    assert(no_records().len() == NUM_KINDS);
    lemma_short_run(s, initial_state(), 0);
    assert(s.skip(0) =~= s);
}

/// Within each kind, sequence numbers strictly increase.
pub open spec fn seqs_increasing(recs: Seq<Seq<RecordView>>) -> bool {
    forall|k: int, i: int, j: int|
        0 <= k < recs.len() && 0 <= i < j < recs[k].len() ==> (#[trigger] recs[k][i]).0 < (
        #[trigger] recs[k][j]).0
}

/// Every sequence number is below `c`.
pub open spec fn seqs_below(recs: Seq<Seq<RecordView>>, c: nat) -> bool {
    forall|k: int, i: int|
        0 <= k < recs.len() && 0 <= i < recs[k].len() ==> ((#[trigger] recs[k][i]).0 as nat) < c
}

proof fn lemma_record_keeps_order(s: Seq<u8>, st: DecodeState, sel: u8)
    requires
        st.count < 0x1_0000_0000,
        seqs_increasing(st.records),
        seqs_below(st.records, st.count),
        st.records.len() == NUM_KINDS,
    ensures
        seqs_increasing(record_packet(s, st, sel).records),
        seqs_below(record_packet(s, st, sel).records, st.count + 1),
        record_packet(s, st, sel).records.len() == NUM_KINDS,
{
    let next = record_packet(s, st, sel);
    if next.records != st.records {
        let k = packet_kind(sel).unwrap();
        let ki = kind_index(k) as int;
        vstd::arithmetic::div_mod::lemma_small_mod(st.count, 0x1_0000_0000);
        assert forall|a: int, i: int, j: int|
            0 <= a < next.records.len() && 0 <= i < j < next.records[a].len() implies (
            #[trigger] next.records[a][i]).0 < (#[trigger] next.records[a][j]).0 by {
            if a == ki && j == next.records[a].len() - 1 {
                assert(st.records[a][i] == next.records[a][i]);
            } else {
                assert(st.records[a][i] == next.records[a][i]);
                assert(st.records[a][j] == next.records[a][j]);
            }
        }
        assert forall|a: int, i: int|
            0 <= a < next.records.len() && 0 <= i < next.records[a].len() implies ((
            #[trigger] next.records[a][i]).0 as nat) < st.count + 1 by {
            if !(a == ki && i == next.records[a].len() - 1) {
                assert(st.records[a][i] == next.records[a][i]);
            }
        }
    }
}

proof fn lemma_decode_keeps_order(s: Seq<u8>, st: DecodeState)
    requires
        st.records.len() == NUM_KINDS,
        st.count < 0x1_0000_0000 ==> seqs_increasing(st.records) && seqs_below(st.records, st.count),
    ensures
        decode_from(s, st) matches Ok(fin) ==> fin.count >= st.count && (fin.count < 0x1_0000_0000
            ==> seqs_increasing(fin.records) && seqs_below(fin.records, fin.count + 1)),
    decreases bit_len(s) - st.pos,
{
    if st.pos + 8 <= bit_len(s) {
        let sel = stream_bits(s, st.pos, 8) as u8;
        if st.count < 0x1_0000_0000 {
            lemma_record_keeps_order(s, st, sel);
        }
        if let Some(len) = packet_length(sel) {
            let next = record_packet(s, st, sel);
            assert(next.records.len() == NUM_KINDS);
            let st1 = DecodeState { pos: st.pos + len as nat, count: st.count + 1, ..next };
            if crate::sqtt::fields_fit(s, st, sel) && st.pos + len <= bit_len(s) {
                assert(decode_from(s, st) == decode_from(s, st1));
                lemma_decode_keeps_order(s, st1);
            }
        }
    } else {
        assert(seqs_below(st.records, st.count + 1));
    }
}

/// Within each kind the records' sequence numbers strictly increase, and
/// none passes the number of packets parsed, as long as that number fits the
/// 32-bit counter.
pub proof fn lemma_sequence_numbers_increase(s: Seq<u8>)
    ensures
        decode(s) matches Ok(fin) ==> (fin.count < 0x1_0000_0000 ==> seqs_increasing(fin.records)
            && seqs_below(fin.records, fin.count + 1)),
{
    assert(no_records().len() == NUM_KINDS);
    lemma_decode_keeps_order(s, initial_state());
}


/// The `n` whole packets from bit `from` are all of kind `k`.
pub open spec fn same_kind_run(s: Seq<u8>, from: nat, n: nat, k: PacketKind) -> bool
    decreases n,
{
    if n == 0 {
        true
    } else {
        let sel = stream_bits(s, from, 8) as u8;
        &&& packet_kind(sel) == Some(k)
        &&& same_kind_run(s, from + packet_length(sel).unwrap() as nat, (n - 1) as nat, k)
    }
}

proof fn lemma_run_seqs(s: Seq<u8>, st: DecodeState, to: nat, n: nat, k: PacketKind)
    requires
        packets_between(s, st.pos, to, n),
        same_kind_run(s, st.pos, n, k),
        st.records.len() == NUM_KINDS,
        st.count + n <= 0x1_0000_0000,
    ensures
        ({
            let ki = kind_index(k) as int;
            let fin = after_packets(s, st, n);
            &&& fin.records.len() == NUM_KINDS
            &&& fin.records[ki].len() == st.records[ki].len() + n
            &&& forall|i: int| 0 <= i < st.records[ki].len() ==> fin.records[ki][i] == st.records[ki][i]
            &&& forall|j: int|
                0 <= j < n ==> (#[trigger] fin.records[ki][st.records[ki].len() + j]).0 == st.count + j
        }),
    decreases n,
{
    if n > 0 {
        let sel = stream_bits(s, st.pos, 8) as u8;
        lemma_layout_fits(sel);
        let ki = kind_index(k) as int;
        let st1 = after_packet(s, st);
        vstd::arithmetic::div_mod::lemma_small_mod(st.count, 0x1_0000_0000);
        assert(st1.records[ki].len() == st.records[ki].len() + 1);
        assert(st1.records[ki][st.records[ki].len() as int].0 == st.count);
        lemma_run_seqs(s, st1, to, (n - 1) as nat, k);
        let fin = after_packets(s, st, n);
        assert(fin == after_packets(s, st1, (n - 1) as nat));
        assert forall|j: int| 0 <= j < n implies (#[trigger] fin.records[ki][st.records[ki].len() + j]).0
            == st.count + j by {
            if j > 0 {
                assert(fin.records[ki][st1.records[ki].len() + (j - 1)] == fin.records[ki][st.records[ki].len() + j]);
            }
        }
    }
}

/// After a run of `n` packets of one kind, then zero bits, that kind's
/// sequence numbers are 0, 1, ..., n - 1: one more for each packet.
pub proof fn lemma_one_kind_seqs(s: Seq<u8>, n: nat, end: nat, k: PacketKind)
    requires
        packets_between(s, 0, end, n),
        same_kind_run(s, 0, n, k),
        zero_from(s, end),
        n <= 0x1_0000_0000,
    ensures
        decode(s) matches Ok(fin) && fin.records[kind_index(k) as int].len() == n && forall|j: int|
            0 <= j < n ==> (#[trigger] fin.records[kind_index(k) as int][j]).0 == j,
{
    let st = initial_state();
    assert(no_records().len() == NUM_KINDS);
    assert(st.records[kind_index(k) as int].len() == 0);
    lemma_decode_packets(s, st, end, n);
    lemma_zero_padding(s, after_packets(s, st, n));
    lemma_run_seqs(s, st, end, n, k);
    let ki = kind_index(k) as int;
    let fin = after_packets(s, st, n);
    assert forall|j: int| 0 <= j < n implies (#[trigger] fin.records[ki][j]).0 == j by {
        assert(fin.records[ki][0 + j].0 == 0 + j);
    }
}

} // verus!
