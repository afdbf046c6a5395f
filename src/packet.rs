//! Packet selectors, lengths, kinds and the bit layout of each kind.
use vstd::prelude::*;

verus! {

/// The kinds of packet that carry a record.
#[derive(Clone, Copy, PartialEq, Eq, Structural, Debug)]
pub enum PacketKind {
    Packet0x21,
    Packet0x31,
    Packet0x41,
    Packet0x51,
    LongTimestamp,
    EventA,
    EventB,
    Initiator,
    RegWrite,
    WaveStart,
    WaveAllocEnd,
    GenericInst,
    ValuInst,
    Immediate,
    ImmediateOne,
    ShortTimestamp,
    Packet0x6,
    Packet0xe,
    Packet0xf,
}

/// Number of packet kinds.
pub const NUM_KINDS: usize = 19;

/// One field of a packet: `width` bits from bit `bottom` of the packet. A
/// `delta` field is not stored: it adds to the running timestamp.
#[derive(Clone, Copy, PartialEq, Eq, Structural, Debug)]
pub struct FieldSpec {
    pub bottom: usize,
    pub width: usize,
    pub delta: bool,
}

/// Length in bits of the packet whose low eight bits are `selector`, or
/// `None` for a selector that no packet has.
pub open spec fn packet_length(selector: u8) -> Option<u8> {
    if selector % 8 == 2 {
        Some(20)
    } else if selector % 8 == 3 {
        Some(12)
    } else {
        let m = selector % 16;
        if m == 0 {
            Some(4)
        } else if m == 1 {
            let h = (selector / 16) % 8;
            if h == 0 || h == 1 || h == 2 || h == 3 || h == 7 {
                Some(64)
            } else if h == 4 {
                Some(96)
            } else if h == 5 {
                Some(24)
            } else if selector / 16 == 6 {
                Some(24)
            } else {
                Some(32)
            }
        } else if m == 4 {
            Some(24)
        } else if m == 5 {
            Some(20)
        } else if m == 6 {
            if selector % 32 == 6 {
                Some(52)
            } else {
                Some(28)
            }
        } else if m == 8 || m == 14 || m == 15 {
            Some(8)
        } else if m == 9 {
            Some(64)
        } else if m == 12 {
            Some(32)
        } else if m == 13 {
            Some(12)
        } else {
            None
        }
    }
}

/// The kind of record that a packet with this selector gives; `None` for the
/// packets that carry none (padding, and one 64-bit kind) and for unknown
/// selectors.
pub open spec fn packet_kind(selector: u8) -> Option<PacketKind> {
    if selector % 8 == 2 {
        Some(PacketKind::GenericInst)
    } else if selector % 8 == 3 {
        Some(PacketKind::ValuInst)
    } else {
        let m = selector % 16;
        if m == 1 {
            let h = (selector / 16) % 8;
            if h == 0 {
                Some(PacketKind::LongTimestamp)
            } else if h == 2 {
                Some(PacketKind::Packet0x21)
            } else if h == 3 {
                Some(PacketKind::Packet0x31)
            } else if h == 4 {
                Some(PacketKind::Packet0x41)
            } else if h == 5 {
                Some(PacketKind::Packet0x51)
            } else if h == 6 {
                if selector / 16 == 6 {
                    Some(PacketKind::EventA)
                } else {
                    Some(PacketKind::EventB)
                }
            } else if h == 7 {
                Some(PacketKind::Initiator)
            } else {
                None
            }
        } else if m == 4 {
            Some(PacketKind::Immediate)
        } else if m == 5 {
            Some(PacketKind::WaveAllocEnd)
        } else if m == 6 {
            Some(PacketKind::Packet0x6)
        } else if m == 8 {
            Some(PacketKind::ShortTimestamp)
        } else if m == 9 {
            Some(PacketKind::RegWrite)
        } else if m == 12 {
            Some(PacketKind::WaveStart)
        } else if m == 13 {
            Some(PacketKind::ImmediateOne)
        } else if m == 14 {
            Some(PacketKind::Packet0xe)
        } else if m == 15 {
            Some(PacketKind::Packet0xf)
        } else {
            None
        }
    }
}

/// The length of a packet, from its selector.
pub fn sqtt_packet_length(selector: u8) -> (r: Option<u8>)
    ensures
        r == packet_length(selector),
{
    if selector % 8 == 2 {
        return Some(20);
    }
    if selector % 8 == 3 {
        return Some(12);
    }
    match selector % 16 {
        0 => Some(4),
        1 => match (selector / 16) % 8 {
            0 | 1 | 2 | 3 | 7 => Some(64),
            4 => Some(96),
            5 => Some(24),
            _ => if selector / 16 == 6 {
                Some(24)
            } else {
                Some(32)
            },
        },
        4 => Some(24),
        5 => Some(20),
        6 => if selector % 32 == 6 {
            Some(52)
        } else {
            Some(28)
        },
        8 | 14 | 15 => Some(8),
        9 => Some(64),
        12 => Some(32),
        13 => Some(12),
        _ => None,
    }
}

/// The kind of record of a packet, from its selector.
pub fn sqtt_packet_kind(selector: u8) -> (r: Option<PacketKind>)
    ensures
        r == packet_kind(selector),
{
    if selector % 8 == 2 {
        return Some(PacketKind::GenericInst);
    }
    if selector % 8 == 3 {
        return Some(PacketKind::ValuInst);
    }
    match selector % 16 {
        1 => match (selector / 16) % 8 {
            0 => Some(PacketKind::LongTimestamp),
            2 => Some(PacketKind::Packet0x21),
            3 => Some(PacketKind::Packet0x31),
            4 => Some(PacketKind::Packet0x41),
            5 => Some(PacketKind::Packet0x51),
            6 => if selector / 16 == 6 {
                Some(PacketKind::EventA)
            } else {
                Some(PacketKind::EventB)
            },
            7 => Some(PacketKind::Initiator),
            _ => None,
        },
        4 => Some(PacketKind::Immediate),
        5 => Some(PacketKind::WaveAllocEnd),
        6 => Some(PacketKind::Packet0x6),
        8 => Some(PacketKind::ShortTimestamp),
        9 => Some(PacketKind::RegWrite),
        12 => Some(PacketKind::WaveStart),
        13 => Some(PacketKind::ImmediateOne),
        14 => Some(PacketKind::Packet0xe),
        15 => Some(PacketKind::Packet0xf),
        _ => None,
    }
}

/// The packet length of every selector, indexed by selector.
pub fn build_packet_length_table() -> (r: Vec<Option<u8>>)
    ensures
        r@.len() == 256,
        forall|s: u8| #[trigger] r@[s as int] == packet_length(s),
{
    let mut table: Vec<Option<u8>> = Vec::new();
    let mut s: usize = 0;
    while s < 256
        invariant
            s <= 256,
            table@.len() == s,
            forall|t: u8| (t as int) < s ==> #[trigger] table@[t as int] == packet_length(t),
        decreases 256 - s,
    {
        table.push(sqtt_packet_length(s as u8));
        s = s + 1;
    }
    table
}

/// Position of a kind in the list of kinds.
pub open spec fn kind_index(kind: PacketKind) -> nat {
    match kind {
        PacketKind::Packet0x21 => 0,
        PacketKind::Packet0x31 => 1,
        PacketKind::Packet0x41 => 2,
        PacketKind::Packet0x51 => 3,
        PacketKind::LongTimestamp => 4,
        PacketKind::EventA => 5,
        PacketKind::EventB => 6,
        PacketKind::Initiator => 7,
        PacketKind::RegWrite => 8,
        PacketKind::WaveStart => 9,
        PacketKind::WaveAllocEnd => 10,
        PacketKind::GenericInst => 11,
        PacketKind::ValuInst => 12,
        PacketKind::Immediate => 13,
        PacketKind::ImmediateOne => 14,
        PacketKind::ShortTimestamp => 15,
        PacketKind::Packet0x6 => 16,
        PacketKind::Packet0xe => 17,
        PacketKind::Packet0xf => 18,
    }
}

impl PacketKind {
    /// Position of the kind in the list of kinds.
    pub fn index(self) -> (r: usize)
        ensures
            r as nat == kind_index(self),
            r < NUM_KINDS,
    {
        match self {
            PacketKind::Packet0x21 => 0,
            PacketKind::Packet0x31 => 1,
            PacketKind::Packet0x41 => 2,
            PacketKind::Packet0x51 => 3,
            PacketKind::LongTimestamp => 4,
            PacketKind::EventA => 5,
            PacketKind::EventB => 6,
            PacketKind::Initiator => 7,
            PacketKind::RegWrite => 8,
            PacketKind::WaveStart => 9,
            PacketKind::WaveAllocEnd => 10,
            PacketKind::GenericInst => 11,
            PacketKind::ValuInst => 12,
            PacketKind::Immediate => 13,
            PacketKind::ImmediateOne => 14,
            PacketKind::ShortTimestamp => 15,
            PacketKind::Packet0x6 => 16,
            PacketKind::Packet0xe => 17,
            PacketKind::Packet0xf => 18,
        }
    }
}

/// The fields of each kind, from the lowest bit up. The `delta` fields are
/// the time deltas; the others are stored in this order.
pub open spec fn kind_layout(kind: PacketKind) -> Seq<FieldSpec> {
    match kind {
        PacketKind::Packet0x21 => seq![FieldSpec { bottom: 8, width: 3, delta: true }],
        PacketKind::Packet0x31 => seq![FieldSpec { bottom: 7, width: 2, delta: true }],
        PacketKind::Packet0x41 => seq![FieldSpec { bottom: 7, width: 3, delta: true }],
        PacketKind::Packet0x51 => seq![FieldSpec { bottom: 7, width: 9, delta: true }],
        PacketKind::LongTimestamp => seq![FieldSpec { bottom: 14, width: 2, delta: false }, FieldSpec { bottom: 16, width: 48, delta: false }],
        PacketKind::EventA => seq![FieldSpec { bottom: 8, width: 3, delta: true }, FieldSpec { bottom: 11, width: 1, delta: false }, FieldSpec { bottom: 12, width: 2, delta: false }, FieldSpec { bottom: 14, width: 4, delta: false }, FieldSpec { bottom: 18, width: 6, delta: false }],
        PacketKind::EventB => seq![FieldSpec { bottom: 8, width: 3, delta: true }, FieldSpec { bottom: 11, width: 1, delta: false }, FieldSpec { bottom: 12, width: 2, delta: false }, FieldSpec { bottom: 14, width: 4, delta: false }, FieldSpec { bottom: 18, width: 2, delta: false }, FieldSpec { bottom: 20, width: 12, delta: false }],
        PacketKind::Initiator => seq![FieldSpec { bottom: 7, width: 3, delta: true }, FieldSpec { bottom: 14, width: 2, delta: false }, FieldSpec { bottom: 16, width: 2, delta: false }, FieldSpec { bottom: 18, width: 2, delta: false }, FieldSpec { bottom: 20, width: 33, delta: false }],
        PacketKind::RegWrite => seq![FieldSpec { bottom: 4, width: 3, delta: true }, FieldSpec { bottom: 7, width: 2, delta: false }, FieldSpec { bottom: 9, width: 2, delta: false }, FieldSpec { bottom: 11, width: 1, delta: false }, FieldSpec { bottom: 15, width: 1, delta: false }, FieldSpec { bottom: 16, width: 16, delta: false }, FieldSpec { bottom: 32, width: 32, delta: false }],
        PacketKind::WaveStart => seq![FieldSpec { bottom: 4, width: 3, delta: true }, FieldSpec { bottom: 7, width: 1, delta: false }, FieldSpec { bottom: 8, width: 2, delta: false }, FieldSpec { bottom: 10, width: 3, delta: false }, FieldSpec { bottom: 13, width: 5, delta: false }, FieldSpec { bottom: 18, width: 4, delta: false }, FieldSpec { bottom: 25, width: 7, delta: false }],
        PacketKind::WaveAllocEnd => seq![FieldSpec { bottom: 4, width: 1, delta: false }, FieldSpec { bottom: 5, width: 3, delta: true }, FieldSpec { bottom: 8, width: 1, delta: false }, FieldSpec { bottom: 9, width: 2, delta: false }, FieldSpec { bottom: 11, width: 3, delta: false }, FieldSpec { bottom: 15, width: 5, delta: false }],
        PacketKind::GenericInst => seq![FieldSpec { bottom: 4, width: 3, delta: true }, FieldSpec { bottom: 7, width: 1, delta: false }, FieldSpec { bottom: 8, width: 5, delta: false }, FieldSpec { bottom: 13, width: 7, delta: false }],
        PacketKind::ValuInst => seq![FieldSpec { bottom: 3, width: 3, delta: true }, FieldSpec { bottom: 6, width: 1, delta: false }, FieldSpec { bottom: 7, width: 5, delta: false }],
        PacketKind::Immediate => seq![FieldSpec { bottom: 5, width: 3, delta: true }, FieldSpec { bottom: 8, width: 16, delta: false }],
        PacketKind::ImmediateOne => seq![FieldSpec { bottom: 4, width: 3, delta: true }, FieldSpec { bottom: 7, width: 5, delta: false }],
        PacketKind::ShortTimestamp => seq![FieldSpec { bottom: 4, width: 4, delta: false }],
        PacketKind::Packet0x6 => seq![FieldSpec { bottom: 5, width: 3, delta: true }],
        PacketKind::Packet0xe => seq![FieldSpec { bottom: 4, width: 2, delta: true }],
        PacketKind::Packet0xf => seq![FieldSpec { bottom: 4, width: 2, delta: true }],
    }
}

/// The fields of a kind.
pub fn layout(kind: PacketKind) -> (r: Vec<FieldSpec>)
    ensures
        r@ == kind_layout(kind),
{
    match kind {
        PacketKind::Packet0x21 => vec![FieldSpec { bottom: 8, width: 3, delta: true }],
        PacketKind::Packet0x31 => vec![FieldSpec { bottom: 7, width: 2, delta: true }],
        PacketKind::Packet0x41 => vec![FieldSpec { bottom: 7, width: 3, delta: true }],
        PacketKind::Packet0x51 => vec![FieldSpec { bottom: 7, width: 9, delta: true }],
        PacketKind::LongTimestamp => vec![FieldSpec { bottom: 14, width: 2, delta: false }, FieldSpec { bottom: 16, width: 48, delta: false }],
        PacketKind::EventA => vec![FieldSpec { bottom: 8, width: 3, delta: true }, FieldSpec { bottom: 11, width: 1, delta: false }, FieldSpec { bottom: 12, width: 2, delta: false }, FieldSpec { bottom: 14, width: 4, delta: false }, FieldSpec { bottom: 18, width: 6, delta: false }],
        PacketKind::EventB => vec![FieldSpec { bottom: 8, width: 3, delta: true }, FieldSpec { bottom: 11, width: 1, delta: false }, FieldSpec { bottom: 12, width: 2, delta: false }, FieldSpec { bottom: 14, width: 4, delta: false }, FieldSpec { bottom: 18, width: 2, delta: false }, FieldSpec { bottom: 20, width: 12, delta: false }],
        PacketKind::Initiator => vec![FieldSpec { bottom: 7, width: 3, delta: true }, FieldSpec { bottom: 14, width: 2, delta: false }, FieldSpec { bottom: 16, width: 2, delta: false }, FieldSpec { bottom: 18, width: 2, delta: false }, FieldSpec { bottom: 20, width: 33, delta: false }],
        PacketKind::RegWrite => vec![FieldSpec { bottom: 4, width: 3, delta: true }, FieldSpec { bottom: 7, width: 2, delta: false }, FieldSpec { bottom: 9, width: 2, delta: false }, FieldSpec { bottom: 11, width: 1, delta: false }, FieldSpec { bottom: 15, width: 1, delta: false }, FieldSpec { bottom: 16, width: 16, delta: false }, FieldSpec { bottom: 32, width: 32, delta: false }],
        PacketKind::WaveStart => vec![FieldSpec { bottom: 4, width: 3, delta: true }, FieldSpec { bottom: 7, width: 1, delta: false }, FieldSpec { bottom: 8, width: 2, delta: false }, FieldSpec { bottom: 10, width: 3, delta: false }, FieldSpec { bottom: 13, width: 5, delta: false }, FieldSpec { bottom: 18, width: 4, delta: false }, FieldSpec { bottom: 25, width: 7, delta: false }],
        PacketKind::WaveAllocEnd => vec![FieldSpec { bottom: 4, width: 1, delta: false }, FieldSpec { bottom: 5, width: 3, delta: true }, FieldSpec { bottom: 8, width: 1, delta: false }, FieldSpec { bottom: 9, width: 2, delta: false }, FieldSpec { bottom: 11, width: 3, delta: false }, FieldSpec { bottom: 15, width: 5, delta: false }],
        PacketKind::GenericInst => vec![FieldSpec { bottom: 4, width: 3, delta: true }, FieldSpec { bottom: 7, width: 1, delta: false }, FieldSpec { bottom: 8, width: 5, delta: false }, FieldSpec { bottom: 13, width: 7, delta: false }],
        PacketKind::ValuInst => vec![FieldSpec { bottom: 3, width: 3, delta: true }, FieldSpec { bottom: 6, width: 1, delta: false }, FieldSpec { bottom: 7, width: 5, delta: false }],
        PacketKind::Immediate => vec![FieldSpec { bottom: 5, width: 3, delta: true }, FieldSpec { bottom: 8, width: 16, delta: false }],
        PacketKind::ImmediateOne => vec![FieldSpec { bottom: 4, width: 3, delta: true }, FieldSpec { bottom: 7, width: 5, delta: false }],
        PacketKind::ShortTimestamp => vec![FieldSpec { bottom: 4, width: 4, delta: false }],
        PacketKind::Packet0x6 => vec![FieldSpec { bottom: 5, width: 3, delta: true }],
        PacketKind::Packet0xe => vec![FieldSpec { bottom: 4, width: 2, delta: true }],
        PacketKind::Packet0xf => vec![FieldSpec { bottom: 4, width: 2, delta: true }],
    }
}


/// Bit just past the last field of a layout.
pub open spec fn layout_extent(l: Seq<FieldSpec>) -> nat {
    (l.last().bottom + l.last().width) as nat
}

/// Fields are non-empty, fit a read of the look-ahead, and come in order
/// without overlap.
pub open spec fn layout_wf(l: Seq<FieldSpec>) -> bool {
    &&& 0 < l.len()
    &&& layout_extent(l) <= 128
    &&& forall|i: int|
        0 <= i < l.len() ==> 0 < (#[trigger] l[i]).width <= crate::bit_reader::LOOK_AHEAD && l[i].bottom
            + l[i].width <= layout_extent(l)
    &&& forall|i: int, j: int|
        0 <= i < j < l.len() ==> #[trigger] l[i].bottom + l[i].width <= #[trigger] l[j].bottom
}

/// Every layout is well formed, and lies within the packets of its kind.
pub proof fn lemma_layout_fits(selector: u8)
    requires
        packet_kind(selector) is Some,
    ensures
        packet_length(selector) is Some,
        layout_wf(kind_layout(packet_kind(selector).unwrap())),
        layout_extent(kind_layout(packet_kind(selector).unwrap())) <= packet_length(
            selector,
        ).unwrap(),
{
}

} // verus!
