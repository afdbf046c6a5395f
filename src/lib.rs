//! Decoding of GPU shader-trace (SQTT) streams into per-kind packet records,
//! and rebuilding of application markers from them.
use vstd::prelude::*;

pub mod bit_reader;
pub mod decode_lemmas;
pub mod markers;
pub mod merge;
pub mod packet;
pub mod rgp;
pub mod sqtt;
pub mod stream;
pub mod userdata;

pub use bit_reader::BitReader;
pub use markers::{marker_events, MarkerEvent};
pub use merge::{merge_columns, MergeItem};
pub use packet::{build_packet_length_table, sqtt_packet_length, PacketKind};
pub use sqtt::{parse_sqtt, PacketColumns, SqttChunk, SqttError};
pub use userdata::{SqttMarkerType, SqttUserdata, UserdataError};

verus! {

} // verus!
