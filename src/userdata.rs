//! Marker payloads: a few 32-bit words whose first word declares the kind of
//! marker, the number of words and the API call.
use vstd::prelude::*;

verus! {

/// The kinds of marker, numbered from 0 in this order.
#[allow(non_camel_case_types)]
#[derive(Clone, Copy, PartialEq, Eq, Structural, Debug)]
pub enum SqttMarkerType {
    RGP_SQTT_MARKER_IDENTIFIER_EVENT,
    RGP_SQTT_MARKER_IDENTIFIER_CB_START,
    RGP_SQTT_MARKER_IDENTIFIER_CB_END,
    RGP_SQTT_MARKER_IDENTIFIER_BARRIER_START,
    RGP_SQTT_MARKER_IDENTIFIER_BARRIER_END,
    RGP_SQTT_MARKER_IDENTIFIER_USER_EVENT,
    RGP_SQTT_MARKER_IDENTIFIER_GENERAL_API,
    RGP_SQTT_MARKER_IDENTIFIER_SYNC,
    RGP_SQTT_MARKER_IDENTIFIER_PRESENT,
    RGP_SQTT_MARKER_IDENTIFIER_LAYOUT_TRANSITION,
    RGP_SQTT_MARKER_IDENTIFIER_RENDER_PASS,
    RGP_SQTT_MARKER_IDENTIFIER_RESERVED2,
    RGP_SQTT_MARKER_IDENTIFIER_BIND_PIPELINE,
    RGP_SQTT_MARKER_IDENTIFIER_RESERVED4,
    RGP_SQTT_MARKER_IDENTIFIER_RESERVED5,
    RGP_SQTT_MARKER_IDENTIFIER_RESERVED6,
}

/// The number of a marker kind.
pub open spec fn marker_code(t: SqttMarkerType) -> u8 {
    match t {
        SqttMarkerType::RGP_SQTT_MARKER_IDENTIFIER_EVENT => 0,
        SqttMarkerType::RGP_SQTT_MARKER_IDENTIFIER_CB_START => 1,
        SqttMarkerType::RGP_SQTT_MARKER_IDENTIFIER_CB_END => 2,
        SqttMarkerType::RGP_SQTT_MARKER_IDENTIFIER_BARRIER_START => 3,
        SqttMarkerType::RGP_SQTT_MARKER_IDENTIFIER_BARRIER_END => 4,
        SqttMarkerType::RGP_SQTT_MARKER_IDENTIFIER_USER_EVENT => 5,
        SqttMarkerType::RGP_SQTT_MARKER_IDENTIFIER_GENERAL_API => 6,
        SqttMarkerType::RGP_SQTT_MARKER_IDENTIFIER_SYNC => 7,
        SqttMarkerType::RGP_SQTT_MARKER_IDENTIFIER_PRESENT => 8,
        SqttMarkerType::RGP_SQTT_MARKER_IDENTIFIER_LAYOUT_TRANSITION => 9,
        SqttMarkerType::RGP_SQTT_MARKER_IDENTIFIER_RENDER_PASS => 10,
        SqttMarkerType::RGP_SQTT_MARKER_IDENTIFIER_RESERVED2 => 11,
        SqttMarkerType::RGP_SQTT_MARKER_IDENTIFIER_BIND_PIPELINE => 12,
        SqttMarkerType::RGP_SQTT_MARKER_IDENTIFIER_RESERVED4 => 13,
        SqttMarkerType::RGP_SQTT_MARKER_IDENTIFIER_RESERVED5 => 14,
        SqttMarkerType::RGP_SQTT_MARKER_IDENTIFIER_RESERVED6 => 15,
    }
}

impl SqttMarkerType {
    /// The number of the kind.
    pub fn code(self) -> (r: u8)
        ensures
            r == marker_code(self),
    {
        match self {
            SqttMarkerType::RGP_SQTT_MARKER_IDENTIFIER_EVENT => 0,
            SqttMarkerType::RGP_SQTT_MARKER_IDENTIFIER_CB_START => 1,
            SqttMarkerType::RGP_SQTT_MARKER_IDENTIFIER_CB_END => 2,
            SqttMarkerType::RGP_SQTT_MARKER_IDENTIFIER_BARRIER_START => 3,
            SqttMarkerType::RGP_SQTT_MARKER_IDENTIFIER_BARRIER_END => 4,
            SqttMarkerType::RGP_SQTT_MARKER_IDENTIFIER_USER_EVENT => 5,
            SqttMarkerType::RGP_SQTT_MARKER_IDENTIFIER_GENERAL_API => 6,
            SqttMarkerType::RGP_SQTT_MARKER_IDENTIFIER_SYNC => 7,
            SqttMarkerType::RGP_SQTT_MARKER_IDENTIFIER_PRESENT => 8,
            SqttMarkerType::RGP_SQTT_MARKER_IDENTIFIER_LAYOUT_TRANSITION => 9,
            SqttMarkerType::RGP_SQTT_MARKER_IDENTIFIER_RENDER_PASS => 10,
            SqttMarkerType::RGP_SQTT_MARKER_IDENTIFIER_RESERVED2 => 11,
            SqttMarkerType::RGP_SQTT_MARKER_IDENTIFIER_BIND_PIPELINE => 12,
            SqttMarkerType::RGP_SQTT_MARKER_IDENTIFIER_RESERVED4 => 13,
            SqttMarkerType::RGP_SQTT_MARKER_IDENTIFIER_RESERVED5 => 14,
            SqttMarkerType::RGP_SQTT_MARKER_IDENTIFIER_RESERVED6 => 15,
        }
    }

    /// The kind with number `code`.
    pub fn from_code(code: u8) -> (r: SqttMarkerType)
        requires
            code < 16,
        ensures
            marker_code(r) == code,
    {
        match code {
            0 => SqttMarkerType::RGP_SQTT_MARKER_IDENTIFIER_EVENT,
            1 => SqttMarkerType::RGP_SQTT_MARKER_IDENTIFIER_CB_START,
            2 => SqttMarkerType::RGP_SQTT_MARKER_IDENTIFIER_CB_END,
            3 => SqttMarkerType::RGP_SQTT_MARKER_IDENTIFIER_BARRIER_START,
            4 => SqttMarkerType::RGP_SQTT_MARKER_IDENTIFIER_BARRIER_END,
            5 => SqttMarkerType::RGP_SQTT_MARKER_IDENTIFIER_USER_EVENT,
            6 => SqttMarkerType::RGP_SQTT_MARKER_IDENTIFIER_GENERAL_API,
            7 => SqttMarkerType::RGP_SQTT_MARKER_IDENTIFIER_SYNC,
            8 => SqttMarkerType::RGP_SQTT_MARKER_IDENTIFIER_PRESENT,
            9 => SqttMarkerType::RGP_SQTT_MARKER_IDENTIFIER_LAYOUT_TRANSITION,
            10 => SqttMarkerType::RGP_SQTT_MARKER_IDENTIFIER_RENDER_PASS,
            11 => SqttMarkerType::RGP_SQTT_MARKER_IDENTIFIER_RESERVED2,
            12 => SqttMarkerType::RGP_SQTT_MARKER_IDENTIFIER_BIND_PIPELINE,
            13 => SqttMarkerType::RGP_SQTT_MARKER_IDENTIFIER_RESERVED4,
            14 => SqttMarkerType::RGP_SQTT_MARKER_IDENTIFIER_RESERVED5,
            _ => SqttMarkerType::RGP_SQTT_MARKER_IDENTIFIER_RESERVED6,
        }
    }
}

/// Bits [0:3] of the first word: the kind of marker.
pub open spec fn marker_id(dw0: u32) -> nat {
    (dw0 as nat) % 16
}

/// Bits [4:6] of the first word: the declared number of words.
pub open spec fn declared_len(dw0: u32) -> nat {
    ((dw0 as nat) / 16) % 8
}

/// Bits [7:26] of the first word: the API call.
pub open spec fn api_code(dw0: u32) -> nat {
    ((dw0 as nat) / 128) % 0x10_0000
}

/// Why a list of words is not a marker payload.
#[derive(Clone, Copy, PartialEq, Eq, Structural, Debug)]
pub enum UserdataError {
    /// No words at all.
    Empty,
    /// The number of words differs from the number that the first declares.
    LengthMismatch { len: usize, declared: usize },
}

/// A complete marker payload.
pub struct SqttUserdata {
    dw: Vec<u32>,
}

impl View for SqttUserdata {
    type V = Seq<u32>;

    closed spec fn view(&self) -> Seq<u32> {
        self.dw@
    }
}

impl SqttUserdata {
    /// The words hold a whole payload: as many as the first declares.
    pub open spec fn wf(&self) -> bool {
        &&& self@.len() > 0
        &&& declared_len(self@[0]) == self@.len()
    }

    /// A payload of the words `dw`, or why they are none.
    pub fn new(dw: Vec<u32>) -> (r: Result<SqttUserdata, UserdataError>)
        ensures
            dw@.len() == 0 ==> r == Err::<SqttUserdata, UserdataError>(UserdataError::Empty),
            dw@.len() > 0 && declared_len(dw@[0]) != dw@.len() ==> r == Err::<
                SqttUserdata,
                UserdataError,
            >(UserdataError::LengthMismatch { len: dw@.len() as usize, declared: declared_len(dw@[0]) as usize }),
            dw@.len() > 0 && declared_len(dw@[0]) == dw@.len() ==> (r matches Ok(u) && u@ == dw@
                && u.wf()),
    {
        if dw.len() == 0 {
            return Err(UserdataError::Empty);
        }
        let declared = Self::len(dw[0]);
        if declared != dw.len() {
            return Err(UserdataError::LengthMismatch { len: dw.len(), declared });
        }
        Ok(SqttUserdata { dw })
    }

    /// The kind of marker: bits [0:3] of the first word.
    pub fn id(&self) -> (r: u8)
        requires
            self.wf(),
        ensures
            r as nat == marker_id(self@[0]),
    {
        let w = self.dw[0];
        assert(w & 15 == w % 16) by (bit_vector);
        (w & 15) as u8
    }

    /// The kind of marker, as a variant.
    pub fn marker_type(&self) -> (r: SqttMarkerType)
        requires
            self.wf(),
        ensures
            marker_code(r) as nat == marker_id(self@[0]),
    {
        SqttMarkerType::from_code(self.id())
    }

    /// The number of words that a payload with first word `dw0` declares:
    /// bits [4:6].
    pub fn len(dw0: u32) -> (r: usize)
        ensures
            r as nat == declared_len(dw0),
    {
        assert((dw0 >> 4u32) & 7 == (dw0 / 16) % 8) by (bit_vector);
        ((dw0 >> 4u32) & 7) as usize
    }

    /// The API call: bits [7:26] of the first word. It means something only
    /// where the payload has two words or more.
    pub fn api_type(&self) -> (r: u32)
        requires
            self.wf(),
        ensures
            r as nat == api_code(self@[0]),
    {
        let w = self.dw[0];
        assert((w >> 7u32) & 0xfffff == (w / 128) % 0x10_0000) by (bit_vector);
        (w >> 7u32) & 0xfffff
    }

    /// The words of the payload.
    pub fn words(&self) -> (r: &Vec<u32>)
        ensures
            r@ == self@,
    {
        &self.dw
    }
}

} // verus!
