//! The messages of a stored forecast: for each field its header and its
//! values.
use vstd::prelude::*;

verus! {

/// The values of one field. Every number is kept as the 64 bits of its
/// IEEE 754 double-precision notation.
#[derive(Debug, Clone, PartialEq, Eq)]
pub struct Message {
    pub header: Header,
    pub data: Vec<u64>,
}

/// What a field is and on which grid it lies. Every number that is not a
/// code or a count is kept as the 64 bits of its IEEE 754 double-precision
/// notation.
#[derive(Debug, Clone, Copy, PartialEq, Eq, Structural)]
pub struct Header {
    pub discipline: u8,
    pub parameter_category: u8,
    pub parameter_number: u8,
    pub surface1_type: u8,
    pub surface1_value: u64,
    pub nx: usize,
    pub ny: usize,
    pub la1: u64,
    pub lo1: u64,
    pub dx: u64,
    pub dy: u64,
}

/// A `Message` with its values as a sequence.
pub struct MessageModel {
    pub header: Header,
    pub data: Seq<u64>,
}

impl View for Message {
    type V = MessageModel;

    open spec fn view(&self) -> MessageModel {
        MessageModel { header: self.header, data: self.data@ }
    }
}

/// The value of the first surface of a field at ten metres: the number 10.
pub const TEN_METRES: u64 = 0x4024_0000_0000_0000;

impl Header {
    /// Whether the field is a wind at ten metres above ground: a
    /// meteorological product of the category momentum, on a surface of the
    /// type "height above ground" with the value 10.
    pub open spec fn is_wind_at_ten_metres(self) -> bool {
        &&& self.discipline == 0
        &&& self.parameter_category == 2
        &&& self.surface1_type == 103
        &&& self.surface1_value == TEN_METRES
    }

    /// Whether two fields lie on one grid.
    pub open spec fn same_grid(self, other: Header) -> bool {
        &&& self.la1 == other.la1
        &&& self.lo1 == other.lo1
        &&& self.dy == other.dy
        &&& self.dx == other.dx
        &&& self.ny == other.ny
        &&& self.nx == other.nx
    }

    /// Whether the field is a wind at ten metres above ground.
    pub fn wind_at_ten_metres(&self) -> (b: bool)
        ensures
            b == self.is_wind_at_ten_metres(),
    {
        self.discipline == 0 && self.parameter_category == 2 && self.surface1_type == 103
            && self.surface1_value == TEN_METRES
    }

    /// Whether two fields lie on one grid.
    pub fn on_same_grid(&self, other: &Header) -> (b: bool)
        ensures
            b == self.same_grid(*other),
    {
        self.la1 == other.la1 && self.lo1 == other.lo1 && self.dy == other.dy && self.dx
            == other.dx && self.ny == other.ny && self.nx == other.nx
    }
}

/// The messages as models.
pub open spec fn models_of(messages: Seq<Message>) -> Seq<MessageModel> {
    messages.map_values(|m: Message| m@)
}

} // verus!
