//! Section 6: bitmap.
use crate::grib::{parse_error, GribError, GribFault};
use vstd::prelude::*;
use vstd::slice::*;

verus! {

#[derive(Debug, Clone, PartialEq, Eq)]
pub struct BitMap {
    /// How the bitmap applies to the data.
    pub bitmap_indicator: u8,
    pub bitmap: Vec<u8>,
}

/// A `BitMap` with its bytes as a sequence.
pub struct BitMapModel {
    pub bitmap_indicator: u8,
    pub bitmap: Seq<u8>,
}

impl View for BitMap {
    type V = BitMapModel;

    open spec fn view(&self) -> BitMapModel {
        BitMapModel { bitmap_indicator: self.bitmap_indicator, bitmap: self.bitmap@ }
    }
}

/// What the body of section 6 holds.
pub open spec fn bitmap_of(body: Seq<u8>) -> Result<BitMapModel, GribFault> {
    if body.len() < 1 {
        Err(GribFault::ParseError("Section 6 is too short"@))
    } else {
        Ok(BitMapModel { bitmap_indicator: body[0], bitmap: body.skip(1) })
    }
}

impl BitMap {
    /// Reads the body of section 6.
    pub fn from_body(body: &[u8]) -> (r: Result<BitMap, GribError>)
        ensures
            match r {
                Ok(b) => bitmap_of(body@) == Ok::<BitMapModel, GribFault>(b@),
                Err(e) => bitmap_of(body@) == Err::<BitMapModel, GribFault>(e@),
            },
    {
        if body.len() < 1 {
            return Err(parse_error("Section 6 is too short"));
        }
        let bitmap: Vec<u8> = slice_to_vec(slice_subrange(body, 1, body.len()));
        Ok(BitMap { bitmap_indicator: body[0], bitmap })
    }
}

} // verus!
