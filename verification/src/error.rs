//! The errors of the library.
use crate::grib::{GribError, GribFault};
use crate::stamp::{StampError, StampFault};
use vstd::prelude::*;

verus! {

#[derive(Debug, Clone, PartialEq, Eq)]
pub enum Error {
    Error(),
    StampError(StampError),
    /// The forecast is not published yet.
    StampNotFoundError(),
    GribError(GribError),
    /// A picture cannot be decoded.
    ImageError(),
    /// An error of which only the text is kept.
    AnyhowError(String),
}

/// An `Error` with its text as a sequence of characters.
pub enum Fault {
    Error,
    StampError(StampFault),
    StampNotFoundError,
    GribError(GribFault),
    ImageError,
    AnyhowError(Seq<char>),
}

impl View for Error {
    type V = Fault;

    open spec fn view(&self) -> Fault {
        match self {
            Error::Error() => Fault::Error,
            Error::StampError(e) => Fault::StampError(e@),
            Error::StampNotFoundError() => Fault::StampNotFoundError,
            Error::GribError(e) => Fault::GribError(e@),
            Error::ImageError() => Fault::ImageError,
            Error::AnyhowError(s) => Fault::AnyhowError(s@),
        }
    }
}

} // verus!
