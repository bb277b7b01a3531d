//! Section 7: the packed data and what unpacking makes of them.
pub mod complex;
pub mod complex_spacial_diff;
pub mod groups;
pub mod simple;

use crate::grib::sections::sect5::{DataRepresentationDefinition, DataRepresentationDefinitionModel};
use crate::grib::{GribError, GribFault};
use vstd::prelude::*;

verus! {

/// The values of a field as far as integers go. The number that a scaled
/// value `e` stands for is `(r + e * 2^b) * 10^-d`, with `r` the reference
/// value, `b` the binary and `d` the decimal scale factor.
#[derive(Debug, Clone, PartialEq, Eq)]
pub enum Unpacked {
    /// Values that stand for themselves, each as the 32 bits of its IEEE 754
    /// single-precision notation.
    Plain(Vec<u32>),
    /// Values that are still to be scaled.
    Scaled {
        /// Reference value, as the 32 bits of its IEEE 754 single-precision
        /// notation.
        reference_value: u32,
        binary_scale_factor: i16,
        decimal_scale_factor: i16,
        values: Vec<i64>,
    },
}

/// `Unpacked` with its values as sequences.
pub enum UnpackedModel {
    Plain(Seq<u32>),
    Scaled {
        reference_value: u32,
        binary_scale_factor: i16,
        decimal_scale_factor: i16,
        values: Seq<i64>,
    },
}

impl View for Unpacked {
    type V = UnpackedModel;

    open spec fn view(&self) -> UnpackedModel {
        match self {
            Unpacked::Plain(values) => UnpackedModel::Plain(values@),
            Unpacked::Scaled {
                reference_value,
                binary_scale_factor,
                decimal_scale_factor,
                values,
            } => UnpackedModel::Scaled {
                reference_value: *reference_value,
                binary_scale_factor: *binary_scale_factor,
                decimal_scale_factor: *decimal_scale_factor,
                values: values@,
            },
        }
    }
}

impl UnpackedModel {
    /// The number of values.
    pub open spec fn len(self) -> nat {
        match self {
            UnpackedModel::Plain(values) => values.len(),
            UnpackedModel::Scaled { values, .. } => values.len(),
        }
    }
}

/// A way of unpacking the data of section 7 by what section 5 says of them.
pub trait Grib2DataDecoder {
    /// What the bytes unpack to.
    spec fn unpacked(
        &self,
        data_repr_def: DataRepresentationDefinitionModel,
        slice: Seq<u8>,
    ) -> Result<UnpackedModel, GribFault>;

    fn decode(&self, data_repr_def: &DataRepresentationDefinition, slice: &[u8]) -> (r: Result<
        Unpacked,
        GribError,
    >)
        ensures
            match r {
                Ok(values) => self.unpacked(data_repr_def@, slice@) == Ok::<
                    UnpackedModel,
                    GribFault,
                >(values@),
                Err(e) => self.unpacked(data_repr_def@, slice@) == Err::<UnpackedModel, GribFault>(
                    e@,
                ),
            },
    ;
}

} // verus!
