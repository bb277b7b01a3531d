//! Complex packing with spatial differencing, data representation template
//! 5.3.
use crate::grib::sections::sect5::{
    Data, DataModel, DataRepresentationDefinition, DataRepresentationDefinitionModel,
};
use crate::grib::sections::sect7::complex::{grouped_values, unpack_groups};
use crate::grib::sections::sect7::{Grib2DataDecoder, Unpacked, UnpackedModel};
use crate::grib::utils::{be_u16, read_u16, GribInt};
use crate::grib::{decode_error, parse_error, GribError, GribFault};
use vstd::prelude::*;
use vstd::slice::*;

verus! {

/// The decoder of complex packing with spatial differencing.
pub struct GridPointDataComplexPackingSpacialDiffDecoder {}

/// What stands in front of the groups when the values are differences: the
/// first values of the field and the minimum of the differences.
#[derive(Debug, Clone, Copy, PartialEq, Eq, Structural)]
pub struct SpatialPreamble {
    pub z1: i16,
    /// The second value; 0 where the order of differencing is not 2.
    pub z2: i16,
    pub z_min: i16,
    /// The number of octets that were read: 6 with order 2, else 4.
    pub size: usize,
}

/// What the preamble at the front of `slice` holds. Each number takes two
/// octets and is written as sign and magnitude.
pub open spec fn preamble_of(order: u8, slice: Seq<u8>) -> Result<SpatialPreamble, GribFault> {
    if order == 2 {
        if slice.len() < 6 {
            Err(GribFault::DecodeError("Length Mismatch"@))
        } else {
            Ok(
                SpatialPreamble {
                    z1: be_u16(slice, 0).grib_int(),
                    z2: be_u16(slice, 2).grib_int(),
                    z_min: be_u16(slice, 4).grib_int(),
                    size: 6,
                },
            )
        }
    } else {
        if slice.len() < 4 {
            Err(GribFault::DecodeError("Length Mismatch"@))
        } else {
            Ok(
                SpatialPreamble {
                    z1: be_u16(slice, 0).grib_int(),
                    z2: 0,
                    z_min: be_u16(slice, 2).grib_int(),
                    size: 4,
                },
            )
        }
    }
}

/// Reads the preamble at the front of `slice`.
pub fn read_preamble(order: u8, slice: &[u8]) -> (r: Result<SpatialPreamble, GribError>)
    ensures
        match r {
            Ok(p) => preamble_of(order, slice@) == Ok::<SpatialPreamble, GribFault>(p),
            Err(e) => preamble_of(order, slice@) == Err::<SpatialPreamble, GribFault>(e@),
        },
{
    if order == 2 {
        if slice.len() < 6 {
            return Err(decode_error("Length Mismatch"));
        }
        Ok(
            SpatialPreamble {
                z1: read_u16(slice, 0).as_grib_int(),
                z2: read_u16(slice, 2).as_grib_int(),
                z_min: read_u16(slice, 4).as_grib_int(),
                size: 6,
            },
        )
    } else {
        if slice.len() < 4 {
            return Err(decode_error("Length Mismatch"));
        }
        Ok(
            SpatialPreamble {
                z1: read_u16(slice, 0).as_grib_int(),
                z2: 0,
                z_min: read_u16(slice, 2).as_grib_int(),
                size: 4,
            },
        )
    }
}

/// Value `k` of the field whose second-order differences are `deltas`: the
/// first two values are the first two differences, and every later value is
/// its difference and twice the value before it less the value before that.
pub open spec fn undifferenced(deltas: Seq<i64>, k: int) -> int
    decreases k,
{
    if k <= 0 {
        deltas[0] as int
    } else if k == 1 {
        deltas[1] as int
    } else {
        deltas[k] + 2 * undifferenced(deltas, k - 1) - undifferenced(deltas, k - 2)
    }
}

/// Whether the first `n` values of the field are numbers of 64 bits.
pub open spec fn undifferenced_in_range(deltas: Seq<i64>, n: int) -> bool {
    forall|k: int| 0 <= k < n ==> i64::MIN <= #[trigger] undifferenced(deltas, k) <= i64::MAX
}

/// The field whose second-order differences are `deltas`.
pub open spec fn undifferenced_values(deltas: Seq<i64>) -> Result<Seq<i64>, GribFault> {
    if undifferenced_in_range(deltas, deltas.len() as int) {
        Ok(Seq::new(deltas.len(), |k: int| undifferenced(deltas, k) as i64))
    } else {
        Err(GribFault::DecodeError("Overflow"@))
    }
}

/// Where the undoing of second-order differences stands: the differences,
/// the number of values that were handed out, and the last one (`prev1`) and
/// the one before it (`prev2`) as far as they were.
pub struct SpatialDiffModel {
    pub deltas: Seq<i64>,
    pub count: nat,
    pub prev1: i64,
    pub prev2: i64,
}

impl SpatialDiffModel {
    /// The next value of the field before it is held to 64 bits.
    pub open spec fn wide(self) -> int {
        if self.count < 2 {
            self.deltas[self.count as int] as int
        } else {
            self.deltas[self.count as int] + 2 * self.prev1 - self.prev2
        }
    }

    /// The next value of the field, if there is one.
    pub open spec fn value(self) -> Result<Option<i64>, GribFault> {
        if self.count >= self.deltas.len() {
            Ok(None)
        } else if i64::MIN <= self.wide() <= i64::MAX {
            Ok(Some(self.wide() as i64))
        } else {
            Err(GribFault::DecodeError("Overflow"@))
        }
    }

    /// The state after the next value was handed out.
    pub open spec fn after(self) -> SpatialDiffModel {
        if self.count == 0 {
            SpatialDiffModel { count: 1, prev2: self.wide() as i64, ..self }
        } else if self.count == 1 {
            SpatialDiffModel { count: 2, prev1: self.wide() as i64, ..self }
        } else {
            SpatialDiffModel {
                count: self.count + 1,
                prev1: self.wide() as i64,
                prev2: self.prev1,
                ..self
            }
        }
    }
}

/// Undoes second-order differences, value by value.
pub struct SpatialDiff2ndOrderDecodeIterator {
    iter: Vec<i64>,
    count: usize,
    prev1: i64,
    prev2: i64,
}

impl View for SpatialDiff2ndOrderDecodeIterator {
    type V = SpatialDiffModel;

    closed spec fn view(&self) -> SpatialDiffModel {
        SpatialDiffModel {
            deltas: self.iter@,
            count: self.count as nat,
            prev1: self.prev1,
            prev2: self.prev2,
        }
    }
}

impl SpatialDiff2ndOrderDecodeIterator {
    pub fn new(iter: Vec<i64>) -> (r: Self)
        ensures
            r@ == (SpatialDiffModel { deltas: iter@, count: 0, prev1: 0, prev2: 0 }),
    {
        Self { iter, count: 0, prev1: 0, prev2: 0 }
    }

    /// The next value of the field, if there is one; else the iterator stays
    /// as it is.
    pub fn next(&mut self) -> (r: Result<Option<i64>, GribError>)
        ensures
            match r {
                Ok(value) => old(self)@.value() == Ok::<Option<i64>, GribFault>(value),
                Err(e) => old(self)@.value() == Err::<Option<i64>, GribFault>(e@),
            },
            r matches Ok(Some(_)) ==> final(self)@ == old(self)@.after(),
            !(r matches Ok(Some(_))) ==> final(self)@ == old(self)@,
    {
        let count: usize = self.count;
        if count >= self.iter.len() {
            return Ok(None);
        }
        let v: i64 = self.iter[count];
        if count == 0 {
            self.count = 1;
            self.prev2 = v;
            Ok(Some(v))
        } else if count == 1 {
            self.count = 2;
            self.prev1 = v;
            Ok(Some(v))
        } else {
            let wide: i128 = (v as i128) + 2 * (self.prev1 as i128) - (self.prev2 as i128);
            if wide < i64::MIN as i128 || wide > i64::MAX as i128 {
                return Err(decode_error("Overflow"));
            }
            let value: i64 = wide as i64;
            self.count = count + 1;
            self.prev2 = self.prev1;
            self.prev1 = value;
            Ok(Some(value))
        }
    }
}

/// What complex packing with spatial differencing unpacks to: behind the
/// preamble the bytes are those of complex packing, and the values that they
/// unpack to are second-order differences.
pub open spec fn spatial_unpacked(
    data_repr_def: DataRepresentationDefinitionModel,
    slice: Seq<u8>,
) -> Result<UnpackedModel, GribFault> {
    match data_repr_def.data {
        DataModel::Data3(data) => match preamble_of(data.spacial_difference_order, slice) {
            Err(e) => Err(e),
            Ok(preamble) => match grouped_values(data_repr_def, slice.skip(preamble.size as int)) {
                Err(e) => Err(e),
                Ok(deltas) => match undifferenced_values(deltas) {
                    Err(e) => Err(e),
                    Ok(values) => Ok(
                        UnpackedModel::Scaled {
                            reference_value: data.reference_value,
                            binary_scale_factor: data.binary_scale_factor,
                            decimal_scale_factor: data.decimal_scale_factor,
                            values,
                        },
                    ),
                },
            },
        },
        _ => Err(GribFault::ParseError("Wrong decoder"@)),
    }
}

/// Undoes second-order differences.
pub fn undifference(deltas: Vec<i64>) -> (r: Result<Vec<i64>, GribError>)
    ensures
        match r {
            Ok(values) => undifferenced_values(deltas@) == Ok::<Seq<i64>, GribFault>(values@),
            Err(e) => undifferenced_values(deltas@) == Err::<Seq<i64>, GribFault>(e@),
        },
{
    let mut unpacked = SpatialDiff2ndOrderDecodeIterator::new(deltas);
    let mut values: Vec<i64> = Vec::new();
    loop
        invariant
            unpacked@.deltas == deltas@,
            unpacked@.count == values@.len(),
            unpacked@.count <= deltas@.len(),
            unpacked@.count == 1 ==> unpacked@.prev2 == undifferenced(deltas@, 0),
            unpacked@.count >= 2 ==> unpacked@.prev2 == undifferenced(
                deltas@,
                unpacked@.count - 2,
            ),
            unpacked@.count >= 2 ==> unpacked@.prev1 == undifferenced(
                deltas@,
                unpacked@.count - 1,
            ),
            undifferenced_in_range(deltas@, values@.len() as int),
            forall|k: int| 0 <= k < values@.len() ==> values@[k] == undifferenced(deltas@, k),
        decreases deltas@.len() - unpacked@.count,
    {
        let ghost state = unpacked@;
        proof {
            if state.count < deltas@.len() {
                assert(state.wide() == undifferenced(deltas@, state.count as int));
            }
        }
        match unpacked.next() {
            Err(e) => {
                assert(!(i64::MIN <= undifferenced(deltas@, state.count as int) <= i64::MAX));
                return Err(e);
            },
            Ok(None) => {
                assert(values@ =~= Seq::new(
                    deltas@.len(),
                    |k: int| undifferenced(deltas@, k) as i64,
                ));
                return Ok(values);
            },
            Ok(Some(value)) => {
                values.push(value);
            },
        }
    }
}

impl Grib2DataDecoder for GridPointDataComplexPackingSpacialDiffDecoder {
    open spec fn unpacked(
        &self,
        data_repr_def: DataRepresentationDefinitionModel,
        slice: Seq<u8>,
    ) -> Result<UnpackedModel, GribFault> {
        spatial_unpacked(data_repr_def, slice)
    }

    fn decode(&self, data_repr_def: &DataRepresentationDefinition, slice: &[u8]) -> (r: Result<
        Unpacked,
        GribError,
    >) {
        let data = match &data_repr_def.data {
            Data::Data3(data) => data,
            _ => {
                return Err(parse_error("Wrong decoder"));
            },
        };
        let preamble: SpatialPreamble = match read_preamble(data.spacial_difference_order, slice) {
            Err(e) => {
                return Err(e);
            },
            Ok(preamble) => preamble,
        };
        let packed: &[u8] = slice_subrange(slice, preamble.size, slice.len());
        let deltas: Vec<i64> = match unpack_groups(data_repr_def, packed) {
            Err(e) => {
                return Err(e);
            },
            Ok(deltas) => deltas,
        };
        match undifference(deltas) {
            Err(e) => Err(e),
            Ok(values) => Ok(
                Unpacked::Scaled {
                    reference_value: data.reference_value,
                    binary_scale_factor: data.binary_scale_factor,
                    decimal_scale_factor: data.decimal_scale_factor,
                    values,
                },
            ),
        }
    }
}

} // verus!
