//! Simple packing, data representation template 5.0.
use crate::grib::sections::sect5::{
    Data, DataModel, DataRepresentationDefinition, DataRepresentationDefinitionModel,
};
use crate::grib::sections::sect7::{Grib2DataDecoder, Unpacked, UnpackedModel};
use crate::grib::utils::{bits_value, lemma_bits_value_bounds, BitwiseIterator};
use crate::grib::{decode_error, parse_error, GribError, GribFault};
use vstd::prelude::*;

verus! {

/// The decoder of simple packing.
pub struct GridPointDataSimplePackingDecoder {}

/// The number of values of `num_bits` bits that the bytes hold.
pub open spec fn simple_count(slice: Seq<u8>, num_bits: nat) -> nat
    recommends
        num_bits > 0,
{
    (8 * slice.len()) / num_bits
}

/// The values of `num_bits` bits that the bytes hold, one behind the other;
/// of a value of more than 32 bits the low 32 are kept.
pub open spec fn simple_values(slice: Seq<u8>, num_bits: nat) -> Seq<i64>
    recommends
        num_bits > 0,
{
    Seq::new(
        simple_count(slice, num_bits),
        |k: int| (bits_value(slice, k * num_bits, num_bits) % 0x1_0000_0000) as i64,
    )
}

/// What simple packing unpacks to. Without bits per value every point has the
/// reference value; else the bytes must hold as many values as there are
/// points.
pub open spec fn simple_unpacked(
    data_repr_def: DataRepresentationDefinitionModel,
    slice: Seq<u8>,
) -> Result<UnpackedModel, GribFault> {
    match data_repr_def.data {
        DataModel::Data0(data) => if data.num_bits == 0 {
            Ok(
                UnpackedModel::Plain(
                    Seq::new(data_repr_def.num_points as nat, |k: int| data.reference_value),
                ),
            )
        } else if simple_count(slice, data.num_bits as nat) != data_repr_def.num_points {
            Err(GribFault::DecodeError("Length Mismatch"@))
        } else {
            Ok(
                UnpackedModel::Scaled {
                    reference_value: data.reference_value,
                    binary_scale_factor: data.binary_scale_factor,
                    decimal_scale_factor: data.decimal_scale_factor,
                    values: simple_values(slice, data.num_bits as nat),
                },
            )
        },
        _ => Err(GribFault::ParseError("Wrong decoder"@)),
    }
}

/// Without bits per value simple packing gives every point the reference
/// value, whatever the bytes and the scale factors are.
pub proof fn lemma_simple_without_bits(
    data_repr_def: DataRepresentationDefinitionModel,
    slice: Seq<u8>,
)
    requires
        data_repr_def.data matches DataModel::Data0(data) && data.num_bits == 0,
    ensures
        simple_unpacked(data_repr_def, slice) matches Ok(UnpackedModel::Plain(values))
            && values.len() == data_repr_def.num_points && forall|k: int|
            0 <= k < values.len() ==> values[k] == data_repr_def.data->Data0_0.reference_value,
{
}

/// Without bits per value and without points simple packing gives nothing.
pub proof fn lemma_simple_without_points(
    data_repr_def: DataRepresentationDefinitionModel,
    slice: Seq<u8>,
)
    requires
        data_repr_def.data matches DataModel::Data0(data) && data.num_bits == 0,
        data_repr_def.num_points == 0,
    ensures
        simple_unpacked(data_repr_def, slice) == Ok::<UnpackedModel, GribFault>(
            UnpackedModel::Plain(Seq::empty()),
        ),
{
    assert(Seq::new(0, |k: int| data_repr_def.data->Data0_0.reference_value) =~= Seq::<
        u32,
    >::empty());
}

proof fn lemma_low_32(v: int)
    ensures
        (v % 0x1_0000_0000_0000_0000) % 0x1_0000_0000 == v % 0x1_0000_0000,
{
    vstd::arithmetic::div_mod::lemma_mod_mod(v, 0x1_0000_0000, 0x1_0000_0000);
}

proof fn lemma_value_fits(count: int, k: int, num_bits: int, total: int)
    requires
        num_bits > 0,
        0 <= k < count,
        count == total / num_bits,
        total >= 0,
    ensures
        k * num_bits + num_bits <= total,
        k * num_bits >= 0,
{
    assert(count * num_bits <= total) by {
        vstd::arithmetic::div_mod::lemma_fundamental_div_mod(total, num_bits);
        vstd::arithmetic::div_mod::lemma_mod_bound(total, num_bits);
        assert(num_bits * count == count * num_bits) by (nonlinear_arith);
    }
    assert((k + 1) * num_bits <= count * num_bits) by (nonlinear_arith)
        requires
            k + 1 <= count,
            num_bits > 0,
    ;
    assert((k + 1) * num_bits == k * num_bits + num_bits) by (nonlinear_arith);
    assert(k * num_bits >= 0) by (nonlinear_arith)
        requires
            k >= 0,
            num_bits > 0,
    ;
}

impl Grib2DataDecoder for GridPointDataSimplePackingDecoder {
    open spec fn unpacked(
        &self,
        data_repr_def: DataRepresentationDefinitionModel,
        slice: Seq<u8>,
    ) -> Result<UnpackedModel, GribFault> {
        simple_unpacked(data_repr_def, slice)
    }

    fn decode(&self, data_repr_def: &DataRepresentationDefinition, slice: &[u8]) -> (r: Result<
        Unpacked,
        GribError,
    >) {
        let data = match &data_repr_def.data {
            Data::Data0(data) => data,
            _ => {
                return Err(parse_error("Wrong decoder"));
            },
        };
        let num_points: usize = data_repr_def.num_points;
        if data.num_bits == 0 {
            let mut decoded: Vec<u32> = Vec::new();
            let mut k: usize = 0;
            while k < num_points
                invariant
                    k <= num_points,
                    decoded@ == Seq::new(k as nat, |i: int| data.reference_value),
                decreases num_points - k,
            {
                decoded.push(data.reference_value);
                k = k + 1;
                assert(decoded@ =~= Seq::new(k as nat, |i: int| data.reference_value));
            }
            return Ok(Unpacked::Plain(decoded));
        }
        let num_bits: usize = data.num_bits;
        let total: u128 = 8 * (slice.len() as u128);
        let count: u128 = total / (num_bits as u128);
        if count != num_points as u128 {
            return Err(decode_error("Length Mismatch"));
        }
        let mut bits = BitwiseIterator::new(slice, num_bits);
        let mut decoded: Vec<i64> = Vec::new();
        let mut k: usize = 0;
        while k < num_points
            invariant
                k <= num_points,
                num_bits > 0,
                num_points == simple_count(slice@, num_bits as nat),
                bits@.bytes == slice@,
                bits@.width == num_bits,
                bits@.at == k * num_bits,
                decoded@ == simple_values(slice@, num_bits as nat).take(k as int),
            decreases num_points - k,
        {
            proof {
                lemma_value_fits(
                    num_points as int,
                    k as int,
                    num_bits as int,
                    (8 * slice@.len()) as int,
                );
                lemma_low_32(bits_value(slice@, k * num_bits, num_bits as nat));
                lemma_bits_value_bounds(slice@, k * num_bits, num_bits as nat);
                assert((k + 1) * num_bits == k * num_bits + num_bits) by (nonlinear_arith);
            }
            let value: u64 = match bits.next() {
                Some(value) => value,
                None => {
                    return Err(decode_error("Length Mismatch"));
                },
            };
            decoded.push((value % 0x1_0000_0000) as i64);
            k = k + 1;
            assert(decoded@ =~= simple_values(slice@, num_bits as nat).take(k as int));
        }
        assert(decoded@ =~= simple_values(slice@, num_bits as nat));
        Ok(
            Unpacked::Scaled {
                reference_value: data.reference_value,
                binary_scale_factor: data.binary_scale_factor,
                decimal_scale_factor: data.decimal_scale_factor,
                values: decoded,
            },
        )
    }
}

} // verus!
