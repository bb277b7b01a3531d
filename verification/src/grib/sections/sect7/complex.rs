//! Complex packing, data representation template 5.2.
use crate::grib::sections::sect5::{
    Data, DataModel, DataRepresentationDefinition, DataRepresentationDefinitionModel,
};
use crate::grib::sections::sect7::groups::{decode, groups_of, Group, GroupsIterator, GroupsModel};
use crate::grib::sections::sect7::{Grib2DataDecoder, Unpacked, UnpackedModel};
use crate::grib::utils::{lemma_bits_value_skip, read_at, BitwiseIterator, GribInt};
use crate::grib::{decode_error, parse_error, GribError, GribFault};
use vstd::prelude::*;
use vstd::slice::*;

verus! {

/// The decoder of complex packing.
pub struct GridPointDataComplexPackingDecoder {}

/// Where the unpacking of grouped values stands: the bytes that hold the
/// values, the reading of the groups and the bit at which the values of the
/// next group start.
pub struct ComplexModel {
    pub payload: Seq<u8>,
    pub groups: GroupsModel,
    pub at: nat,
}

impl ComplexModel {
    /// Value `j` of group `group`: the reference value of the group and what
    /// its bits write as sign and magnitude.
    pub open spec fn value(self, group: Group, j: int) -> int {
        group.reference + (read_at(
            self.payload,
            (self.at + j * group.width) as nat,
            group.width as nat,
        )->0).grib_int()
    }

    /// The values of group `group`.
    pub open spec fn values(self, group: Group) -> Seq<i64> {
        Seq::new(group.length as nat, |j: int| self.value(group, j) as i64)
    }

    /// Whether the bytes hold all the values of group `group`.
    pub open spec fn holds(self, group: Group) -> bool {
        self.at + group.width * group.length <= 8 * self.payload.len()
    }

    /// Whether each value of group `group` is one of 64 bits.
    pub open spec fn in_range(self, group: Group) -> bool {
        forall|j: int|
            0 <= j < group.length ==> i64::MIN <= #[trigger] self.value(group, j) <= i64::MAX
    }

    /// The values of the next group, if there is one.
    pub open spec fn group_values(self) -> Result<Option<Seq<i64>>, GribFault> {
        match self.groups.group() {
            Err(e) => Err(e),
            Ok(None) => Ok(None),
            Ok(Some(group)) => if !self.holds(group) {
                Err(GribFault::DecodeError("Length Mismatch"@))
            } else if !self.in_range(group) {
                Err(GribFault::DecodeError("Overflow"@))
            } else {
                Ok(Some(self.values(group)))
            },
        }
    }

    /// The unpacking after the values of group `group` were read.
    pub open spec fn after(self, group: Group) -> ComplexModel {
        ComplexModel {
            groups: self.groups.after(),
            at: (self.at + group.width * group.length) as nat,
            ..self
        }
    }

    /// The number of groups that are still to be read.
    pub open spec fn groups_left(self) -> nat {
        if self.groups.index <= self.groups.definition.num_groups {
            (self.groups.definition.num_groups - self.groups.index) as nat
        } else {
            0
        }
    }

    /// The values of `done` and behind them those of all groups that are still
    /// to be read.
    pub open spec fn all_values(self, done: Seq<i64>) -> Result<Seq<i64>, GribFault>
        decreases self.groups_left(),
    {
        match self.groups.group() {
            Err(e) => Err(e),
            Ok(None) => Ok(done),
            Ok(Some(group)) => match self.group_values() {
                Err(e) => Err(e),
                Ok(None) => Ok(done),
                Ok(Some(values)) => self.after(group).all_values(done + values),
            },
        }
    }
}

/// Unpacks the values of complex packing, group by group.
pub struct ComplexPackingDecoderIterator<'a> {
    slice: &'a [u8],
    groups_iter: GroupsIterator<'a>,
    pos: usize,
    start_offset_num_bits: usize,
}

impl<'a> View for ComplexPackingDecoderIterator<'a> {
    type V = ComplexModel;

    closed spec fn view(&self) -> ComplexModel {
        ComplexModel {
            payload: self.slice@,
            groups: self.groups_iter@,
            at: (8 * self.pos + self.start_offset_num_bits) as nat,
        }
    }
}

impl<'a> ComplexPackingDecoderIterator<'a> {
    pub fn new(slice: &'a [u8], groups_iter: GroupsIterator<'a>) -> (r: Self)
        ensures
            r@ == (ComplexModel { payload: slice@, groups: groups_iter@, at: 0 }),
    {
        Self { slice, groups_iter, pos: 0, start_offset_num_bits: 0 }
    }

    /// The values of the next group, if there is one; else the iterator stays
    /// as it is.
    pub fn next(&mut self) -> (r: Result<Option<Vec<i64>>, GribError>)
        ensures
            match r {
                Ok(Some(values)) => {
                    &&& old(self)@.group_values() == Ok::<Option<Seq<i64>>, GribFault>(
                        Some(values@),
                    )
                    &&& old(self)@.groups.group() matches Ok(Some(group)) && final(self)@ == old(
                        self,
                    )@.after(group)
                },
                Ok(None) => old(self)@.group_values() == Ok::<Option<Seq<i64>>, GribFault>(None),
                Err(e) => old(self)@.group_values() == Err::<Option<Seq<i64>>, GribFault>(e@),
            },
            !(r matches Ok(Some(_))) ==> final(self)@ == old(self)@,
    {
        let ghost before = self@;
        let mut groups_iter = self.groups_iter;
        let group: Group = match groups_iter.next() {
            Err(e) => {
                return Err(e);
            },
            Ok(None) => {
                return Ok(None);
            },
            Ok(Some(group)) => group,
        };
        let len: usize = self.slice.len();
        let total: u128 = 8 * (len as u128);
        let start: u128 = 8 * (self.pos as u128) + (self.start_offset_num_bits as u128);
        proof {
            assert(0 <= group.width * group.length) by (nonlinear_arith)
                requires
                    group.width >= 0,
                    group.length >= 0,
            ;
        }
        if start > total {
            return Err(decode_error("Length Mismatch"));
        }
        let available: u128 = total - start;
        if group.width > 0 && group.length as u128 > available / (group.width as u128) {
            proof {
                lemma_too_long(group.length as int, group.width as int, available as int);
            }
            return Err(decode_error("Length Mismatch"));
        }
        proof {
            if group.width > 0 {
                lemma_not_too_long(group.length as int, group.width as int, available as int);
            } else {
                assert(group.width * group.length == 0) by (nonlinear_arith)
                    requires
                        group.width == 0,
                ;
            }
        }
        let first: usize = (start / 8) as usize;
        let offset: usize = (start % 8) as usize;
        let tail: &[u8] = slice_subrange(self.slice, first, len);
        let mut bits = BitwiseIterator::new(tail, group.width).with_offset(offset);
        let mut values: Vec<i64> = Vec::new();
        let mut j: usize = 0;
        while j < group.length
            invariant
                j <= group.length,
                before == old(self)@,
                before.payload == self.slice@,
                before.at == 8 * first + offset,
                before.groups.group() == Ok::<Option<Group>, GribFault>(Some(group)),
                groups_iter@ == before.groups.after(),
                len == self.slice@.len(),
                first <= self.slice@.len(),
                offset < 8,
                tail@ == self.slice@.skip(first as int),
                before.holds(group),
                bits@.bytes == tail@,
                bits@.width == group.width,
                bits@.at == offset + j * group.width,
                values@.len() == j,
                forall|i: int|
                    0 <= i < j ==> i64::MIN <= #[trigger] before.value(group, i) <= i64::MAX,
                forall|i: int| 0 <= i < j ==> values@[i] == before.value(group, i),
            decreases group.length - j,
        {
            proof {
                lemma_inside(j as int, group.length as int, group.width as int);
                lemma_bits_value_skip(
                    self.slice@,
                    first as nat,
                    offset + j * group.width,
                    group.width as nat,
                );
            }
            let raw: u64 = match bits.next() {
                Some(raw) => raw,
                None => {
                    return Err(decode_error("Length Mismatch"));
                },
            };
            let value: i64 = match group.reference.checked_add(raw.as_grib_int()) {
                Some(value) => value,
                None => {
                    assert(!(i64::MIN <= before.value(group, j as int) <= i64::MAX));
                    return Err(decode_error("Overflow"));
                },
            };
            values.push(value);
            j = j + 1;
        }
        assert(values@ =~= before.values(group));
        proof {
            assert(group.length * group.width == group.width * group.length) by (nonlinear_arith);
            assert(bits@.at <= 8 * (len - first));
        }
        self.groups_iter = groups_iter;
        self.pos = first + bits.byte_position();
        self.start_offset_num_bits = bits.bit_offset();
        Ok(Some(values))
    }
}

proof fn lemma_too_long(length: int, width: int, available: int)
    requires
        width > 0,
        available >= 0,
        length > available / width,
    ensures
        width * length > available,
{
    vstd::arithmetic::div_mod::lemma_fundamental_div_mod(available, width);
    vstd::arithmetic::div_mod::lemma_mod_bound(available, width);
    assert(width * length >= width * (available / width + 1)) by (nonlinear_arith)
        requires
            width > 0,
            length >= available / width + 1,
    ;
    assert(width * (available / width + 1) == width * (available / width) + width)
        by (nonlinear_arith);
}

proof fn lemma_not_too_long(length: int, width: int, available: int)
    requires
        width > 0,
        available >= 0,
        0 <= length <= available / width,
    ensures
        width * length <= available,
{
    vstd::arithmetic::div_mod::lemma_fundamental_div_mod(available, width);
    vstd::arithmetic::div_mod::lemma_mod_bound(available, width);
    assert(width * length <= width * (available / width)) by (nonlinear_arith)
        requires
            width > 0,
            0 <= length <= available / width,
    ;
}

proof fn lemma_inside(j: int, length: int, width: int)
    requires
        0 <= j < length,
        width >= 0,
    ensures
        0 <= j * width,
        j * width + width <= width * length,
        (j + 1) * width == j * width + width,
{
    assert(0 <= j * width) by (nonlinear_arith)
        requires
            0 <= j,
            width >= 0,
    ;
    assert((j + 1) * width <= length * width) by (nonlinear_arith)
        requires
            j + 1 <= length,
            width >= 0,
    ;
    assert((j + 1) * width == j * width + width) by (nonlinear_arith);
    assert(length * width == width * length) by (nonlinear_arith);
}

/// The values that the groups at the front of `slice` describe, unpacked from
/// the bytes behind the descriptions.
pub open spec fn grouped_values(
    data_repr_def: DataRepresentationDefinitionModel,
    slice: Seq<u8>,
) -> Result<Seq<i64>, GribFault> {
    match groups_of(data_repr_def, slice) {
        Err(e) => Err(e),
        Ok((groups, size)) => (ComplexModel { payload: slice.skip(size as int), groups, at: 0 })
            .all_values(Seq::empty()),
    }
}

/// Unpacks the values that the groups at the front of `slice` describe.
pub fn unpack_groups(data_repr_def: &DataRepresentationDefinition, slice: &[u8]) -> (r: Result<
    Vec<i64>,
    GribError,
>)
    ensures
        match r {
            Ok(values) => grouped_values(data_repr_def@, slice@) == Ok::<Seq<i64>, GribFault>(
                values@,
            ),
            Err(e) => grouped_values(data_repr_def@, slice@) == Err::<Seq<i64>, GribFault>(e@),
        },
{
    let (groups_iter, groups_num_bytes) = match decode(data_repr_def, slice) {
        Err(e) => {
            return Err(e);
        },
        Ok(found) => found,
    };
    let payload: &[u8] = slice_subrange(slice, groups_num_bytes, slice.len());
    let mut unpacker = ComplexPackingDecoderIterator::new(payload, groups_iter);
    let mut values: Vec<i64> = Vec::new();
    loop
        invariant
            grouped_values(data_repr_def@, slice@) == unpacker@.all_values(values@),
        decreases unpacker@.groups_left(),
    {
        match unpacker.next() {
            Err(e) => {
                return Err(e);
            },
            Ok(None) => {
                return Ok(values);
            },
            Ok(Some(mut more)) => {
                values.append(&mut more);
            },
        }
    }
}

/// What complex packing unpacks to.
pub open spec fn complex_unpacked(
    data_repr_def: DataRepresentationDefinitionModel,
    slice: Seq<u8>,
) -> Result<UnpackedModel, GribFault> {
    match data_repr_def.data {
        DataModel::Data2(data) => match grouped_values(data_repr_def, slice) {
            Err(e) => Err(e),
            Ok(values) => Ok(
                UnpackedModel::Scaled {
                    reference_value: data.reference_value,
                    binary_scale_factor: data.binary_scale_factor,
                    decimal_scale_factor: data.decimal_scale_factor,
                    values,
                },
            ),
        },
        _ => Err(GribFault::ParseError("Wrong decoder"@)),
    }
}

impl Grib2DataDecoder for GridPointDataComplexPackingDecoder {
    open spec fn unpacked(
        &self,
        data_repr_def: DataRepresentationDefinitionModel,
        slice: Seq<u8>,
    ) -> Result<UnpackedModel, GribFault> {
        complex_unpacked(data_repr_def, slice)
    }

    fn decode(&self, data_repr_def: &DataRepresentationDefinition, slice: &[u8]) -> (r: Result<
        Unpacked,
        GribError,
    >) {
        let data = match &data_repr_def.data {
            Data::Data2(data) => data,
            _ => {
                return Err(parse_error("Wrong decoder"));
            },
        };
        match unpack_groups(data_repr_def, slice) {
            Err(e) => Err(e),
            Ok(values) => Ok(
                Unpacked::Scaled {
                    reference_value: data.reference_value,
                    binary_scale_factor: data.binary_scale_factor,
                    decimal_scale_factor: data.decimal_scale_factor,
                    values,
                },
            ),
        }
    }
}

} // verus!
