//! The groups of complex packing: for each group a reference value, the
//! width of its values and their number.
use crate::grib::sections::sect5::{
    Data, DataModel, DataRepresentationDefinition, DataRepresentationDefinitionModel,
    GroupDefinition,
};
use crate::grib::utils::{BitCursor, BitwiseIterator};
use crate::grib::{decode_error, parse_error, GribError, GribFault};
use vstd::prelude::*;
use vstd::slice::*;

verus! {

/// One group of packed values.
#[derive(Debug, Clone, Copy, PartialEq, Eq, Structural)]
pub struct Group {
    /// What is added to each value of the group.
    pub reference: i64,
    /// The number of bits of each value of the group.
    pub width: usize,
    /// The number of values of the group.
    pub length: usize,
}

/// The number of octets that hold `count` values of `num_bits` bits.
pub open spec fn octet_length(num_bits: nat, count: nat) -> nat {
    (num_bits * count + 7) / 8
}

/// The number of octets that hold `count` values of `num_bits` bits.
pub fn octets(num_bits: usize, count: usize) -> (n: u128)
    ensures
        n == octet_length(num_bits as nat, count as nat),
{
    assert(num_bits * count <= 0xffff_ffff_ffff_ffff * 0xffff_ffff_ffff_ffff) by (nonlinear_arith)
        requires
            num_bits <= 0xffff_ffff_ffff_ffff,
            count <= 0xffff_ffff_ffff_ffff,
    ;
    ((num_bits as u128) * (count as u128) + 7) / 8
}

/// The signed number that 64 bits write in two's complement.
pub open spec fn as_signed(v: u64) -> i64 {
    if v >= 0x8000_0000_0000_0000 {
        (v - 0x1_0000_0000_0000_0000) as i64
    } else {
        v as i64
    }
}

/// The signed number that 64 bits write in two's complement.
pub fn to_signed(v: u64) -> (r: i64)
    ensures
        r == as_signed(v),
{
    if v >= 0x8000_0000_0000_0000 {
        let low: u64 = v - 0x8000_0000_0000_0000;
        (low as i64) + i64::MIN
    } else {
        v as i64
    }
}

/// Where the reading of the groups stands: the three readers, of the
/// reference values, of the widths and of the scaled lengths, and the number
/// of groups that were read.
pub struct GroupsModel {
    pub references: BitCursor,
    pub widths: BitCursor,
    pub lengths: BitCursor,
    pub definition: GroupDefinition,
    pub index: nat,
}

impl GroupsModel {
    /// The length of the next group: the last group has the length that the
    /// definition gives for it, any other the reference length and what is
    /// read times the increment.
    pub open spec fn next_length(self) -> Option<int> {
        if self.index + 1 == self.definition.num_groups {
            Some(self.definition.group_lengths_last as int)
        } else {
            match self.lengths.value() {
                Some(scaled) => Some(
                    self.definition.group_lengths_reference
                        + self.definition.group_lengths_increment * scaled,
                ),
                None => None,
            }
        }
    }

    /// The next group: none after the last or where a reader has run out;
    /// a width or a length beyond what the machine counts is an error.
    pub open spec fn group(self) -> Result<Option<Group>, GribFault> {
        if self.index >= self.definition.num_groups {
            Ok(None)
        } else {
            match (self.references.value(), self.widths.value(), self.next_length()) {
                (Some(reference), Some(width), Some(length)) => {
                    if self.definition.group_widths_reference + width > usize::MAX || length
                        > usize::MAX {
                        Err(GribFault::DecodeError("Overflow"@))
                    } else {
                        Ok(
                            Some(
                                Group {
                                    reference: as_signed(reference),
                                    width: (self.definition.group_widths_reference
                                        + width) as usize,
                                    length: length as usize,
                                },
                            ),
                        )
                    }
                },
                _ => Ok(None),
            }
        }
    }

    /// The reading after a group was read.
    pub open spec fn after(self) -> GroupsModel {
        GroupsModel {
            references: self.references.advanced(),
            widths: self.widths.advanced(),
            lengths: if self.index + 1 == self.definition.num_groups {
                self.lengths
            } else {
                self.lengths.advanced()
            },
            index: self.index + 1,
            ..self
        }
    }
}

/// Hands out the groups of complex packing one by one.
#[derive(Clone, Copy)]
pub struct GroupsIterator<'a> {
    references_iter: BitwiseIterator<'a>,
    widths_iter: BitwiseIterator<'a>,
    lengths_iter: BitwiseIterator<'a>,
    definition: GroupDefinition,
    index: usize,
}

impl<'a> View for GroupsIterator<'a> {
    type V = GroupsModel;

    closed spec fn view(&self) -> GroupsModel {
        GroupsModel {
            references: self.references_iter@,
            widths: self.widths_iter@,
            lengths: self.lengths_iter@,
            definition: self.definition,
            index: self.index as nat,
        }
    }
}

impl<'a> GroupsIterator<'a> {
    pub fn new(
        references_iter: BitwiseIterator<'a>,
        widths_iter: BitwiseIterator<'a>,
        lengths_iter: BitwiseIterator<'a>,
        definition: GroupDefinition,
    ) -> (r: Self)
        ensures
            r@ == (GroupsModel {
                references: references_iter@,
                widths: widths_iter@,
                lengths: lengths_iter@,
                definition,
                index: 0,
            }),
    {
        Self { references_iter, widths_iter, lengths_iter, definition, index: 0 }
    }

    /// The next group, if there is one; else the iterator stays as it is.
    pub fn next(&mut self) -> (r: Result<Option<Group>, GribError>)
        ensures
            match r {
                Ok(group) => old(self)@.group() == Ok::<Option<Group>, GribFault>(group),
                Err(e) => old(self)@.group() == Err::<Option<Group>, GribFault>(e@),
            },
            final(self)@ == if r matches Ok(Some(_)) {
                old(self)@.after()
            } else {
                old(self)@
            },
    {
        if self.index >= self.definition.num_groups {
            return Ok(None);
        }
        let mut references_iter = self.references_iter;
        let mut widths_iter = self.widths_iter;
        let mut lengths_iter = self.lengths_iter;
        let reference: u64 = match references_iter.next() {
            Some(v) => v,
            None => {
                return Ok(None);
            },
        };
        let width: u64 = match widths_iter.next() {
            Some(v) => v,
            None => {
                return Ok(None);
            },
        };
        let length: u128 = if self.index + 1 == self.definition.num_groups {
            self.definition.group_lengths_last as u128
        } else {
            let scaled: u64 = match lengths_iter.next() {
                Some(v) => v,
                None => {
                    return Ok(None);
                },
            };
            assert(self.definition.group_lengths_increment * scaled <= 0xff
                * 0xffff_ffff_ffff_ffff) by (nonlinear_arith)
                requires
                    self.definition.group_lengths_increment <= 0xff,
                    scaled <= 0xffff_ffff_ffff_ffff,
            ;
            (self.definition.group_lengths_reference as u128) + (
            self.definition.group_lengths_increment as u128) * (scaled as u128)
        };
        let width: u128 = (self.definition.group_widths_reference as u128) + (width as u128);
        if width > usize::MAX as u128 || length > usize::MAX as u128 {
            return Err(decode_error("Overflow"));
        }
        self.references_iter = references_iter;
        self.widths_iter = widths_iter;
        self.lengths_iter = lengths_iter;
        self.index = self.index + 1;
        Ok(Some(Group { reference: to_signed(reference), width: width as usize, length: length as usize }))
    }
}

/// The number of bits of a reference value and the definition of the groups,
/// where the data are packed in groups.
pub open spec fn grouping_of(data_repr_def: DataRepresentationDefinitionModel) -> Option<
    (usize, GroupDefinition),
> {
    match data_repr_def.data {
        DataModel::Data2(data) => Some((data.num_bits, data.group_definition)),
        DataModel::Data3(data) => Some((data.num_bits, data.group_definition)),
        _ => None,
    }
}

/// The reading of the groups at its start, and the number of octets that the
/// descriptions of the groups take at the front of `slice`: the reference
/// values, the widths and the scaled lengths, each padded to whole octets.
pub open spec fn groups_of(
    data_repr_def: DataRepresentationDefinitionModel,
    slice: Seq<u8>,
) -> Result<(GroupsModel, nat), GribFault> {
    match grouping_of(data_repr_def) {
        None => Err(GribFault::ParseError("Wrong decoder"@)),
        Some((num_bits, definition)) => {
            let count = definition.num_groups as nat;
            let references_end = octet_length(num_bits as nat, count);
            let widths_end = references_end + octet_length(
                definition.group_widths_num_bits as nat,
                count,
            );
            let lengths_end = widths_end + octet_length(
                definition.group_scaled_lengths_num_bits as nat,
                count,
            );
            if slice.len() < lengths_end {
                Err(GribFault::DecodeError("Length Mismatch"@))
            } else {
                Ok(
                    (
                        GroupsModel {
                            references: BitCursor {
                                bytes: slice.subrange(0, references_end as int),
                                at: 0,
                                width: num_bits as nat,
                            },
                            widths: BitCursor {
                                bytes: slice.subrange(references_end as int, widths_end as int),
                                at: 0,
                                width: definition.group_widths_num_bits as nat,
                            },
                            lengths: BitCursor {
                                bytes: slice.subrange(widths_end as int, lengths_end as int),
                                at: 0,
                                width: definition.group_scaled_lengths_num_bits as nat,
                            },
                            definition,
                            index: 0,
                        },
                        lengths_end,
                    ),
                )
            }
        },
    }
}

/// Finds the descriptions of the groups at the front of `slice`. Gives a
/// reader of the groups and the number of octets that the descriptions take.
pub fn decode<'a>(data_repr_def: &DataRepresentationDefinition, slice: &'a [u8]) -> (r: Result<
    (GroupsIterator<'a>, usize),
    GribError,
>)
    ensures
        match r {
            Ok((groups, size)) => groups_of(data_repr_def@, slice@) == Ok::<
                (GroupsModel, nat),
                GribFault,
            >((groups@, size as nat)) && size <= slice.len(),
            Err(e) => groups_of(data_repr_def@, slice@) == Err::<(GroupsModel, nat), GribFault>(
                e@,
            ),
        },
{
    let (num_bits, definition) = match &data_repr_def.data {
        Data::Data2(data) => (data.num_bits, data.group_definition),
        Data::Data3(data) => (data.num_bits, data.group_definition),
        _ => {
            return Err(parse_error("Wrong decoder"));
        },
    };
    let len: u128 = slice.len() as u128;
    let references_size: u128 = octets(num_bits, definition.num_groups);
    if references_size > len {
        return Err(decode_error("Length Mismatch"));
    }
    let widths_size: u128 = octets(definition.group_widths_num_bits, definition.num_groups);
    if widths_size > len - references_size {
        return Err(decode_error("Length Mismatch"));
    }
    let lengths_size: u128 = octets(
        definition.group_scaled_lengths_num_bits,
        definition.num_groups,
    );
    if lengths_size > len - references_size - widths_size {
        return Err(decode_error("Length Mismatch"));
    }
    let references_end: usize = references_size as usize;
    let widths_end: usize = references_end + widths_size as usize;
    let lengths_end: usize = widths_end + lengths_size as usize;
    let references_iter = BitwiseIterator::new(
        slice_subrange(slice, 0, references_end),
        num_bits,
    );
    let widths_iter = BitwiseIterator::new(
        slice_subrange(slice, references_end, widths_end),
        definition.group_widths_num_bits,
    );
    let lengths_iter = BitwiseIterator::new(
        slice_subrange(slice, widths_end, lengths_end),
        definition.group_scaled_lengths_num_bits,
    );
    Ok((GroupsIterator::new(references_iter, widths_iter, lengths_iter, definition), lengths_end))
}

} // verus!
