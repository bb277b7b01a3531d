//! Section 5: data representation definition.
use crate::grib::utils::{be_u16, be_u32, read_u16, read_u32, Buffer, GribInt};
use crate::grib::{parse_error, GribError, GribFault};
use vstd::prelude::*;
use vstd::slice::*;

verus! {

#[derive(Debug, Clone, PartialEq, Eq)]
pub struct DataRepresentationDefinition {
    /// Number of data points of the message.
    pub num_points: usize,
    /// Data representation template number.
    pub template_number: u16,
    pub data: Data,
}

#[derive(Debug, Clone, PartialEq, Eq)]
pub enum Data {
    Data0(Data0),
    Data2(Data2),
    Data3(Data3),
    /// A template that is not read: its bytes.
    Unknown(Vec<u8>),
}

/// Data representation template 5.0: simple packing.
#[derive(Debug, Clone, Copy, PartialEq, Eq, Structural)]
pub struct Data0 {
    /// Reference value, as the 32 bits of its IEEE 754 single-precision
    /// notation.
    pub reference_value: u32,
    pub binary_scale_factor: i16,
    pub decimal_scale_factor: i16,
    /// Number of bits of each packed value.
    pub num_bits: usize,
    pub values_type: u8,
}

/// How the values of complex packing are split into groups.
#[derive(Debug, Clone, Copy, PartialEq, Eq, Structural)]
pub struct GroupDefinition {
    pub num_groups: usize,
    pub group_widths_reference: u8,
    pub group_widths_num_bits: usize,
    pub group_lengths_reference: u32,
    pub group_lengths_increment: u8,
    pub group_lengths_last: u32,
    pub group_scaled_lengths_num_bits: usize,
}

/// Data representation template 5.2: complex packing.
#[derive(Debug, Clone, Copy, PartialEq, Eq, Structural)]
pub struct Data2 {
    /// Reference value, as the 32 bits of its IEEE 754 single-precision
    /// notation.
    pub reference_value: u32,
    pub binary_scale_factor: i16,
    pub decimal_scale_factor: i16,
    pub num_bits: usize,
    pub values_type: u8,
    pub group_method: u8,
    pub missing_value: u8,
    pub missing_substitute_primary: u32,
    pub missing_substitute_secondary: u32,
    pub group_definition: GroupDefinition,
}

/// Data representation template 5.3: complex packing and spatial
/// differencing.
#[derive(Debug, Clone, Copy, PartialEq, Eq, Structural)]
pub struct Data3 {
    /// Reference value, as the 32 bits of its IEEE 754 single-precision
    /// notation.
    pub reference_value: u32,
    pub binary_scale_factor: i16,
    pub decimal_scale_factor: i16,
    pub num_bits: usize,
    pub values_type: u8,
    pub group_method: u8,
    pub missing_value: u8,
    pub missing_substitute_primary: u32,
    pub missing_substitute_secondary: u32,
    pub group_definition: GroupDefinition,
    pub spacial_difference_order: u8,
    pub spacial_difference_size: u8,
}

/// A `Data` with its bytes as a sequence.
pub enum DataModel {
    Data0(Data0),
    Data2(Data2),
    Data3(Data3),
    Unknown(Seq<u8>),
}

impl View for Data {
    type V = DataModel;

    open spec fn view(&self) -> DataModel {
        match self {
            Data::Data0(d) => DataModel::Data0(*d),
            Data::Data2(d) => DataModel::Data2(*d),
            Data::Data3(d) => DataModel::Data3(*d),
            Data::Unknown(b) => DataModel::Unknown(b@),
        }
    }
}

/// A `DataRepresentationDefinition` with its bytes as sequences.
pub struct DataRepresentationDefinitionModel {
    pub num_points: usize,
    pub template_number: u16,
    pub data: DataModel,
}

impl View for DataRepresentationDefinition {
    type V = DataRepresentationDefinitionModel;

    open spec fn view(&self) -> DataRepresentationDefinitionModel {
        DataRepresentationDefinitionModel {
            num_points: self.num_points,
            template_number: self.template_number,
            data: self.data@,
        }
    }
}

/// The number of octets of data representation template 5.0.
pub const DATA0_SIZE: usize = 10;

/// The number of octets of data representation template 5.2; the number of
/// groups takes one octet.
pub const DATA2_SIZE: usize = 33;

/// The number of octets of data representation template 5.3; the number of
/// groups takes four octets.
pub const DATA3_SIZE: usize = 38;

pub open spec fn data0_of(bytes: Seq<u8>) -> Data0
    recommends
        bytes.len() >= 10,
{
    Data0 {
        reference_value: be_u32(bytes, 0),
        binary_scale_factor: be_u16(bytes, 4).grib_int(),
        decimal_scale_factor: be_u16(bytes, 6).grib_int(),
        num_bits: bytes[8] as usize,
        values_type: bytes[9],
    }
}

pub open spec fn data2_of(bytes: Seq<u8>) -> Data2
    recommends
        bytes.len() >= 33,
{
    Data2 {
        reference_value: be_u32(bytes, 0),
        binary_scale_factor: be_u16(bytes, 4).grib_int(),
        decimal_scale_factor: be_u16(bytes, 6).grib_int(),
        num_bits: bytes[8] as usize,
        values_type: bytes[9],
        group_method: bytes[10],
        missing_value: bytes[11],
        missing_substitute_primary: be_u32(bytes, 12),
        missing_substitute_secondary: be_u32(bytes, 16),
        group_definition: GroupDefinition {
            num_groups: bytes[20] as usize,
            group_widths_reference: bytes[21],
            group_widths_num_bits: bytes[22] as usize,
            group_lengths_reference: be_u32(bytes, 23),
            group_lengths_increment: bytes[27],
            group_lengths_last: be_u32(bytes, 28),
            group_scaled_lengths_num_bits: bytes[32] as usize,
        },
    }
}

pub open spec fn data3_of(bytes: Seq<u8>) -> Data3
    recommends
        bytes.len() >= 38,
{
    Data3 {
        reference_value: be_u32(bytes, 0),
        binary_scale_factor: be_u16(bytes, 4).grib_int(),
        decimal_scale_factor: be_u16(bytes, 6).grib_int(),
        num_bits: bytes[8] as usize,
        values_type: bytes[9],
        group_method: bytes[10],
        missing_value: bytes[11],
        missing_substitute_primary: be_u32(bytes, 12),
        missing_substitute_secondary: be_u32(bytes, 16),
        group_definition: GroupDefinition {
            num_groups: be_u32(bytes, 20) as usize,
            group_widths_reference: bytes[24],
            group_widths_num_bits: bytes[25] as usize,
            group_lengths_reference: be_u32(bytes, 26),
            group_lengths_increment: bytes[30],
            group_lengths_last: be_u32(bytes, 31),
            group_scaled_lengths_num_bits: bytes[35] as usize,
        },
        spacial_difference_order: bytes[36],
        spacial_difference_size: bytes[37],
    }
}

/// What the bytes of a data representation template hold.
pub open spec fn data_of(template_number: u16, bytes: Seq<u8>) -> Result<DataModel, GribFault> {
    if template_number == 0 {
        if bytes.len() < 10 {
            Err(GribFault::ParseError("Data template 0 is too short"@))
        } else {
            Ok(DataModel::Data0(data0_of(bytes)))
        }
    } else if template_number == 2 {
        if bytes.len() < 33 {
            Err(GribFault::ParseError("Data template 2 is too short"@))
        } else {
            Ok(DataModel::Data2(data2_of(bytes)))
        }
    } else if template_number == 3 {
        if bytes.len() < 38 {
            Err(GribFault::ParseError("Data template 3 is too short"@))
        } else {
            Ok(DataModel::Data3(data3_of(bytes)))
        }
    } else {
        Ok(DataModel::Unknown(bytes))
    }
}

impl Data {
    /// Reads a data representation template. Templates 0, 2 and 3 are read in
    /// full; the bytes of any other are kept as they are.
    pub fn from_template(template_number: u16, bytes: Vec<u8>) -> (r: Result<Data, GribError>)
        ensures
            match r {
                Ok(d) => data_of(template_number, bytes@) == Ok::<DataModel, GribFault>(d@),
                Err(e) => data_of(template_number, bytes@) == Err::<DataModel, GribFault>(e@),
            },
    {
        let mut buf = Buffer::new(bytes);
        if template_number == 0 {
            if buf.remaining() < DATA0_SIZE {
                return Err(parse_error("Data template 0 is too short"));
            }
            Ok(
                Data::Data0(
                    Data0 {
                        reference_value: buf.read::<u32>(),
                        binary_scale_factor: buf.read::<u16>().as_grib_int(),
                        decimal_scale_factor: buf.read::<u16>().as_grib_int(),
                        num_bits: buf.read::<u8>() as usize,
                        values_type: buf.read::<u8>(),
                    },
                ),
            )
        } else if template_number == 2 {
            if buf.remaining() < DATA2_SIZE {
                return Err(parse_error("Data template 2 is too short"));
            }
            Ok(
                Data::Data2(
                    Data2 {
                        reference_value: buf.read::<u32>(),
                        binary_scale_factor: buf.read::<u16>().as_grib_int(),
                        decimal_scale_factor: buf.read::<u16>().as_grib_int(),
                        num_bits: buf.read::<u8>() as usize,
                        values_type: buf.read::<u8>(),
                        group_method: buf.read::<u8>(),
                        missing_value: buf.read::<u8>(),
                        missing_substitute_primary: buf.read::<u32>(),
                        missing_substitute_secondary: buf.read::<u32>(),
                        group_definition: GroupDefinition {
                            num_groups: buf.read::<u8>() as usize,
                            group_widths_reference: buf.read::<u8>(),
                            group_widths_num_bits: buf.read::<u8>() as usize,
                            group_lengths_reference: buf.read::<u32>(),
                            group_lengths_increment: buf.read::<u8>(),
                            group_lengths_last: buf.read::<u32>(),
                            group_scaled_lengths_num_bits: buf.read::<u8>() as usize,
                        },
                    },
                ),
            )
        } else if template_number == 3 {
            if buf.remaining() < DATA3_SIZE {
                return Err(parse_error("Data template 3 is too short"));
            }
            Ok(
                Data::Data3(
                    Data3 {
                        reference_value: buf.read::<u32>(),
                        binary_scale_factor: buf.read::<u16>().as_grib_int(),
                        decimal_scale_factor: buf.read::<u16>().as_grib_int(),
                        num_bits: buf.read::<u8>() as usize,
                        values_type: buf.read::<u8>(),
                        group_method: buf.read::<u8>(),
                        missing_value: buf.read::<u8>(),
                        missing_substitute_primary: buf.read::<u32>(),
                        missing_substitute_secondary: buf.read::<u32>(),
                        group_definition: GroupDefinition {
                            num_groups: buf.read::<u32>() as usize,
                            group_widths_reference: buf.read::<u8>(),
                            group_widths_num_bits: buf.read::<u8>() as usize,
                            group_lengths_reference: buf.read::<u32>(),
                            group_lengths_increment: buf.read::<u8>(),
                            group_lengths_last: buf.read::<u32>(),
                            group_scaled_lengths_num_bits: buf.read::<u8>() as usize,
                        },
                        spacial_difference_order: buf.read::<u8>(),
                        spacial_difference_size: buf.read::<u8>(),
                    },
                ),
            )
        } else {
            Ok(Data::Unknown(buf.into_bytes()))
        }
    }
}

/// The number of octets of section 5 in front of its template.
pub const DATA_REPRESENTATION_SIZE: usize = 6;

/// What the body of section 5 holds.
pub open spec fn data_representation_of(body: Seq<u8>) -> Result<
    DataRepresentationDefinitionModel,
    GribFault,
> {
    if body.len() < 6 {
        Err(GribFault::ParseError("Section 5 is too short"@))
    } else {
        match data_of(be_u16(body, 4), body.skip(6)) {
            Err(e) => Err(e),
            Ok(data) => Ok(
                DataRepresentationDefinitionModel {
                    num_points: be_u32(body, 0) as usize,
                    template_number: be_u16(body, 4),
                    data,
                },
            ),
        }
    }
}

impl DataRepresentationDefinition {
    /// Reads the body of section 5.
    pub fn from_body(body: &[u8]) -> (r: Result<DataRepresentationDefinition, GribError>)
        ensures
            match r {
                Ok(d) => data_representation_of(body@) == Ok::<
                    DataRepresentationDefinitionModel,
                    GribFault,
                >(d@),
                Err(e) => data_representation_of(body@) == Err::<
                    DataRepresentationDefinitionModel,
                    GribFault,
                >(e@),
            },
    {
        if body.len() < DATA_REPRESENTATION_SIZE {
            return Err(parse_error("Section 5 is too short"));
        }
        let template_number: u16 = read_u16(body, 4);
        let template: Vec<u8> = slice_to_vec(
            slice_subrange(body, DATA_REPRESENTATION_SIZE, body.len()),
        );
        match Data::from_template(template_number, template) {
            Err(e) => Err(e),
            Ok(data) => Ok(
                DataRepresentationDefinition {
                    num_points: read_u32(body, 0) as usize,
                    template_number,
                    data,
                },
            ),
        }
    }
}

} // verus!
