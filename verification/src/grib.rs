//! Reader for GRIB edition 2 messages.
pub mod sections;
pub mod utils;

use crate::grib::sections::sect1::{identification_of, Identification};
use crate::grib::sections::sect3::{grid_definition_of, GridDefinition, GridDefinitionModel};
use crate::grib::sections::sect4::{
    product_definition_of, ProductDefinition, ProductDefinitionModel,
};
use crate::grib::sections::sect5::{
    data_representation_of, Data, DataModel, DataRepresentationDefinition,
    DataRepresentationDefinitionModel,
};
use crate::grib::sections::sect6::{bitmap_of, BitMap, BitMapModel};
use crate::grib::sections::sect7::complex::{complex_unpacked, GridPointDataComplexPackingDecoder};
use crate::grib::sections::sect7::complex_spacial_diff::{
    spatial_unpacked, GridPointDataComplexPackingSpacialDiffDecoder,
};
use crate::grib::sections::sect7::simple::{simple_unpacked, GridPointDataSimplePackingDecoder};
use crate::grib::sections::sect7::{Grib2DataDecoder, Unpacked, UnpackedModel};
use crate::grib::sections::{Indicator, Section, SectionHeader, SectionModel};
use crate::grib::utils::{be_u32, be_u64, read_u32, read_u64};
use crate::text::{decimal_text, push_decimal};
use vstd::prelude::*;
use vstd::slice::*;
use vstd::string::*;

verus! {

/// What can go wrong while a GRIB stream is read or its data decoded.
#[derive(Debug, Clone, PartialEq, Eq)]
pub enum GribError {
    GribError(),
    /// The input ends before what is read.
    StdError(),
    /// A message does not start with `GRIB`.
    NotGRIB(),
    /// The edition of a message is not 2; the edition found.
    GRIBVersionMismatch(u8),
    /// A message does not end with `7777`.
    EndSectionMismatch(),
    /// A section with a number that edition 2 does not have; the number.
    UnknownSection(u8),
    ParseError(String),
    DecodeError(String),
}

/// A `GribError` with its text as a sequence of characters.
pub enum GribFault {
    GribError,
    StdError,
    NotGRIB,
    GRIBVersionMismatch(u8),
    EndSectionMismatch,
    UnknownSection(u8),
    ParseError(Seq<char>),
    DecodeError(Seq<char>),
}

impl View for GribError {
    type V = GribFault;

    open spec fn view(&self) -> GribFault {
        match self {
            GribError::GribError() => GribFault::GribError,
            GribError::StdError() => GribFault::StdError,
            GribError::NotGRIB() => GribFault::NotGRIB,
            GribError::GRIBVersionMismatch(v) => GribFault::GRIBVersionMismatch(*v),
            GribError::EndSectionMismatch() => GribFault::EndSectionMismatch,
            GribError::UnknownSection(n) => GribFault::UnknownSection(*n),
            GribError::ParseError(s) => GribFault::ParseError(s@),
            GribError::DecodeError(s) => GribFault::DecodeError(s@),
        }
    }
}

/// A parse error with the given text.
pub fn parse_error(text: &str) -> (e: GribError)
    ensures
        e@ == GribFault::ParseError(text@),
{
    GribError::ParseError(String::from_str(text))
}

/// A decode error with the given text.
pub fn decode_error(text: &str) -> (e: GribError)
    ensures
        e@ == GribFault::DecodeError(text@),
{
    GribError::DecodeError(String::from_str(text))
}

/// One GRIB message: its sections, and its packed data as they stand.
#[derive(Debug, Clone, PartialEq, Eq)]
pub struct Message {
    pub indicator: Indicator,
    pub identification: Identification,
    pub grid_definition: GridDefinition,
    pub product_definition: ProductDefinition,
    pub data_representation_definition: DataRepresentationDefinition,
    pub bitmap: BitMap,
    pub data: Vec<u8>,
}

/// A `Message` with its bytes as sequences.
pub struct MessageModel {
    pub indicator: Indicator,
    pub identification: Identification,
    pub grid_definition: GridDefinitionModel,
    pub product_definition: ProductDefinitionModel,
    pub data_representation_definition: DataRepresentationDefinitionModel,
    pub bitmap: BitMapModel,
    pub data: Seq<u8>,
}

impl View for Message {
    type V = MessageModel;

    open spec fn view(&self) -> MessageModel {
        MessageModel {
            indicator: self.indicator,
            identification: self.identification,
            grid_definition: self.grid_definition@,
            product_definition: self.product_definition@,
            data_representation_definition: self.data_representation_definition@,
            bitmap: self.bitmap@,
            data: self.data@,
        }
    }
}

/// The text of the error for data of a template that is not unpacked.
pub open spec fn not_implemented_text(template_number: u16) -> Seq<char> {
    "Not implemented data decoder : "@ + decimal_text(template_number as nat)
}

impl MessageModel {
    /// What the data of the message unpack to, by the template of their
    /// representation.
    pub open spec fn unpacked(self) -> Result<UnpackedModel, GribFault> {
        match self.data_representation_definition.data {
            DataModel::Data0(_) => simple_unpacked(self.data_representation_definition, self.data),
            DataModel::Data2(_) => complex_unpacked(
                self.data_representation_definition,
                self.data,
            ),
            DataModel::Data3(_) => spatial_unpacked(
                self.data_representation_definition,
                self.data,
            ),
            DataModel::Unknown(_) => Err(
                GribFault::DecodeError(
                    not_implemented_text(self.data_representation_definition.template_number),
                ),
            ),
        }
    }
}

impl Message {
    /// Unpacks the data of the message.
    pub fn decode(&self) -> (r: Result<Unpacked, GribError>)
        ensures
            match r {
                Ok(values) => self@.unpacked() == Ok::<UnpackedModel, GribFault>(values@),
                Err(e) => self@.unpacked() == Err::<UnpackedModel, GribFault>(e@),
            },
    {
        match &self.data_representation_definition.data {
            Data::Data0(_) => (GridPointDataSimplePackingDecoder {}).decode(
                &self.data_representation_definition,
                self.data.as_slice(),
            ),
            Data::Data2(_) => (GridPointDataComplexPackingDecoder {}).decode(
                &self.data_representation_definition,
                self.data.as_slice(),
            ),
            Data::Data3(_) => (GridPointDataComplexPackingSpacialDiffDecoder {}).decode(
                &self.data_representation_definition,
                self.data.as_slice(),
            ),
            Data::Unknown(_) => {
                let mut text = String::from_str("Not implemented data decoder : ");
                push_decimal(&mut text, self.data_representation_definition.template_number as u64);
                Err(GribError::DecodeError(text))
            },
        }
    }
}

/// The messages of a GRIB stream, in the order of the stream.
#[derive(Debug, Clone, PartialEq, Eq)]
pub struct Grib {
    pub messages: Vec<Message>,
}

impl View for Grib {
    type V = Seq<MessageModel>;

    open spec fn view(&self) -> Seq<MessageModel> {
        self.messages@.map_values(|m: Message| m@)
    }
}

/// The number of octets of section 0.
pub const SECT0_IS_SIZE: usize = 16;

/// The number of octets of the header of a section.
pub const SECT_HEADER_SIZE: usize = 5;

/// The number of octets of the end section.
pub const SECT8_ES_SIZE: usize = 4;

/// Whether `input` starts with `GRIB`.
pub open spec fn starts_with_grib(input: Seq<u8>) -> bool {
    &&& input.len() >= 4
    &&& input[0] == 0x47
    &&& input[1] == 0x52
    &&& input[2] == 0x49
    &&& input[3] == 0x42
}

/// Whether `input` starts with `7777`.
pub open spec fn starts_with_sevens(input: Seq<u8>) -> bool {
    &&& input.len() >= 4
    &&& input[0] == 0x37
    &&& input[1] == 0x37
    &&& input[2] == 0x37
    &&& input[3] == 0x37
}

/// What section 0 at the start of `input` holds.
pub open spec fn indicator_of(input: Seq<u8>) -> Result<Indicator, GribFault> {
    if input.len() < 16 {
        Err(GribFault::StdError)
    } else if !starts_with_grib(input) {
        Err(GribFault::NotGRIB)
    } else if input[7] != 2 {
        Err(GribFault::GRIBVersionMismatch(input[7]))
    } else {
        Ok(Indicator { discipline: input[6], total_length: be_u64(input, 8) })
    }
}

/// What the section header at the start of `input` holds.
pub open spec fn header_of(input: Seq<u8>) -> Result<SectionHeader, GribFault> {
    if input.len() < 5 {
        Err(GribFault::StdError)
    } else {
        Ok(SectionHeader { size: be_u32(input, 0) as usize, number: input[4] })
    }
}

/// What the body of the section with the given number holds.
pub open spec fn body_of(number: u8, body: Seq<u8>) -> Result<SectionModel, GribFault> {
    if number == 1 {
        match identification_of(body) {
            Ok(s) => Ok(SectionModel::Section1(s)),
            Err(e) => Err(e),
        }
    } else if number == 2 {
        Ok(SectionModel::Section2)
    } else if number == 3 {
        match grid_definition_of(body) {
            Ok(s) => Ok(SectionModel::Section3(s)),
            Err(e) => Err(e),
        }
    } else if number == 4 {
        match product_definition_of(body) {
            Ok(s) => Ok(SectionModel::Section4(s)),
            Err(e) => Err(e),
        }
    } else if number == 5 {
        match data_representation_of(body) {
            Ok(s) => Ok(SectionModel::Section5(s)),
            Err(e) => Err(e),
        }
    } else if number == 6 {
        match bitmap_of(body) {
            Ok(s) => Ok(SectionModel::Section6(s)),
            Err(e) => Err(e),
        }
    } else if number == 7 {
        Ok(SectionModel::Section7(body))
    } else {
        Err(GribFault::UnknownSection(number))
    }
}

/// What a body of `size` octets at the start of `input` holds, as the body of
/// the section with the given number.
pub open spec fn sized_body_of(number: u8, input: Seq<u8>, size: int) -> Result<
    SectionModel,
    GribFault,
> {
    if input.len() < size {
        Err(GribFault::StdError)
    } else {
        body_of(number, input.take(size))
    }
}

/// What is left of `input` after `size` octets were asked of it: nothing is
/// taken where fewer are there.
pub open spec fn rest_after(input: Seq<u8>, size: int) -> Seq<u8> {
    if input.len() < size {
        input
    } else {
        input.skip(size)
    }
}

/// What is left of `input` after a section was asked of it: the header goes
/// if it is whole, and the body if it is whole and the header that of a
/// section.
pub open spec fn rest_after_section(input: Seq<u8>) -> Seq<u8> {
    match header_of(input) {
        Err(_) => input,
        Ok(header) => if header.size < 5 || header.number < 1 || header.number > 7 {
            input.skip(5)
        } else {
            rest_after(input.skip(5), header.size - 5)
        },
    }
}

/// The section at the start of `input`, with its header.
pub open spec fn section_of(input: Seq<u8>) -> Result<(SectionHeader, SectionModel), GribFault> {
    match header_of(input) {
        Err(e) => Err(e),
        Ok(header) => if header.size < 5 {
            Err(GribFault::ParseError("Section is too short"@))
        } else if header.number < 1 || header.number > 7 {
            Err(GribFault::UnknownSection(header.number))
        } else {
            match sized_body_of(header.number, input.skip(5), header.size - 5) {
                Err(e) => Err(e),
                Ok(section) => Ok((header, section)),
            }
        },
    }
}

/// A cursor over the bytes of a GRIB stream.
pub struct GribReader<'a> {
    bytes: &'a [u8],
    pos: usize,
}

impl<'a> GribReader<'a> {
    #[verifier::type_invariant]
    spec fn inv(self) -> bool {
        self.pos <= self.bytes@.len()
    }

    /// The bytes that are still to be read.
    pub closed spec fn remaining(&self) -> Seq<u8> {
        self.bytes@.skip(self.pos as int)
    }

    pub fn new(reader: &'a [u8]) -> (r: Self)
        ensures
            r.remaining() == reader@,
    {
        Self { bytes: reader, pos: 0 }
    }

    /// Reads exactly `size` bytes, or fails where fewer are left, and then
    /// reads nothing.
    pub fn read_exact(&mut self, size: usize) -> (r: Result<&'a [u8], GribError>)
        ensures
            match r {
                Ok(read) => {
                    &&& size <= old(self).remaining().len()
                    &&& read@ == old(self).remaining().take(size as int)
                    &&& final(self).remaining() == old(self).remaining().skip(size as int)
                },
                Err(e) => {
                    &&& size > old(self).remaining().len()
                    &&& e@ == GribFault::StdError
                    &&& final(self).remaining() == old(self).remaining()
                },
            },
    {
        proof {
            use_type_invariant(&*self);
        }
        let len: usize = self.bytes.len();
        if len - self.pos < size {
            return Err(GribError::StdError());
        }
        let end: usize = self.pos + size;
        let read: &'a [u8] = slice_subrange(self.bytes, self.pos, end);
        assert(read@ =~= self.bytes@.skip(self.pos as int).take(size as int));
        assert(self.bytes@.skip(end as int) =~= self.bytes@.skip(self.pos as int).skip(
            size as int,
        ));
        self.pos = end;
        Ok(read)
    }

    /// Reads section 0. Where it fails for want of bytes, nothing is read.
    pub fn read_sect0(&mut self) -> (r: Result<(SectionHeader, Indicator), GribError>)
        ensures
            match r {
                Ok((header, indicator)) => {
                    &&& indicator_of(old(self).remaining()) == Ok::<Indicator, GribFault>(
                        indicator,
                    )
                    &&& header == SectionHeader { size: 16, number: 0 }
                    &&& final(self).remaining() == old(self).remaining().skip(16)
                },
                Err(e) => indicator_of(old(self).remaining()) == Err::<Indicator, GribFault>(e@),
            },
            final(self).remaining() == rest_after(old(self).remaining(), 16),
    {
        let buf: &[u8] = self.read_exact(SECT0_IS_SIZE)?;
        if buf[0] != 0x47 || buf[1] != 0x52 || buf[2] != 0x49 || buf[3] != 0x42 {
            return Err(GribError::NotGRIB());
        }
        let discipline: u8 = buf[6];
        let version: u8 = buf[7];
        if version != 2 {
            return Err(GribError::GRIBVersionMismatch(version));
        }
        let total_length: u64 = read_u64(buf, 8);
        Ok((SectionHeader { size: SECT0_IS_SIZE, number: 0 }, Indicator { discipline, total_length }))
    }

    /// Reads the header of a section.
    pub fn read_header(&mut self) -> (r: Result<SectionHeader, GribError>)
        ensures
            match r {
                Ok(header) => {
                    &&& header_of(old(self).remaining()) == Ok::<SectionHeader, GribFault>(header)
                    &&& final(self).remaining() == old(self).remaining().skip(5)
                },
                Err(e) => header_of(old(self).remaining()) == Err::<SectionHeader, GribFault>(e@),
            },
            final(self).remaining() == rest_after(old(self).remaining(), 5),
    {
        let buf: &[u8] = self.read_exact(SECT_HEADER_SIZE)?;
        let length: u32 = read_u32(buf, 0);
        let number: u8 = buf[4];
        Ok(SectionHeader { size: length as usize, number })
    }

    /// Reads a section: its header, then its body.
    #[verifier::rlimit(40)]
    pub fn read_section(&mut self) -> (r: Result<(SectionHeader, Section), GribError>)
        ensures
            match r {
                Ok((header, section)) => {
                    &&& section_of(old(self).remaining()) == Ok::<
                        (SectionHeader, SectionModel),
                        GribFault,
                    >((header, section@))
                    &&& header.size <= old(self).remaining().len()
                    &&& final(self).remaining() == old(self).remaining().skip(header.size as int)
                },
                Err(e) => section_of(old(self).remaining()) == Err::<
                    (SectionHeader, SectionModel),
                    GribFault,
                >(e@),
            },
            final(self).remaining() == rest_after_section(old(self).remaining()),
    {
        let ghost input = self.remaining();
        let header: SectionHeader = self.read_header()?;
        if header.size < SECT_HEADER_SIZE {
            return Err(parse_error("Section is too short"));
        }
        let body_size: usize = header.size - SECT_HEADER_SIZE;
        let body: Section = if header.number == 1 {
            self.read_sect1_body(body_size)?
        } else if header.number == 2 {
            self.read_sect2_body(body_size)?
        } else if header.number == 3 {
            self.read_sect3_body(body_size)?
        } else if header.number == 4 {
            self.read_sect4_body(body_size)?
        } else if header.number == 5 {
            self.read_sect5_body(body_size)?
        } else if header.number == 6 {
            self.read_sect6_body(body_size)?
        } else if header.number == 7 {
            self.read_sect7_body(body_size)?
        } else {
            return Err(GribError::UnknownSection(header.number));
        };
        assert(input.skip(5).skip(body_size as int) =~= input.skip(header.size as int));
        Ok((header, body))
    }

    /// Reads the body of section 1, of `body_size` octets.
    pub fn read_sect1_body(&mut self, body_size: usize) -> (r: Result<Section, GribError>)
        ensures
            match r {
                Ok(section) => {
                    &&& sized_body_of(1, old(self).remaining(), body_size as int) == Ok::<
                        SectionModel,
                        GribFault,
                    >(section@)
                    &&& body_size <= old(self).remaining().len()
                    &&& final(self).remaining() == old(self).remaining().skip(body_size as int)
                },
                Err(e) => sized_body_of(1, old(self).remaining(), body_size as int) == Err::<
                    SectionModel,
                    GribFault,
                >(e@),
            },
            final(self).remaining() == rest_after(old(self).remaining(), body_size as int),
    {
        let body: &[u8] = self.read_exact(body_size)?;
        match Identification::from_body(body) {
            Ok(s) => Ok(Section::Section1(s)),
            Err(e) => Err(e),
        }
    }

    /// Passes over the body of section 2, of `body_size` octets.
    pub fn read_sect2_body(&mut self, body_size: usize) -> (r: Result<Section, GribError>)
        ensures
            match r {
                Ok(section) => {
                    &&& sized_body_of(2, old(self).remaining(), body_size as int) == Ok::<
                        SectionModel,
                        GribFault,
                    >(section@)
                    &&& body_size <= old(self).remaining().len()
                    &&& final(self).remaining() == old(self).remaining().skip(body_size as int)
                },
                Err(e) => sized_body_of(2, old(self).remaining(), body_size as int) == Err::<
                    SectionModel,
                    GribFault,
                >(e@),
            },
            final(self).remaining() == rest_after(old(self).remaining(), body_size as int),
    {
        self.read_exact(body_size)?;
        Ok(Section::Section2)
    }

    /// Reads the body of section 3, of `body_size` octets.
    pub fn read_sect3_body(&mut self, body_size: usize) -> (r: Result<Section, GribError>)
        ensures
            match r {
                Ok(section) => {
                    &&& sized_body_of(3, old(self).remaining(), body_size as int) == Ok::<
                        SectionModel,
                        GribFault,
                    >(section@)
                    &&& body_size <= old(self).remaining().len()
                    &&& final(self).remaining() == old(self).remaining().skip(body_size as int)
                },
                Err(e) => sized_body_of(3, old(self).remaining(), body_size as int) == Err::<
                    SectionModel,
                    GribFault,
                >(e@),
            },
            final(self).remaining() == rest_after(old(self).remaining(), body_size as int),
    {
        let body: &[u8] = self.read_exact(body_size)?;
        match GridDefinition::from_body(body) {
            Ok(s) => Ok(Section::Section3(s)),
            Err(e) => Err(e),
        }
    }

    /// Reads the body of section 4, of `body_size` octets.
    pub fn read_sect4_body(&mut self, body_size: usize) -> (r: Result<Section, GribError>)
        ensures
            match r {
                Ok(section) => {
                    &&& sized_body_of(4, old(self).remaining(), body_size as int) == Ok::<
                        SectionModel,
                        GribFault,
                    >(section@)
                    &&& body_size <= old(self).remaining().len()
                    &&& final(self).remaining() == old(self).remaining().skip(body_size as int)
                },
                Err(e) => sized_body_of(4, old(self).remaining(), body_size as int) == Err::<
                    SectionModel,
                    GribFault,
                >(e@),
            },
            final(self).remaining() == rest_after(old(self).remaining(), body_size as int),
    {
        let body: &[u8] = self.read_exact(body_size)?;
        match ProductDefinition::from_body(body) {
            Ok(s) => Ok(Section::Section4(s)),
            Err(e) => Err(e),
        }
    }

    /// Reads the body of section 5, of `body_size` octets.
    pub fn read_sect5_body(&mut self, body_size: usize) -> (r: Result<Section, GribError>)
        ensures
            match r {
                Ok(section) => {
                    &&& sized_body_of(5, old(self).remaining(), body_size as int) == Ok::<
                        SectionModel,
                        GribFault,
                    >(section@)
                    &&& body_size <= old(self).remaining().len()
                    &&& final(self).remaining() == old(self).remaining().skip(body_size as int)
                },
                Err(e) => sized_body_of(5, old(self).remaining(), body_size as int) == Err::<
                    SectionModel,
                    GribFault,
                >(e@),
            },
            final(self).remaining() == rest_after(old(self).remaining(), body_size as int),
    {
        let body: &[u8] = self.read_exact(body_size)?;
        match DataRepresentationDefinition::from_body(body) {
            Ok(s) => Ok(Section::Section5(s)),
            Err(e) => Err(e),
        }
    }

    /// Reads the body of section 6, of `body_size` octets.
    pub fn read_sect6_body(&mut self, body_size: usize) -> (r: Result<Section, GribError>)
        ensures
            match r {
                Ok(section) => {
                    &&& sized_body_of(6, old(self).remaining(), body_size as int) == Ok::<
                        SectionModel,
                        GribFault,
                    >(section@)
                    &&& body_size <= old(self).remaining().len()
                    &&& final(self).remaining() == old(self).remaining().skip(body_size as int)
                },
                Err(e) => sized_body_of(6, old(self).remaining(), body_size as int) == Err::<
                    SectionModel,
                    GribFault,
                >(e@),
            },
            final(self).remaining() == rest_after(old(self).remaining(), body_size as int),
    {
        let body: &[u8] = self.read_exact(body_size)?;
        match BitMap::from_body(body) {
            Ok(s) => Ok(Section::Section6(s)),
            Err(e) => Err(e),
        }
    }

    /// Reads the body of section 7, of `body_size` octets: the packed data.
    pub fn read_sect7_body(&mut self, body_size: usize) -> (r: Result<Section, GribError>)
        ensures
            match r {
                Ok(section) => {
                    &&& sized_body_of(7, old(self).remaining(), body_size as int) == Ok::<
                        SectionModel,
                        GribFault,
                    >(section@)
                    &&& body_size <= old(self).remaining().len()
                    &&& final(self).remaining() == old(self).remaining().skip(body_size as int)
                },
                Err(e) => sized_body_of(7, old(self).remaining(), body_size as int) == Err::<
                    SectionModel,
                    GribFault,
                >(e@),
            },
            final(self).remaining() == rest_after(old(self).remaining(), body_size as int),
    {
        let body: &[u8] = self.read_exact(body_size)?;
        Ok(Section::Section7(slice_to_vec(body)))
    }

    /// Reads the end section, of `body_size` octets: they must be `7777`, so
    /// that a size other than four is a mismatch too.
    pub fn read_sect8_body(&mut self, body_size: usize) -> (r: Result<Section, GribError>)
        ensures
            match r {
                Ok(section) => {
                    &&& body_size == 4
                    &&& starts_with_sevens(old(self).remaining())
                    &&& section == Section::Section8
                },
                Err(e) => if old(self).remaining().len() < body_size {
                    e@ == GribFault::StdError
                } else {
                    !(body_size == 4 && starts_with_sevens(old(self).remaining())) && e@
                        == GribFault::EndSectionMismatch
                },
            },
            final(self).remaining() == rest_after(old(self).remaining(), body_size as int),
    {
        let buf: &[u8] = self.read_exact(body_size)?;
        if buf.len() != SECT8_ES_SIZE || buf[0] != 0x37 || buf[1] != 0x37 || buf[2] != 0x37
            || buf[3] != 0x37 {
            return Err(GribError::EndSectionMismatch());
        }
        Ok(Section::Section8)
    }
}

/// The sections of which a message is made, as far as they were read; of two
/// sections with one number the later stands.
#[derive(Debug, Clone, PartialEq, Eq)]
pub struct Parts {
    pub identification: Option<Identification>,
    pub grid_definition: Option<GridDefinition>,
    pub product_definition: Option<ProductDefinition>,
    pub data_representation_definition: Option<DataRepresentationDefinition>,
    pub bitmap: Option<BitMap>,
    pub data: Option<Vec<u8>>,
}

/// `Parts` with their bytes as sequences.
pub struct PartsModel {
    pub identification: Option<Identification>,
    pub grid_definition: Option<GridDefinitionModel>,
    pub product_definition: Option<ProductDefinitionModel>,
    pub data_representation_definition: Option<DataRepresentationDefinitionModel>,
    pub bitmap: Option<BitMapModel>,
    pub data: Option<Seq<u8>>,
}

impl View for Parts {
    type V = PartsModel;

    open spec fn view(&self) -> PartsModel {
        PartsModel {
            identification: self.identification,
            grid_definition: match self.grid_definition {
                Some(s) => Some(s@),
                None => None,
            },
            product_definition: match self.product_definition {
                Some(s) => Some(s@),
                None => None,
            },
            data_representation_definition: match self.data_representation_definition {
                Some(s) => Some(s@),
                None => None,
            },
            bitmap: match self.bitmap {
                Some(s) => Some(s@),
                None => None,
            },
            data: match self.data {
                Some(s) => Some(s@),
                None => None,
            },
        }
    }
}

impl PartsModel {
    /// No section read yet.
    pub open spec fn none() -> PartsModel {
        PartsModel {
            identification: None,
            grid_definition: None,
            product_definition: None,
            data_representation_definition: None,
            bitmap: None,
            data: None,
        }
    }

    /// These parts after `section` was read.
    pub open spec fn with(self, section: SectionModel) -> PartsModel {
        match section {
            SectionModel::Section1(s) => PartsModel { identification: Some(s), ..self },
            SectionModel::Section3(s) => PartsModel { grid_definition: Some(s), ..self },
            SectionModel::Section4(s) => PartsModel { product_definition: Some(s), ..self },
            SectionModel::Section5(s) => PartsModel {
                data_representation_definition: Some(s),
                ..self
            },
            SectionModel::Section6(s) => PartsModel { bitmap: Some(s), ..self },
            SectionModel::Section7(s) => PartsModel { data: Some(s), ..self },
            _ => self,
        }
    }
}

impl Parts {
    pub fn new() -> (r: Parts)
        ensures
            r@ == PartsModel::none(),
    {
        Parts {
            identification: None,
            grid_definition: None,
            product_definition: None,
            data_representation_definition: None,
            bitmap: None,
            data: None,
        }
    }

    /// Takes `section` in.
    pub fn absorb(&mut self, section: Section)
        ensures
            final(self)@ == old(self)@.with(section@),
    {
        match section {
            Section::Section1(s) => {
                self.identification = Some(s);
            },
            Section::Section3(s) => {
                self.grid_definition = Some(s);
            },
            Section::Section4(s) => {
                self.product_definition = Some(s);
            },
            Section::Section5(s) => {
                self.data_representation_definition = Some(s);
            },
            Section::Section6(s) => {
                self.bitmap = Some(s);
            },
            Section::Section7(s) => {
                self.data = Some(s);
            },
            _ => {},
        }
    }

    /// The message of these parts, or the first section that it lacks.
    pub fn into_message(self, indicator: Indicator) -> (r: Result<Message, GribError>)
        ensures
            match r {
                Ok(m) => message_of(indicator, self@) == Ok::<MessageModel, GribFault>(m@),
                Err(e) => message_of(indicator, self@) == Err::<MessageModel, GribFault>(e@),
            },
    {
        let identification = match self.identification {
            Some(s) => s,
            None => {
                return Err(decode_error("Missing Section 1"));
            },
        };
        let grid_definition = match self.grid_definition {
            Some(s) => s,
            None => {
                return Err(decode_error("Missing Section 3"));
            },
        };
        let product_definition = match self.product_definition {
            Some(s) => s,
            None => {
                return Err(decode_error("Missing Section 4"));
            },
        };
        let data_representation_definition = match self.data_representation_definition {
            Some(s) => s,
            None => {
                return Err(decode_error("Missing Section 5"));
            },
        };
        let bitmap = match self.bitmap {
            Some(s) => s,
            None => {
                return Err(decode_error("Missing Section 6"));
            },
        };
        let data = match self.data {
            Some(s) => s,
            None => {
                return Err(decode_error("Missing Section 7"));
            },
        };
        Ok(
            Message {
                indicator,
                identification,
                grid_definition,
                product_definition,
                data_representation_definition,
                bitmap,
                data,
            },
        )
    }
}

/// The message that the parts make with section 0: a message needs sections
/// 1, 3, 4, 5, 6 and 7, and the first of them that is missing is reported.
pub open spec fn message_of(indicator: Indicator, parts: PartsModel) -> Result<
    MessageModel,
    GribFault,
> {
    if parts.identification is None {
        Err(GribFault::DecodeError("Missing Section 1"@))
    } else if parts.grid_definition is None {
        Err(GribFault::DecodeError("Missing Section 3"@))
    } else if parts.product_definition is None {
        Err(GribFault::DecodeError("Missing Section 4"@))
    } else if parts.data_representation_definition is None {
        Err(GribFault::DecodeError("Missing Section 5"@))
    } else if parts.bitmap is None {
        Err(GribFault::DecodeError("Missing Section 6"@))
    } else if parts.data is None {
        Err(GribFault::DecodeError("Missing Section 7"@))
    } else {
        Ok(
            MessageModel {
                indicator,
                identification: parts.identification->0,
                grid_definition: parts.grid_definition->0,
                product_definition: parts.product_definition->0,
                data_representation_definition: parts.data_representation_definition->0,
                bitmap: parts.bitmap->0,
                data: parts.data->0,
            },
        )
    }
}

/// The sections that follow section 0 in a message of which `remaining`
/// octets are still to come, taken into `parts`, and the input behind them.
/// When exactly four octets are to come they are the end section.
pub open spec fn sections_from(input: Seq<u8>, remaining: int, parts: PartsModel) -> Result<
    (PartsModel, Seq<u8>),
    GribFault,
>
    decreases remaining,
{
    if remaining <= 0 {
        Ok((parts, input))
    } else if remaining == 4 {
        if input.len() < 4 {
            Err(GribFault::StdError)
        } else if !starts_with_sevens(input) {
            Err(GribFault::EndSectionMismatch)
        } else {
            Ok((parts, input.skip(4)))
        }
    } else {
        match section_of(input) {
            Err(e) => Err(e),
            Ok((header, section)) => if header.size > remaining {
                Err(GribFault::ParseError("Section overruns the message"@))
            } else {
                sections_from(
                    input.skip(header.size as int),
                    remaining - header.size,
                    parts.with(section),
                )
            },
        }
    }
}

/// The messages of `input` after those of `done`. The stream ends where
/// fewer octets are left than section 0 has. What follows there must be a
/// message of edition 2, and a message that cannot be read to its end fails
/// the whole.
pub open spec fn messages_from(input: Seq<u8>, done: Seq<MessageModel>) -> Result<
    Seq<MessageModel>,
    GribFault,
>
    decreases input.len(),
{
    match indicator_of(input) {
        Err(GribFault::StdError) => Ok(done),
        Err(e) => Err(e),
        Ok(indicator) => if indicator.total_length < 16 {
            Err(GribFault::ParseError("Message is too short"@))
        } else {
            match sections_from(input.skip(16), indicator.total_length - 16, PartsModel::none()) {
                Err(e) => Err(e),
                Ok((parts, rest)) => match message_of(indicator, parts) {
                    Err(e) => Err(e),
                    Ok(message) => if rest.len() < input.len() {
                        messages_from(rest, done.push(message))
                    } else {
                        Ok(done.push(message))
                    },
                },
            }
        },
    }
}

/// The messages of a GRIB stream.
pub open spec fn grib_of(input: Seq<u8>) -> Result<Seq<MessageModel>, GribFault> {
    messages_from(input, Seq::empty())
}

/// Reads the messages of a GRIB stream.
pub fn from_reader(reader: &[u8]) -> (r: Result<Grib, GribError>)
    ensures
        match r {
            Ok(grib) => grib_of(reader@) == Ok::<Seq<MessageModel>, GribFault>(grib@),
            Err(e) => grib_of(reader@) == Err::<Seq<MessageModel>, GribFault>(e@),
        },
{
    let mut reader_at = GribReader::new(reader);
    let mut messages: Vec<Message> = Vec::new();
    assert(messages@.map_values(|m: Message| m@) =~= Seq::<MessageModel>::empty());
    loop
        invariant
            grib_of(reader@) == messages_from(
                reader_at.remaining(),
                messages@.map_values(|m: Message| m@),
            ),
        decreases reader_at.remaining().len(),
    {
        let ghost input = reader_at.remaining();
        let ghost done = messages@.map_values(|m: Message| m@);
        let indicator: Indicator = match reader_at.read_sect0() {
            Err(GribError::StdError()) => {
                return Ok(Grib { messages });
            },
            Err(e) => {
                return Err(e);
            },
            Ok((_, indicator)) => indicator,
        };
        if indicator.total_length < 16 {
            return Err(parse_error("Message is too short"));
        }
        let mut remaining: u64 = indicator.total_length - 16;
        let mut parts = Parts::new();
        while remaining > 0
            invariant
                input.len() >= 16,
                reader_at.remaining().len() <= input.len() - 16,
                sections_from(input.skip(16), indicator.total_length - 16, PartsModel::none())
                    == sections_from(reader_at.remaining(), remaining as int, parts@),
                grib_of(reader@) == messages_from(input, done),
                indicator_of(input) == Ok::<Indicator, GribFault>(indicator),
                indicator.total_length >= 16,
            decreases remaining,
        {
            if remaining == 4 {
                match reader_at.read_sect8_body(SECT8_ES_SIZE) {
                    Err(e) => {
                        return Err(e);
                    },
                    Ok(_) => {},
                }
                remaining = 0;
            } else {
                let (header, section) = match reader_at.read_section() {
                    Err(e) => {
                        return Err(e);
                    },
                    Ok(read) => read,
                };
                if header.size as u64 > remaining {
                    return Err(parse_error("Section overruns the message"));
                }
                remaining = remaining - header.size as u64;
                parts.absorb(section);
            }
        }
        let message: Message = match parts.into_message(indicator) {
            Err(e) => {
                return Err(e);
            },
            Ok(message) => message,
        };
        assert(messages@.push(message).map_values(|m: Message| m@) =~= done.push(message@));
        messages.push(message);
    }
}

} // verus!
