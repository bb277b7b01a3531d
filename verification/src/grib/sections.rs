//! The sections of a GRIB edition 2 message.
pub mod sect1;
pub mod sect3;
pub mod sect4;
pub mod sect5;
pub mod sect6;
pub mod sect7;

use crate::grib::sections::sect1::Identification;
use crate::grib::sections::sect3::{GridDefinition, GridDefinitionModel};
use crate::grib::sections::sect4::{ProductDefinition, ProductDefinitionModel};
use crate::grib::sections::sect5::{DataRepresentationDefinition, DataRepresentationDefinitionModel};
use crate::grib::sections::sect6::{BitMap, BitMapModel};
use vstd::prelude::*;

verus! {

/// Section 0, the indicator.
#[derive(Debug, Clone, Copy, PartialEq, Eq, Structural)]
pub struct Indicator {
    /// Discipline: GRIB master table number.
    pub discipline: u8,
    /// Total length of the message in octets, section 0 included.
    pub total_length: u64,
}

/// What stands in front of each section but the first and the last.
#[derive(Debug, Clone, Copy, PartialEq, Eq, Structural)]
pub struct SectionHeader {
    /// Length of the section in octets, this header included.
    pub size: usize,
    /// Number of the section.
    pub number: u8,
}

#[derive(Debug, Clone, PartialEq, Eq)]
pub enum Section {
    Section0(Indicator),
    Section1(Identification),
    Section2,
    Section3(GridDefinition),
    Section4(ProductDefinition),
    Section5(DataRepresentationDefinition),
    Section6(BitMap),
    Section7(Vec<u8>),
    Section8,
}

/// A `Section` with its bytes as sequences.
pub enum SectionModel {
    Section0(Indicator),
    Section1(Identification),
    Section2,
    Section3(GridDefinitionModel),
    Section4(ProductDefinitionModel),
    Section5(DataRepresentationDefinitionModel),
    Section6(BitMapModel),
    Section7(Seq<u8>),
    Section8,
}

impl View for Section {
    type V = SectionModel;

    open spec fn view(&self) -> SectionModel {
        match self {
            Section::Section0(s) => SectionModel::Section0(*s),
            Section::Section1(s) => SectionModel::Section1(*s),
            Section::Section2 => SectionModel::Section2,
            Section::Section3(s) => SectionModel::Section3(s@),
            Section::Section4(s) => SectionModel::Section4(s@),
            Section::Section5(s) => SectionModel::Section5(s@),
            Section::Section6(s) => SectionModel::Section6(s@),
            Section::Section7(s) => SectionModel::Section7(s@),
            Section::Section8 => SectionModel::Section8,
        }
    }
}

} // verus!
