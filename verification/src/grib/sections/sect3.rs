//! Section 3: grid definition.
use crate::grib::utils::{be_u16, be_u32, read_u16, read_u32, GribInt};
use crate::grib::{parse_error, GribError, GribFault};
use vstd::prelude::*;
use vstd::slice::*;

verus! {

#[derive(Debug, Clone, PartialEq, Eq)]
pub struct GridDefinition {
    pub source: u8,
    /// Number of data points.
    pub num_points: usize,
    pub optional_num_list_size: usize,
    pub optional_num_list_interpretation: u8,
    /// Grid definition template number.
    pub template_number: u16,
    pub grid: Grid,
}

#[derive(Debug, Clone, PartialEq, Eq)]
pub enum Grid {
    Grid0(Grid0),
    /// A template that is not read: its bytes.
    Unknown(Vec<u8>),
}

#[derive(Debug, Clone, Copy, PartialEq, Eq, Structural)]
pub struct ScaledValue {
    pub scale: u8,
    pub value: u32,
}

#[derive(Debug, Clone, Copy, PartialEq, Eq, Structural)]
pub struct BasicAngle {
    pub basic_angle: u32,
    pub basic_angle_sub: u32,
}

#[derive(Debug, Clone, Copy, PartialEq, Eq, Structural)]
pub struct GridHeader {
    pub earth_shape: u8,
    pub spherical_radius: ScaledValue,
    pub major_axis: ScaledValue,
    pub minor_axis: ScaledValue,
}

/// Grid definition template 3.0: latitude/longitude.
#[derive(Debug, Clone, Copy, PartialEq, Eq, Structural)]
pub struct Grid0 {
    pub header: GridHeader,
    pub n_i: u32,
    pub n_j: u32,
    pub initial_prod_basic_angle: BasicAngle,
    pub la1: i32,
    pub lo1: i32,
    pub resolution_and_component_flags: u8,
    pub la2: i32,
    pub lo2: i32,
    pub d_i: u32,
    pub d_j: u32,
    pub scanning_mode: u8,
}

/// A `Grid` with its bytes as a sequence.
pub enum GridModel {
    Grid0(Grid0),
    Unknown(Seq<u8>),
}

impl View for Grid {
    type V = GridModel;

    open spec fn view(&self) -> GridModel {
        match self {
            Grid::Grid0(g) => GridModel::Grid0(*g),
            Grid::Unknown(b) => GridModel::Unknown(b@),
        }
    }
}

/// A `GridDefinition` with its bytes as sequences.
pub struct GridDefinitionModel {
    pub source: u8,
    pub num_points: usize,
    pub optional_num_list_size: usize,
    pub optional_num_list_interpretation: u8,
    pub template_number: u16,
    pub grid: GridModel,
}

impl View for GridDefinition {
    type V = GridDefinitionModel;

    open spec fn view(&self) -> GridDefinitionModel {
        GridDefinitionModel {
            source: self.source,
            num_points: self.num_points,
            optional_num_list_size: self.optional_num_list_size,
            optional_num_list_interpretation: self.optional_num_list_interpretation,
            template_number: self.template_number,
            grid: self.grid@,
        }
    }
}

/// The number of octets of grid definition template 3.0.
pub const GRID0_SIZE: usize = 58;

/// What the bytes of grid definition template 3.0 hold. The four coordinates
/// are written as sign and magnitude.
pub open spec fn grid0_of(bytes: Seq<u8>) -> Grid0
    recommends
        bytes.len() >= 58,
{
    Grid0 {
        header: GridHeader {
            earth_shape: bytes[0],
            spherical_radius: ScaledValue { scale: bytes[1], value: be_u32(bytes, 2) },
            major_axis: ScaledValue { scale: bytes[6], value: be_u32(bytes, 7) },
            minor_axis: ScaledValue { scale: bytes[11], value: be_u32(bytes, 12) },
        },
        n_i: be_u32(bytes, 16),
        n_j: be_u32(bytes, 20),
        initial_prod_basic_angle: BasicAngle {
            basic_angle: be_u32(bytes, 24),
            basic_angle_sub: be_u32(bytes, 28),
        },
        la1: be_u32(bytes, 32).grib_int(),
        lo1: be_u32(bytes, 36).grib_int(),
        resolution_and_component_flags: bytes[40],
        la2: be_u32(bytes, 41).grib_int(),
        lo2: be_u32(bytes, 45).grib_int(),
        d_i: be_u32(bytes, 49),
        d_j: be_u32(bytes, 53),
        scanning_mode: bytes[57],
    }
}

/// What the bytes of a grid definition template hold.
pub open spec fn grid_of(template_number: u16, bytes: Seq<u8>) -> Result<GridModel, GribFault> {
    if template_number == 0 {
        if bytes.len() < 58 {
            Err(GribFault::ParseError("Grid template 0 is too short"@))
        } else {
            Ok(GridModel::Grid0(grid0_of(bytes)))
        }
    } else {
        Ok(GridModel::Unknown(bytes))
    }
}

impl Grid {
    /// Reads a grid definition template. Template 0 is read in full; the
    /// bytes of any other are kept as they are.
    pub fn from_template(template_number: u16, buf: Vec<u8>) -> (r: Result<Grid, GribError>)
        ensures
            match r {
                Ok(g) => grid_of(template_number, buf@) == Ok::<GridModel, GribFault>(g@),
                Err(e) => grid_of(template_number, buf@) == Err::<GridModel, GribFault>(e@),
            },
    {
        if template_number == 0 {
            if buf.len() < GRID0_SIZE {
                return Err(parse_error("Grid template 0 is too short"));
            }
            let bytes: &[u8] = buf.as_slice();
            Ok(
                Grid::Grid0(
                    Grid0 {
                        header: GridHeader {
                            earth_shape: bytes[0],
                            spherical_radius: ScaledValue {
                                scale: bytes[1],
                                value: read_u32(bytes, 2),
                            },
                            major_axis: ScaledValue { scale: bytes[6], value: read_u32(bytes, 7) },
                            minor_axis: ScaledValue {
                                scale: bytes[11],
                                value: read_u32(bytes, 12),
                            },
                        },
                        n_i: read_u32(bytes, 16),
                        n_j: read_u32(bytes, 20),
                        initial_prod_basic_angle: BasicAngle {
                            basic_angle: read_u32(bytes, 24),
                            basic_angle_sub: read_u32(bytes, 28),
                        },
                        la1: read_u32(bytes, 32).as_grib_int(),
                        lo1: read_u32(bytes, 36).as_grib_int(),
                        resolution_and_component_flags: bytes[40],
                        la2: read_u32(bytes, 41).as_grib_int(),
                        lo2: read_u32(bytes, 45).as_grib_int(),
                        d_i: read_u32(bytes, 49),
                        d_j: read_u32(bytes, 53),
                        scanning_mode: bytes[57],
                    },
                ),
            )
        } else {
            Ok(Grid::Unknown(buf))
        }
    }
}

/// The number of octets of section 3 in front of its template.
pub const GRID_DEFINITION_SIZE: usize = 9;

/// What the body of section 3 holds. The template lies between the first
/// nine octets and the optional list of numbers at the end.
pub open spec fn grid_definition_of(body: Seq<u8>) -> Result<GridDefinitionModel, GribFault> {
    if body.len() < 9 || body.len() - 9 < body[5] {
        Err(GribFault::ParseError("Section 3 is too short"@))
    } else {
        match grid_of(be_u16(body, 7), body.subrange(9, body.len() - body[5])) {
            Err(e) => Err(e),
            Ok(grid) => Ok(
                GridDefinitionModel {
                    source: body[0],
                    num_points: be_u32(body, 1) as usize,
                    optional_num_list_size: body[5] as usize,
                    optional_num_list_interpretation: body[6],
                    template_number: be_u16(body, 7),
                    grid,
                },
            ),
        }
    }
}

impl GridDefinition {
    /// Reads the body of section 3.
    pub fn from_body(body: &[u8]) -> (r: Result<GridDefinition, GribError>)
        ensures
            match r {
                Ok(d) => grid_definition_of(body@) == Ok::<GridDefinitionModel, GribFault>(d@),
                Err(e) => grid_definition_of(body@) == Err::<GridDefinitionModel, GribFault>(e@),
            },
    {
        if body.len() < GRID_DEFINITION_SIZE {
            return Err(parse_error("Section 3 is too short"));
        }
        let optional_num_list_size: usize = body[5] as usize;
        if body.len() - GRID_DEFINITION_SIZE < optional_num_list_size {
            return Err(parse_error("Section 3 is too short"));
        }
        let template_number: u16 = read_u16(body, 7);
        let template: Vec<u8> = slice_to_vec(
            slice_subrange(body, GRID_DEFINITION_SIZE, body.len() - optional_num_list_size),
        );
        match Grid::from_template(template_number, template) {
            Err(e) => Err(e),
            Ok(grid) => Ok(
                GridDefinition {
                    source: body[0],
                    num_points: read_u32(body, 1) as usize,
                    optional_num_list_size,
                    optional_num_list_interpretation: body[6],
                    template_number,
                    grid,
                },
            ),
        }
    }
}

} // verus!
