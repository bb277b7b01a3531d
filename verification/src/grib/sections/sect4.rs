//! Section 4: product definition.
use crate::grib::utils::{be_u16, be_u32, read_u16, read_u32};
use crate::grib::{parse_error, GribError, GribFault};
use crate::text::{decimal_text, push_decimal};
use vstd::prelude::*;
use vstd::slice::*;
use vstd::string::*;

verus! {

#[derive(Debug, Clone, PartialEq, Eq)]
pub struct ProductDefinition {
    /// Number of coordinate values after the template.
    pub num_coordinates: u16,
    /// Product definition template number.
    pub template_number: u16,
    pub product: Product,
    pub coordinates: Option<Vec<u8>>,
}

#[derive(Debug, Clone, PartialEq, Eq)]
pub enum Product {
    Product0(Product0),
    /// A template that is not read: its bytes.
    Unknown(Vec<u8>),
}

/// Product definition template 4.0: analysis or forecast at a horizontal
/// level at a point in time.
#[derive(Debug, Clone, Copy, PartialEq, Eq, Structural)]
pub struct Product0 {
    pub parameter_category: u8,
    pub parameter_number: u8,
    pub process_type: u8,
    pub background_process: u8,
    pub analysis_process: u8,
    pub hours: u16,
    pub minutes: u8,
    /// Forecast time, in seconds.
    pub forecast_time: u64,
    pub first_surface: Surface,
    pub second_surface: Surface,
}

#[derive(Debug, Clone, Copy, PartialEq, Eq, Structural)]
pub struct Surface {
    pub surface_type: u8,
    pub scale_factor: u8,
    pub scaled_value: u32,
}

/// A `Product` with its bytes as a sequence.
pub enum ProductModel {
    Product0(Product0),
    Unknown(Seq<u8>),
}

impl View for Product {
    type V = ProductModel;

    open spec fn view(&self) -> ProductModel {
        match self {
            Product::Product0(p) => ProductModel::Product0(*p),
            Product::Unknown(b) => ProductModel::Unknown(b@),
        }
    }
}

/// A `ProductDefinition` with its bytes as sequences.
pub struct ProductDefinitionModel {
    pub num_coordinates: u16,
    pub template_number: u16,
    pub product: ProductModel,
    pub coordinates: Option<Seq<u8>>,
}

impl View for ProductDefinition {
    type V = ProductDefinitionModel;

    open spec fn view(&self) -> ProductDefinitionModel {
        ProductDefinitionModel {
            num_coordinates: self.num_coordinates,
            template_number: self.template_number,
            product: self.product@,
            coordinates: match self.coordinates {
                Some(c) => Some(c@),
                None => None,
            },
        }
    }
}

/// The number of seconds of one unit of forecast time, by the code of the
/// unit; a month counts 30 days and a year 365.
pub open spec fn unit_seconds(unit: u8) -> Option<int> {
    if unit == 0 {
        Some(60)
    } else if unit == 1 {
        Some(3_600)
    } else if unit == 2 {
        Some(86_400)
    } else if unit == 3 {
        Some(2_592_000)
    } else if unit == 4 {
        Some(31_536_000)
    } else if unit == 5 {
        Some(315_360_000)
    } else if unit == 6 {
        Some(946_080_000)
    } else if unit == 7 {
        Some(3_153_600_000)
    } else if unit == 10 {
        Some(10_800)
    } else if unit == 11 {
        Some(21_600)
    } else if unit == 12 {
        Some(43_200)
    } else if unit == 13 {
        Some(1)
    } else {
        None
    }
}

/// The number of seconds of one unit of forecast time, by the code of the
/// unit.
pub fn seconds_of_unit(unit: u8) -> (r: Option<u64>)
    ensures
        match r {
            Some(s) => unit_seconds(unit) == Some(s as int),
            None => unit_seconds(unit) is None,
        },
{
    if unit == 0 {
        Some(60)
    } else if unit == 1 {
        Some(3_600)
    } else if unit == 2 {
        Some(86_400)
    } else if unit == 3 {
        Some(2_592_000)
    } else if unit == 4 {
        Some(31_536_000)
    } else if unit == 5 {
        Some(315_360_000)
    } else if unit == 6 {
        Some(946_080_000)
    } else if unit == 7 {
        Some(3_153_600_000)
    } else if unit == 10 {
        Some(10_800)
    } else if unit == 11 {
        Some(21_600)
    } else if unit == 12 {
        Some(43_200)
    } else if unit == 13 {
        Some(1)
    } else {
        None
    }
}

/// The text of the error for a unit of forecast time that the tables do not
/// have.
pub open spec fn unknown_unit_text(unit: u8) -> Seq<char> {
    "Forecast Time Unit `"@ + decimal_text(unit as nat) + "` does not exist."@
}

/// The number of octets of product definition template 4.0 that are read.
pub const PRODUCT0_SIZE: usize = 25;

/// What the bytes of a product definition template hold.
pub open spec fn product_of(template_number: u16, bytes: Seq<u8>) -> Result<
    ProductModel,
    GribFault,
> {
    if template_number == 0 {
        if bytes.len() < 25 {
            Err(GribFault::ParseError("Product template 0 is too short"@))
        } else {
            match unit_seconds(bytes[8]) {
                None => Err(GribFault::ParseError(unknown_unit_text(bytes[8]))),
                Some(seconds) => Ok(
                    ProductModel::Product0(
                        Product0 {
                            parameter_category: bytes[0],
                            parameter_number: bytes[1],
                            process_type: bytes[2],
                            background_process: bytes[3],
                            analysis_process: bytes[4],
                            hours: be_u16(bytes, 5),
                            minutes: bytes[7],
                            forecast_time: (seconds * be_u32(bytes, 9)) as u64,
                            first_surface: Surface {
                                surface_type: bytes[13],
                                scale_factor: bytes[14],
                                scaled_value: be_u32(bytes, 15),
                            },
                            second_surface: Surface {
                                surface_type: bytes[19],
                                scale_factor: bytes[20],
                                scaled_value: be_u32(bytes, 21),
                            },
                        },
                    ),
                ),
            }
        }
    } else {
        Ok(ProductModel::Unknown(bytes))
    }
}

impl Product {
    /// Reads a product definition template. Template 0 is read in full; the
    /// bytes of any other are kept as they are.
    pub fn from_template(template_number: u16, buf: Vec<u8>) -> (r: Result<Product, GribError>)
        ensures
            match r {
                Ok(p) => product_of(template_number, buf@) == Ok::<ProductModel, GribFault>(p@),
                Err(e) => product_of(template_number, buf@) == Err::<ProductModel, GribFault>(e@),
            },
    {
        if template_number == 0 {
            if buf.len() < PRODUCT0_SIZE {
                return Err(parse_error("Product template 0 is too short"));
            }
            let bytes: &[u8] = buf.as_slice();
            let unit: u8 = bytes[8];
            match seconds_of_unit(unit) {
                None => {
                    let mut text = String::from_str("Forecast Time Unit `");
                    push_decimal(&mut text, unit as u64);
                    text.append("` does not exist.");
                    Err(GribError::ParseError(text))
                },
                Some(seconds) => {
                    let value: u32 = read_u32(bytes, 9);
                    assert(seconds * value <= 3_153_600_000 * 0xffff_ffff) by (nonlinear_arith)
                        requires
                            seconds <= 3_153_600_000,
                            value <= 0xffff_ffff,
                    ;
                    Ok(
                        Product::Product0(
                            Product0 {
                                parameter_category: bytes[0],
                                parameter_number: bytes[1],
                                process_type: bytes[2],
                                background_process: bytes[3],
                                analysis_process: bytes[4],
                                hours: read_u16(bytes, 5),
                                minutes: bytes[7],
                                forecast_time: seconds * (value as u64),
                                first_surface: Surface {
                                    surface_type: bytes[13],
                                    scale_factor: bytes[14],
                                    scaled_value: read_u32(bytes, 15),
                                },
                                second_surface: Surface {
                                    surface_type: bytes[19],
                                    scale_factor: bytes[20],
                                    scaled_value: read_u32(bytes, 21),
                                },
                            },
                        ),
                    )
                },
            }
        } else {
            Ok(Product::Unknown(buf))
        }
    }
}

/// The number of octets of section 4 in front of its template.
pub const PRODUCT_DEFINITION_SIZE: usize = 4;

/// What the body of section 4 holds. The template lies between the first
/// four octets and the coordinate values at the end, four octets each.
pub open spec fn product_definition_of(body: Seq<u8>) -> Result<
    ProductDefinitionModel,
    GribFault,
> {
    if body.len() < 4 || body.len() - 4 < 4 * be_u16(body, 0) {
        Err(GribFault::ParseError("Section 4 is too short"@))
    } else {
        match product_of(be_u16(body, 2), body.subrange(4, body.len() - 4 * be_u16(body, 0))) {
            Err(e) => Err(e),
            Ok(product) => Ok(
                ProductDefinitionModel {
                    num_coordinates: be_u16(body, 0),
                    template_number: be_u16(body, 2),
                    product,
                    coordinates: None,
                },
            ),
        }
    }
}

impl ProductDefinition {
    /// Reads the body of section 4.
    pub fn from_body(body: &[u8]) -> (r: Result<ProductDefinition, GribError>)
        ensures
            match r {
                Ok(d) => product_definition_of(body@) == Ok::<ProductDefinitionModel, GribFault>(
                    d@,
                ),
                Err(e) => product_definition_of(body@) == Err::<ProductDefinitionModel, GribFault>(
                    e@,
                ),
            },
    {
        if body.len() < PRODUCT_DEFINITION_SIZE {
            return Err(parse_error("Section 4 is too short"));
        }
        let num_coordinates: u16 = read_u16(body, 0);
        let template_number: u16 = read_u16(body, 2);
        let coordinates_size: usize = 4 * (num_coordinates as usize);
        if body.len() - PRODUCT_DEFINITION_SIZE < coordinates_size {
            return Err(parse_error("Section 4 is too short"));
        }
        let template: Vec<u8> = slice_to_vec(
            slice_subrange(body, PRODUCT_DEFINITION_SIZE, body.len() - coordinates_size),
        );
        match Product::from_template(template_number, template) {
            Err(e) => Err(e),
            Ok(product) => Ok(
                ProductDefinition { num_coordinates, template_number, product, coordinates: None },
            ),
        }
    }
}

} // verus!
