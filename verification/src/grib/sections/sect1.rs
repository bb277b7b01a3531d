//! Section 1: identification.
use crate::grib::utils::be_u16;
use crate::grib::utils::read_u16;
use crate::grib::{parse_error, GribError, GribFault};
use crate::time::{civil_instant, instant_of_civil, CivilTime};
use vstd::prelude::*;

verus! {

#[derive(Debug, Clone, Copy, PartialEq, Eq, Structural)]
pub struct Identification {
    /// Identification of the originating centre.
    pub centre_id: u16,
    /// Identification of the originating sub-centre.
    pub subcentre_id: u16,
    /// Version number of the GRIB master tables.
    pub master_table_version: u8,
    /// Version number of the GRIB local tables.
    pub local_table_version: u8,
    /// Significance of the reference time.
    pub ref_time_significance: u8,
    /// Reference time of the data, in seconds since 1970-01-01T00:00:00Z.
    pub ref_time: i64,
    /// Production status of the processed data.
    pub prod_status: u8,
    /// Type of the processed data.
    pub data_type: u8,
}

/// The number of octets of section 1 that are read, after its header.
pub const IDENTIFICATION_SIZE: usize = 16;

/// The reference time that the body of section 1 writes.
pub open spec fn identification_time(body: Seq<u8>) -> CivilTime {
    CivilTime {
        year: be_u16(body, 7),
        month: body[9],
        day: body[10],
        hour: body[11],
        minute: body[12],
        second: body[13],
    }
}

/// What the body of section 1 holds.
pub open spec fn identification_of(body: Seq<u8>) -> Result<Identification, GribFault> {
    if body.len() < 16 {
        Err(GribFault::ParseError("Section 1 is too short"@))
    } else if !identification_time(body).on_calendar() {
        Err(GribFault::ParseError("Reference time does not exist"@))
    } else {
        Ok(
            Identification {
                centre_id: be_u16(body, 0),
                subcentre_id: be_u16(body, 2),
                master_table_version: body[4],
                local_table_version: body[5],
                ref_time_significance: body[6],
                ref_time: civil_instant(
                    be_u16(body, 7) as int,
                    body[9] as int,
                    body[10] as int,
                    body[11] as int,
                    body[12] as int,
                    body[13] as int,
                ) as i64,
                prod_status: body[14],
                data_type: body[15],
            },
        )
    }
}

impl Identification {
    /// Reads the body of section 1.
    pub fn from_body(body: &[u8]) -> (r: Result<Identification, GribError>)
        ensures
            match r {
                Ok(id) => identification_of(body@) == Ok::<Identification, GribFault>(id),
                Err(e) => identification_of(body@) == Err::<Identification, GribFault>(e@),
            },
    {
        if body.len() < IDENTIFICATION_SIZE {
            return Err(parse_error("Section 1 is too short"));
        }
        let time = CivilTime {
            year: read_u16(body, 7),
            month: body[9],
            day: body[10],
            hour: body[11],
            minute: body[12],
            second: body[13],
        };
        match instant_of_civil(time) {
            None => Err(parse_error("Reference time does not exist")),
            Some(ref_time) => Ok(
                Identification {
                    centre_id: read_u16(body, 0),
                    subcentre_id: read_u16(body, 2),
                    master_table_version: body[4],
                    local_table_version: body[5],
                    ref_time_significance: body[6],
                    ref_time,
                    prod_status: body[14],
                    data_type: body[15],
                },
            ),
        }
    }
}

} // verus!
