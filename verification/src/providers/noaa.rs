//! The provider of the global forecast of NOAA on a grid of one degree.
use crate::config::Storage;
use crate::providers::engine::current_ref_time;
use crate::providers::status::Status;
use crate::providers::Provider;
use crate::stamp::Stamp;
use crate::text::{padded_decimal, push_padded_decimal};
use crate::time::{
    civil_of_instant, instant_civil, is_instant, CivilTime, CYCLE_SECONDS, FIRST_INSTANT,
};
use vstd::prelude::*;
use vstd::string::*;

verus! {

/// Where the forecasts are asked for.
pub const URL: &'static str = "https://nomads.ncep.noaa.gov/cgi-bin/filter_gfs_1p00.pl";

/// The last forecast hour of a cycle.
pub const MAX_FORECAST_HOUR: u16 = 384;

/// The hours from one forecast of a cycle to the next.
pub const STEP: u16 = 3;

/// The provider: what is known of its forecasts and where it keeps them.
pub struct Noaa {
    pub status: Status,
    pub jsons: Storage,
}

/// The directory of the cycle issued at `civil`.
pub open spec fn directory_of(civil: CivilTime) -> Seq<char> {
    "/gfs."@ + padded_decimal(civil.year as nat, 4) + padded_decimal(civil.month as nat, 2)
        + padded_decimal(civil.day as nat, 2) + "/"@ + padded_decimal(civil.hour as nat, 2)
        + "/atmos"@
}

/// The file of the forecast of hour `hour` of the cycle issued at `civil`.
pub open spec fn file_of(civil: CivilTime, hour: nat) -> Seq<char> {
    "gfs.t"@ + padded_decimal(civil.hour as nat, 2) + "z.pgrb2.1p00.f"@ + padded_decimal(hour, 3)
}

/// The parameters of the request for the forecast of hour `hour` of the
/// cycle issued at `civil`: the wind at ten metres above ground, over the
/// whole globe.
pub open spec fn query_of(civil: CivilTime, hour: nat) -> Seq<(Seq<char>, Seq<char>)> {
    seq![
        ("dir"@, directory_of(civil)),
        ("file"@, file_of(civil, hour)),
        ("lev_10_m_above_ground"@, "on"@),
        ("var_UGRD"@, "on"@),
        ("var_VGRD"@, "on"@),
        ("leftlon"@, "0"@),
        ("rightlon"@, "360"@),
        ("toplat"@, "90"@),
        ("bottomlat"@, "-90"@),
    ]
}

/// The texts of the parameters of a request.
pub open spec fn parameters_of(query: Seq<(String, String)>) -> Seq<(Seq<char>, Seq<char>)> {
    query.map_values(|parameter: (String, String)| (parameter.0@, parameter.1@))
}

fn parameter(name: &str, value: &str) -> (r: (String, String))
    ensures
        r.0@ == name@,
        r.1@ == value@,
{
    (String::from_str(name), String::from_str(value))
}

impl Noaa {
    /// The provider with nothing known, at the time `now`.
    pub fn new(jsons: Storage, now: i64) -> (r: Noaa)
        requires
            is_instant(now as int),
            now >= FIRST_INSTANT + CYCLE_SECONDS,
        ensures
            r.jsons == jsons,
            r.status@.provider == "noaa"@,
            r.status@.provider_name == "Noaa"@,
            r.status@.current_ref_time == if now % 21_600 < 12_600 {
                now - now % 21_600 - 21_600
            } else {
                now - now % 21_600
            },
            r.status@.last is None,
            r.status@.progress == 0,
            r.status@.forecasts == Seq::<(i64, Seq<Stamp>)>::empty(),
            r.status@.well_formed(),
    {
        Noaa {
            status: Status::new(
                String::from_str("noaa"),
                String::from_str("Noaa"),
                current_ref_time(now),
            ),
            jsons,
        }
    }

    /// The parameters of the request for the forecast of `stamp`.
    pub fn download_query(stamp: &Stamp) -> (query: Vec<(String, String)>)
        requires
            stamp.well_formed(),
        ensures
            parameters_of(query@) == query_of(instant_civil(stamp.ref_time as int), stamp.hour()),
    {
        let civil: CivilTime = civil_of_instant(stamp.ref_time);
        Noaa::query(&civil, stamp.forecast_hour())
    }

    /// The parameters of the request for the forecast of hour `hour` of the
    /// cycle issued at `civil`.
    pub fn query(civil: &CivilTime, hour: u16) -> (query: Vec<(String, String)>)
        ensures
            parameters_of(query@) == query_of(*civil, hour as nat),
    {
        let mut dir = String::from_str("/gfs.");
        push_padded_decimal(&mut dir, civil.year as u64, 4);
        push_padded_decimal(&mut dir, civil.month as u64, 2);
        push_padded_decimal(&mut dir, civil.day as u64, 2);
        dir.append("/");
        push_padded_decimal(&mut dir, civil.hour as u64, 2);
        dir.append("/atmos");
        let mut file = String::from_str("gfs.t");
        push_padded_decimal(&mut file, civil.hour as u64, 2);
        file.append("z.pgrb2.1p00.f");
        push_padded_decimal(&mut file, hour as u64, 3);
        let mut query: Vec<(String, String)> = Vec::new();
        query.push((String::from_str("dir"), dir));
        query.push((String::from_str("file"), file));
        query.push(parameter("lev_10_m_above_ground", "on"));
        query.push(parameter("var_UGRD", "on"));
        query.push(parameter("var_VGRD", "on"));
        query.push(parameter("leftlon", "0"));
        query.push(parameter("rightlon", "360"));
        query.push(parameter("toplat", "90"));
        query.push(parameter("bottomlat", "-90"));
        assert(parameters_of(query@) =~= query_of(*civil, hour as nat));
        query
    }
}

impl Provider for Noaa {
    open spec fn id_text(&self) -> Seq<char> {
        "noaa"@
    }

    fn id(&self) -> (id: String) {
        String::from_str("noaa")
    }

    open spec fn storage(&self) -> Storage {
        self.jsons
    }

    open spec fn inventory(&self) -> Status {
        self.status
    }

    fn jsons_storage(&self) -> (storage: &Storage) {
        &self.jsons
    }

    fn max_forecast_hour(&self) -> (hours: u16)
        ensures
            hours == MAX_FORECAST_HOUR,
    {
        MAX_FORECAST_HOUR
    }

    fn step(&self) -> (hours: u16)
        ensures
            hours == STEP,
    {
        STEP
    }

    fn status(&self) -> (status: &Status) {
        &self.status
    }
}

} // verus!
