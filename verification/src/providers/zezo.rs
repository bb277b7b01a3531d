//! The provider of the forecasts that zezo.org serves as pictures: a pixel
//! for each degree of latitude and longitude, and in it a byte for each
//! component of the wind.
use crate::config::Storage;
use crate::error::{Error, Fault};
use crate::providers::engine::current_ref_time;
use crate::providers::status::Status;
use crate::providers::{build_grid, grid_of, Provider, Wind};
use crate::stamp::Stamp;
use crate::text::{padded_decimal, push_padded_decimal};
use crate::time::{
    civil_of_instant, instant_civil, is_instant, CivilTime, CYCLE_SECONDS, FIRST_INSTANT,
};
use image::{DynamicImage, GenericImageView, ImageFormat, ImageReader};
use std::io::Cursor;
use vstd::prelude::*;
use vstd::string::*;

verus! {

/// The last forecast hour of a cycle.
pub const MAX_FORECAST_HOUR: u16 = 384;

/// The hours from one forecast of a cycle to the next.
pub const STEP: u16 = 3;

/// The number of rows of a picture that are read, one for each degree of
/// latitude.
pub const ROWS: u32 = 180;

/// The number of pixels of a row that are read, one for each degree of
/// longitude.
pub const COLUMNS: u32 = 360;

/// The provider: what is known of its forecasts and where it keeps them.
pub struct Zezo {
    pub status: Status,
    pub pngs: Storage,
}

/// The address of the picture of the forecast for the time `valid` of the
/// cycle issued at `issued`: the day for which the forecast is valid, the
/// hour of that day in three digits, and the hour of the day at which the
/// cycle was issued in two.
pub open spec fn url_of(valid: CivilTime, issued: CivilTime) -> Seq<char> {
    "http://fr.zezo.org/windp/"@ + padded_decimal(valid.year as nat, 4) + padded_decimal(
        valid.month as nat,
        2,
    ) + padded_decimal(valid.day as nat, 2) + "_"@ + padded_decimal(valid.hour as nat, 3) + "_"@
        + padded_decimal(issued.hour as nat, 2) + ".png"@
}

/// The square of the speed that a byte of a pixel stands for, with the sign
/// of the speed: a byte above 127 stands for a speed against the axis, of
/// the size of what the byte lacks to 256.
pub open spec fn signed_square(d: u8) -> int {
    if d > 127 {
        -((256 - d) * (256 - d))
    } else {
        d * d
    }
}

/// The square of the speed that a byte of a pixel stands for, with the sign
/// of the speed.
pub fn vr_square(d: u8) -> (r: i32)
    ensures
        r == signed_square(d),
        -16_384 <= r <= 16_129,
{
    if d > 127 {
        let e: i32 = 256 - d as i32;
        assert(e * e <= 128 * 128) by (nonlinear_arith)
            requires
                0 <= e <= 128,
        ;
        assert(e * e >= 0) by (nonlinear_arith);
        -(e * e)
    } else {
        let e: i32 = d as i32;
        assert(e * e <= 127 * 127) by (nonlinear_arith)
            requires
                0 <= e <= 127,
        ;
        assert(e * e >= 0) by (nonlinear_arith);
        e * e
    }
}

impl Zezo {
    /// The provider with nothing known, at the time `now`.
    pub fn new(pngs: Storage, now: i64) -> (r: Zezo)
        requires
            is_instant(now as int),
            now >= FIRST_INSTANT + CYCLE_SECONDS,
        ensures
            r.pngs == pngs,
            r.status@.provider == "zezo"@,
            r.status@.provider_name == "Zezo"@,
            r.status@.current_ref_time == if now % 21_600 < 12_600 {
                now - now % 21_600 - 21_600
            } else {
                now - now % 21_600
            },
            r.status@.last is None,
            r.status@.progress == 0,
            r.status@.forecasts == Seq::<(i64, Seq<Stamp>)>::empty(),
            r.status@.well_formed(),
    {
        Zezo {
            status: Status::new(
                String::from_str("zezo"),
                String::from_str("Zezo"),
                current_ref_time(now),
            ),
            pngs,
        }
    }

    /// The address of the picture of the forecast of `stamp`.
    pub fn download_url(stamp: &Stamp) -> (url: String)
        requires
            stamp.well_formed(),
            is_instant(stamp.forecast_time as int),
        ensures
            url@ == url_of(
                instant_civil(stamp.forecast_time as int),
                instant_civil(stamp.ref_time as int),
            ),
    {
        let valid: CivilTime = civil_of_instant(stamp.forecast_time);
        let issued: CivilTime = civil_of_instant(stamp.ref_time);
        Zezo::url(&valid, &issued)
    }

    /// The address of the picture of the forecast for the time `valid` of the
    /// cycle issued at `issued`.
    pub fn url(valid: &CivilTime, issued: &CivilTime) -> (url: String)
        ensures
            url@ == url_of(*valid, *issued),
    {
        let mut url = String::from_str("http://fr.zezo.org/windp/");
        push_padded_decimal(&mut url, valid.year as u64, 4);
        push_padded_decimal(&mut url, valid.month as u64, 2);
        push_padded_decimal(&mut url, valid.day as u64, 2);
        url.append("_");
        push_padded_decimal(&mut url, valid.hour as u64, 3);
        url.append("_");
        push_padded_decimal(&mut url, issued.hour as u64, 2);
        url.append(".png");
        url
    }
}

impl Provider for Zezo {
    open spec fn id_text(&self) -> Seq<char> {
        "zezo"@
    }

    fn id(&self) -> (id: String) {
        String::from_str("zezo")
    }

    open spec fn storage(&self) -> Storage {
        self.pngs
    }

    open spec fn inventory(&self) -> Status {
        self.status
    }

    fn jsons_storage(&self) -> (storage: &Storage) {
        &self.pngs
    }

    fn max_forecast_hour(&self) -> (hours: u16)
        ensures
            hours == MAX_FORECAST_HOUR,
    {
        MAX_FORECAST_HOUR
    }

    fn step(&self) -> (hours: u16)
        ensures
            hours == STEP,
    {
        STEP
    }

    fn status(&self) -> (status: &Status) {
        &self.status
    }
}

/// image's `DynamicImage`: a decoded picture, of which the library reads the
/// size and the pixels through the functions below.
#[verifier::external_type_specification]
#[verifier::external_body]
pub struct ExDynamicImage(DynamicImage);

/// The pixels of a picture, row by row from the top and in each row from the
/// left, each with its four channels.
pub uninterp spec fn picture_rows(picture: DynamicImage) -> Seq<Seq<(u8, u8, u8, u8)>>;

/// The pixels of the picture that the bytes of a PNG file are, if they are
/// one.
pub uninterp spec fn decoded_picture(bytes: Seq<u8>) -> Option<Seq<Seq<(u8, u8, u8, u8)>>>;

/// image's `ImageReader::with_format` for the format PNG and `decode`, on
/// bytes in memory. Believed of them: whether a picture comes, and with
/// which pixels, depends on the bytes alone. (With the format given, image
/// asks none of the hooks that a process can register.)
#[verifier::external_body]
fn decode_picture(bytes: &[u8]) -> (r: Option<DynamicImage>)
    ensures
        match r {
            Some(picture) => decoded_picture(bytes@) == Some(picture_rows(picture)),
            None => decoded_picture(bytes@) is None,
        },
{
    ImageReader::with_format(Cursor::new(bytes), ImageFormat::Png).decode().ok()
}

/// image's `GenericImageView::dimensions`, width first. Believed of it: the
/// picture has as many rows as it is high, and each row as many pixels as it
/// is wide.
#[verifier::external_body]
fn picture_dimensions(picture: &DynamicImage) -> (r: (u32, u32))
    ensures
        r.1 == picture_rows(*picture).len(),
        forall|y: int|
            0 <= y < picture_rows(*picture).len() ==> (#[trigger] picture_rows(*picture)[y]).len()
                == r.0,
{
    picture.dimensions()
}

/// image's `GenericImageView::get_pixel`, which does not take a place
/// outside the picture. Believed of it: it gives the pixel `x` of row `y`.
#[verifier::external_body]
fn picture_pixel(picture: &DynamicImage, x: u32, y: u32) -> (r: (u8, u8, u8, u8))
    requires
        y < picture_rows(*picture).len(),
        x < picture_rows(*picture)[y as int].len(),
    ensures
        r == picture_rows(*picture)[y as int][x as int],
{
    let pixel = picture.get_pixel(x, y);
    (pixel.0[0], pixel.0[1], pixel.0[2], pixel.0[3])
}

/// The squares of the speeds of a forecast, with their signs: for each
/// component `ROWS` times `COLUMNS` values, row by row.
#[derive(Debug, Clone, PartialEq, Eq)]
pub struct WindSquares {
    pub u: Vec<i32>,
    pub v: Vec<i32>,
}

/// Whether a picture has the rows and the columns that are read.
pub open spec fn covers_globe(rows: Seq<Seq<(u8, u8, u8, u8)>>) -> bool {
    rows.len() >= ROWS && forall|y: int| 0 <= y < ROWS ==> (#[trigger] rows[y]).len() >= COLUMNS
}

/// The squares that the first channel of the pixels stands for, row by row.
pub open spec fn u_squares(rows: Seq<Seq<(u8, u8, u8, u8)>>) -> Seq<i32> {
    Seq::new(
        (ROWS * COLUMNS) as nat,
        |k: int| signed_square(rows[k / (COLUMNS as int)][k % (COLUMNS as int)].0) as i32,
    )
}

/// The squares that the second channel of the pixels stands for, row by row.
pub open spec fn v_squares(rows: Seq<Seq<(u8, u8, u8, u8)>>) -> Seq<i32> {
    Seq::new(
        (ROWS * COLUMNS) as nat,
        |k: int| signed_square(rows[k / (COLUMNS as int)][k % (COLUMNS as int)].1) as i32,
    )
}

/// The number of values of a component.
pub const POINTS: usize = 64_800;

/// The latitude of the first row, 90 degrees south, as the 64 bits of its
/// IEEE 754 double-precision notation.
pub const FIRST_LATITUDE: u64 = 0xC056_8000_0000_0000;

/// The longitude of the first column, 180 degrees west, as the 64 bits of
/// its IEEE 754 double-precision notation.
pub const FIRST_LONGITUDE: u64 = 0xC066_8000_0000_0000;

/// One degree, as the 64 bits of its IEEE 754 double-precision notation.
pub const ONE_DEGREE: u64 = 0x3FF0_0000_0000_0000;

impl Zezo {
    /// Reads the picture of a forecast from the bytes of its file, a PNG
    /// file.
    pub fn read_picture(bytes: &[u8]) -> (r: Result<WindSquares, Error>)
        ensures
            match r {
                Ok(squares) => decoded_picture(bytes@) matches Some(rows) && covers_globe(rows)
                    && squares.u@ == u_squares(rows) && squares.v@ == v_squares(rows),
                Err(e) => match decoded_picture(bytes@) {
                    None => e@ == Fault::ImageError,
                    Some(rows) => !covers_globe(rows) && e@ == Fault::Error,
                },
            },
    {
        match decode_picture(bytes) {
            Some(picture) => Zezo::squares_of_picture(&picture),
            None => Err(Error::ImageError()),
        }
    }

    /// Reads the picture of a forecast: of each pixel of the first `ROWS`
    /// rows and `COLUMNS` columns the first byte gives the component towards
    /// the east and the second the component towards the north. A picture
    /// with fewer rows or columns is refused.
    pub fn squares_of_picture(picture: &DynamicImage) -> (r: Result<WindSquares, Error>)
        ensures
            match r {
                Ok(squares) => covers_globe(picture_rows(*picture)) && squares.u@ == u_squares(
                    picture_rows(*picture),
                ) && squares.v@ == v_squares(picture_rows(*picture)),
                Err(e) => !covers_globe(picture_rows(*picture)) && e@ == Fault::Error,
            },
    {
        let ghost rows = picture_rows(*picture);
        let (width, height) = picture_dimensions(picture);
        if width < COLUMNS || height < ROWS {
            assert(!covers_globe(rows)) by {
                if height >= ROWS {
                    assert(rows[0].len() == width);
                }
            }
            return Err(Error::Error());
        }
        let mut u: Vec<i32> = Vec::new();
        let mut v: Vec<i32> = Vec::new();
        let mut y: u32 = 0;
        while y < ROWS
            invariant
                y <= ROWS,
                rows == picture_rows(*picture),
                rows.len() == height,
                height >= ROWS,
                width >= COLUMNS,
                forall|j: int| 0 <= j < rows.len() ==> (#[trigger] rows[j]).len() == width,
                u@.len() == y * COLUMNS,
                v@.len() == y * COLUMNS,
                forall|k: int| 0 <= k < u@.len() ==> u@[k] == u_squares(rows)[k],
                forall|k: int| 0 <= k < v@.len() ==> v@[k] == v_squares(rows)[k],
            decreases ROWS - y,
        {
            let mut x: u32 = 0;
            while x < COLUMNS
                invariant
                    x <= COLUMNS,
                    y < ROWS,
                    rows == picture_rows(*picture),
                    rows.len() == height,
                    height >= ROWS,
                    width >= COLUMNS,
                    forall|j: int| 0 <= j < rows.len() ==> (#[trigger] rows[j]).len() == width,
                    u@.len() == y * COLUMNS + x,
                    v@.len() == y * COLUMNS + x,
                    forall|k: int| 0 <= k < u@.len() ==> u@[k] == u_squares(rows)[k],
                    forall|k: int| 0 <= k < v@.len() ==> v@[k] == v_squares(rows)[k],
                decreases COLUMNS - x,
            {
                assert(rows[y as int].len() == width);
                let pixel = picture_pixel(picture, x, y);
                proof {
                    let k = y * COLUMNS + x;
                    assert(k / (COLUMNS as int) == y && k % (COLUMNS as int) == x) by {
                        vstd::arithmetic::div_mod::lemma_fundamental_div_mod_converse(
                            k as int,
                            COLUMNS as int,
                            y as int,
                            x as int,
                        );
                    }
                    assert(k < ROWS * COLUMNS) by (nonlinear_arith)
                        requires
                            k == y * COLUMNS + x,
                            y < ROWS,
                            x < COLUMNS,
                            COLUMNS == 360,
                            ROWS == 180,
                    ;
                }
                u.push(vr_square(pixel.0));
                v.push(vr_square(pixel.1));
                x = x + 1;
            }
            y = y + 1;
        }
        assert(covers_globe(rows)) by {
            assert forall|j: int| 0 <= j < ROWS implies (#[trigger] rows[j]).len() >= COLUMNS by {
                assert(rows[j].len() == width);
            }
        }
        assert(u@ =~= u_squares(rows));
        assert(v@ =~= v_squares(rows));
        Ok(WindSquares { u, v })
    }

    /// The wind of a forecast whose components are `u` and `v`, each `ROWS`
    /// rows of `COLUMNS` values: a grid of one degree that starts at 90
    /// degrees south and 180 degrees west, with every row closed by its first
    /// value; the closing value counts among the longitudes.
    pub fn wind_of_components(u: &[u64], v: &[u64]) -> (r: Option<Wind>)
        ensures
            r is Some <==> u@.len() == POINTS && v@.len() == POINTS,
            r matches Some(wind) ==> {
                &&& wind.lat0 == FIRST_LATITUDE
                &&& wind.lon0 == FIRST_LONGITUDE
                &&& wind.delta_lat == ONE_DEGREE
                &&& wind.delta_lon == ONE_DEGREE
                &&& wind.n_lat == ROWS
                &&& wind.n_lon == COLUMNS + 1
                &&& wind@.u == grid_of(u@, ROWS as nat, COLUMNS as nat)
                &&& wind@.v == grid_of(v@, ROWS as nat, COLUMNS as nat)
            },
    {
        let u = match build_grid(u, ROWS as usize, COLUMNS as usize) {
            Some(u) => u,
            None => {
                return None;
            },
        };
        let v = match build_grid(v, ROWS as usize, COLUMNS as usize) {
            Some(v) => v,
            None => {
                return None;
            },
        };
        Some(
            Wind {
                lat0: FIRST_LATITUDE,
                lon0: FIRST_LONGITUDE,
                delta_lat: ONE_DEGREE,
                delta_lon: ONE_DEGREE,
                n_lat: ROWS as usize,
                n_lon: (COLUMNS + 1) as usize,
                u,
                v,
            },
        )
    }
}

} // verus!
