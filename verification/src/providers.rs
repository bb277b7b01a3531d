//! The wind grid, the inventory of known forecasts and what a provider
//! decides.
pub mod engine;
pub mod json;
pub mod listing;
pub mod noaa;
pub mod status;
pub mod zezo;

use crate::config::Storage;
use crate::error::{Error, Fault};
use crate::providers::status::Status;
use crate::providers::json::{models_of, Header, Message, MessageModel};
use vstd::string::*;
use vstd::prelude::*;
use vstd::slice::*;

verus! {

/// The wind over a grid of latitudes and longitudes. Every number that is
/// not a count is kept as the 64 bits of its IEEE 754 double-precision
/// notation.
#[derive(Debug, Clone, PartialEq, Eq)]
pub struct Wind {
    pub lat0: u64,
    pub lon0: u64,
    pub delta_lat: u64,
    pub delta_lon: u64,
    pub n_lat: usize,
    pub n_lon: usize,
    /// The component towards the east: a row for each latitude, and in each
    /// row a value for each longitude and the first value once more.
    pub u: Vec<Vec<u64>>,
    /// The component towards the north, laid out as `u`.
    pub v: Vec<Vec<u64>>,
}

/// A `Wind` with its grids as sequences.
pub struct WindModel {
    pub lat0: u64,
    pub lon0: u64,
    pub delta_lat: u64,
    pub delta_lon: u64,
    pub n_lat: usize,
    pub n_lon: usize,
    pub u: Seq<Seq<u64>>,
    pub v: Seq<Seq<u64>>,
}

/// The rows of a grid as sequences.
pub open spec fn rows_of<T>(grid: Seq<Vec<T>>) -> Seq<Seq<T>> {
    grid.map_values(|row: Vec<T>| row@)
}

impl View for Wind {
    type V = WindModel;

    open spec fn view(&self) -> WindModel {
        WindModel {
            lat0: self.lat0,
            lon0: self.lon0,
            delta_lat: self.delta_lat,
            delta_lon: self.delta_lon,
            n_lat: self.n_lat,
            n_lon: self.n_lon,
            u: rows_of(self.u@),
            v: rows_of(self.v@),
        }
    }
}

/// Whether a grid has `n_lat` rows of `n_lon + 1` values of which the last is
/// the first once more.
pub open spec fn is_wrapped_grid<T>(grid: Seq<Seq<T>>, n_lat: nat, n_lon: nat) -> bool {
    &&& grid.len() == n_lat
    &&& forall|i: int|
        0 <= i < grid.len() ==> (#[trigger] grid[i]).len() == n_lon + 1 && grid[i].last()
            == grid[i][0]
}

impl WindModel {
    /// Whether both grids have the shape that the counts give.
    pub open spec fn well_formed(self) -> bool {
        &&& is_wrapped_grid(self.u, self.n_lat as nat, self.n_lon as nat)
        &&& is_wrapped_grid(self.v, self.n_lat as nat, self.n_lon as nat)
    }
}

/// Whether `len` values fill a grid of `nb_lat` rows of `nb_lon` values, of
/// which each row has a first value.
pub open spec fn fills_grid(len: nat, nb_lat: nat, nb_lon: nat) -> bool {
    len == nb_lat * nb_lon && (nb_lat == 0 || nb_lon > 0)
}

/// Row `i` of the grid that the values make, row by row: `nb_lon` values and
/// the first of them once more.
pub open spec fn grid_row<T>(data: Seq<T>, nb_lon: nat, i: int) -> Seq<T> {
    data.subrange(i * nb_lon, i * nb_lon + nb_lon).push(data[i * nb_lon])
}

/// The grid that the values make, row by row.
pub open spec fn grid_of<T>(data: Seq<T>, nb_lat: nat, nb_lon: nat) -> Seq<Seq<T>> {
    Seq::new(nb_lat, |i: int| grid_row(data, nb_lon, i))
}

/// The grid that values make when they fill it has the shape that was asked
/// for: `nb_lat` rows of `nb_lon + 1` values, and the last value of each row
/// is its first.
pub proof fn lemma_grid_is_wrapped<T>(data: Seq<T>, nb_lat: nat, nb_lon: nat)
    requires
        fills_grid(data.len(), nb_lat, nb_lon),
    ensures
        is_wrapped_grid(grid_of(data, nb_lat, nb_lon), nb_lat, nb_lon),
{
    let grid = grid_of(data, nb_lat, nb_lon);
    assert forall|i: int| 0 <= i < grid.len() implies (#[trigger] grid[i]).len() == nb_lon + 1
        && grid[i].last() == grid[i][0] by {
        assert((i + 1) * nb_lon <= nb_lat * nb_lon) by (nonlinear_arith)
            requires
                i + 1 <= nb_lat,
                nb_lon >= 0,
        ;
        assert((i + 1) * nb_lon == i * nb_lon + nb_lon) by (nonlinear_arith);
        assert(0 <= i * nb_lon) by (nonlinear_arith)
            requires
                0 <= i,
                nb_lon >= 0,
        ;
        assert(grid[i] == grid_row(data, nb_lon, i));
    }
}

/// Folds values into a grid of `nb_lat` rows, row by row, and closes each row
/// with its first value. Values that do not fill such a grid are refused.
pub fn build_grid<T: Copy>(data: &[T], nb_lat: usize, nb_lon: usize) -> (r: Option<Vec<Vec<T>>>)
    ensures
        r is Some <==> fills_grid(data@.len(), nb_lat as nat, nb_lon as nat),
        r matches Some(grid) ==> rows_of(grid@) == grid_of(data@, nb_lat as nat, nb_lon as nat),
        r matches Some(grid) ==> is_wrapped_grid(rows_of(grid@), nb_lat as nat, nb_lon as nat),
{
    assert(nb_lat * nb_lon <= 0xffff_ffff_ffff_ffff * 0xffff_ffff_ffff_ffff) by (nonlinear_arith)
        requires
            nb_lat <= 0xffff_ffff_ffff_ffff,
            nb_lon <= 0xffff_ffff_ffff_ffff,
    ;
    let size: u128 = (nb_lat as u128) * (nb_lon as u128);
    if data.len() as u128 != size || (nb_lat > 0 && nb_lon == 0) {
        return None;
    }
    let mut grid: Vec<Vec<T>> = Vec::new();
    let mut p: usize = 0;
    let mut i: usize = 0;
    while i < nb_lat
        invariant
            i <= nb_lat,
            data@.len() == nb_lat * nb_lon,
            nb_lon > 0 || nb_lat == 0,
            p == i * nb_lon,
            grid@.len() == i,
            forall|k: int| 0 <= k < i ==> (#[trigger] grid@[k])@ == grid_row(data@, nb_lon as nat, k),
        decreases nb_lat - i,
    {
        proof {
            assert((i + 1) * nb_lon <= nb_lat * nb_lon) by (nonlinear_arith)
                requires
                    i + 1 <= nb_lat,
                    nb_lon >= 0,
            ;
            assert((i + 1) * nb_lon == i * nb_lon + nb_lon) by (nonlinear_arith);
        }
        let start: usize = p;
        let mut raw: Vec<T> = Vec::new();
        let mut j: usize = 0;
        while j < nb_lon
            invariant
                j <= nb_lon,
                p == start + j,
                start + nb_lon <= data@.len(),
                raw@ == data@.subrange(start as int, start + j),
            decreases nb_lon - j,
        {
            raw.push(data[p]);
            p = p + 1;
            j = j + 1;
            assert(raw@ =~= data@.subrange(start as int, start + j));
        }
        let first: T = raw[0];
        raw.push(first);
        grid.push(raw);
        i = i + 1;
    }
    assert(rows_of(grid@) =~= grid_of(data@, nb_lat as nat, nb_lon as nat));
    proof {
        lemma_grid_is_wrapped(data@, nb_lat as nat, nb_lon as nat);
    }
    Some(grid)
}

/// The parameter number of the wind component towards the east.
pub const U_COMPONENT: u8 = 2;

/// The parameter number of the wind component towards the north.
pub const V_COMPONENT: u8 = 3;

/// The place of the last wind field at ten metres with the given parameter
/// number, if there is one.
pub open spec fn last_component(messages: Seq<MessageModel>, number: u8) -> Option<int>
    decreases messages.len(),
{
    if messages.len() == 0 {
        None
    } else if messages.last().header.is_wind_at_ten_metres() && messages.last().header.parameter_number
        == number {
        Some(messages.len() - 1)
    } else {
        last_component(messages.drop_last(), number)
    }
}

/// The wind that stored messages hold: the last field of each component at
/// ten metres, where there are both, they lie on one grid and the values of
/// each fill that grid.
pub open spec fn wind_of(messages: Seq<MessageModel>) -> Option<WindModel> {
    match (last_component(messages, U_COMPONENT), last_component(messages, V_COMPONENT)) {
        (Some(u_at), Some(v_at)) => {
            let u = messages[u_at];
            let v = messages[v_at];
            if u.header.same_grid(v.header) && fills_grid(
                u.data.len(),
                u.header.ny as nat,
                u.header.nx as nat,
            ) && fills_grid(v.data.len(), u.header.ny as nat, u.header.nx as nat) {
                Some(
                    WindModel {
                        lat0: u.header.la1,
                        lon0: u.header.lo1,
                        delta_lat: u.header.dy,
                        delta_lon: u.header.dx,
                        n_lat: u.header.ny,
                        n_lon: u.header.nx,
                        u: grid_of(u.data, u.header.ny as nat, u.header.nx as nat),
                        v: grid_of(v.data, u.header.ny as nat, u.header.nx as nat),
                    },
                )
            } else {
                None
            }
        },
        _ => None,
    }
}

/// The error for messages that hold no wind.
pub fn no_wind() -> (e: Error)
    ensures
        e@ == Fault::AnyhowError("Error loading wind from messages"@),
{
    Error::AnyhowError(String::from_str("Error loading wind from messages"))
}

impl Wind {
    /// The wind that stored messages hold.
    pub fn try_from(messages: Vec<Message>) -> (r: Result<Wind, Error>)
        ensures
            match r {
                Ok(wind) => wind_of(models_of(messages@)) == Some(wind@) && wind@.well_formed(),
                Err(e) => wind_of(models_of(messages@)) is None && e@ == Fault::AnyhowError(
                    "Error loading wind from messages"@,
                ),
            },
    {
        let ghost models = models_of(messages@);
        let mut u_at: Option<usize> = None;
        let mut v_at: Option<usize> = None;
        let mut i: usize = 0;
        assert(models.take(0) =~= Seq::<MessageModel>::empty());
        while i < messages.len()
            invariant
                i <= messages.len(),
                models == models_of(messages@),
                match u_at {
                    Some(at) => last_component(models.take(i as int), U_COMPONENT) == Some(
                        at as int,
                    ) && at < i,
                    None => last_component(models.take(i as int), U_COMPONENT) is None,
                },
                match v_at {
                    Some(at) => last_component(models.take(i as int), V_COMPONENT) == Some(
                        at as int,
                    ) && at < i,
                    None => last_component(models.take(i as int), V_COMPONENT) is None,
                },
            decreases messages.len() - i,
        {
            let header: &Header = &messages[i].header;
            proof {
                assert(models.take(i + 1).drop_last() =~= models.take(i as int));
                assert(models.take(i + 1).last() == messages@[i as int]@);
            }
            if header.wind_at_ten_metres() {
                if header.parameter_number == U_COMPONENT {
                    u_at = Some(i);
                } else if header.parameter_number == V_COMPONENT {
                    v_at = Some(i);
                }
            }
            i = i + 1;
        }
        assert(models.take(i as int) =~= models);
        let (u_at, v_at) = match (u_at, v_at) {
            (Some(u_at), Some(v_at)) => (u_at, v_at),
            _ => {
                return Err(no_wind());
            },
        };
        let header: Header = messages[u_at].header;
        if !header.on_same_grid(&messages[v_at].header) {
            return Err(no_wind());
        }
        let u = match build_grid(messages[u_at].data.as_slice(), header.ny, header.nx) {
            Some(u) => u,
            None => {
                return Err(no_wind());
            },
        };
        let v = match build_grid(messages[v_at].data.as_slice(), header.ny, header.nx) {
            Some(v) => v,
            None => {
                return Err(no_wind());
            },
        };
        Ok(
            Wind {
                lat0: header.la1,
                lon0: header.lo1,
                delta_lat: header.dy,
                delta_lon: header.dx,
                n_lat: header.ny,
                n_lon: header.nx,
                u,
                v,
            },
        )
    }
}

/// What the engine needs to know of a provider.
pub trait Provider {
    /// The name under which the provider is known.
    spec fn id_text(&self) -> Seq<char>;

    /// Where the provider keeps its forecasts.
    spec fn storage(&self) -> Storage;

    /// What is known of the forecasts of the provider.
    spec fn inventory(&self) -> Status;

    fn id(&self) -> (id: String)
        ensures
            id@ == self.id_text(),
    ;

    fn jsons_storage(&self) -> (storage: &Storage)
        ensures
            *storage == self.storage(),
    ;

    /// The last forecast hour of a cycle.
    fn max_forecast_hour(&self) -> (hours: u16)
        ensures
            hours > 0,
    ;

    /// The hours from one forecast of a cycle to the next.
    fn step(&self) -> (hours: u16)
        ensures
            hours > 0,
    ;

    fn status(&self) -> (status: &Status)
        ensures
            *status == self.inventory(),
    ;
}

} // verus!
