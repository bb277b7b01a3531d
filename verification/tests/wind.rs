use winds::error::Error;
use winds::providers::json::{Header, Message, TEN_METRES};
use winds::providers::{build_grid, Wind};

fn header(parameter_number: u8) -> Header {
    Header {
        discipline: 0,
        parameter_category: 2,
        parameter_number,
        surface1_type: 103,
        surface1_value: 10.0f64.to_bits(),
        nx: 3,
        ny: 2,
        la1: 90.0f64.to_bits(),
        lo1: 0.0f64.to_bits(),
        dx: 1.0f64.to_bits(),
        dy: 1.0f64.to_bits(),
    }
}

fn message(parameter_number: u8, values: &[f64]) -> Message {
    Message { header: header(parameter_number), data: values.iter().map(|v| v.to_bits()).collect() }
}

fn no_wind() -> Result<Wind, Error> {
    Err(Error::AnyhowError(String::from("Error loading wind from messages")))
}

#[test]
fn ten_metres_is_the_number_ten() {
    assert_eq!(f64::from_bits(TEN_METRES), 10.0);
}

#[test]
fn build_grid_folds_rows_and_wraps_them() {
    let grid = build_grid(&[1.0f64, 2.0, 3.0, 4.0, 5.0, 6.0], 2, 3).unwrap();
    assert_eq!(grid, vec![vec![1.0, 2.0, 3.0, 1.0], vec![4.0, 5.0, 6.0, 4.0]]);
    let column = build_grid(&[7u8, 8, 9], 3, 1).unwrap();
    assert_eq!(column, vec![vec![7, 7], vec![8, 8], vec![9, 9]]);
}

#[test]
fn build_grid_gives_rows_that_end_as_they_start() {
    for (rows, columns) in [(1usize, 1usize), (2, 5), (180, 360), (7, 3)] {
        let data: Vec<f64> = (0..rows * columns).map(|k| k as f64 * 0.5).collect();
        let grid = build_grid(&data, rows, columns).unwrap();
        assert_eq!(grid.len(), rows);
        for (i, row) in grid.iter().enumerate() {
            assert_eq!(row.len(), columns + 1);
            assert_eq!(row[columns], row[0]);
            assert_eq!(row[0], data[i * columns]);
            assert_eq!(&row[..columns], &data[i * columns..(i + 1) * columns]);
        }
    }
}

#[test]
fn build_grid_refuses_what_does_not_fill_the_grid() {
    assert_eq!(build_grid(&[1.0f64, 2.0, 3.0], 2, 2), None);
    assert_eq!(build_grid(&[1.0f64, 2.0, 3.0, 4.0, 5.0], 2, 2), None);
    assert_eq!(build_grid::<f64>(&[], 1, 1), None);
    assert_eq!(build_grid::<f64>(&[], 3, 0), None);
    assert_eq!(build_grid(&[1u8], usize::MAX, usize::MAX), None);
}

#[test]
fn build_grid_of_no_rows_is_empty() {
    assert_eq!(build_grid::<f64>(&[], 0, 0), Some(vec![]));
    assert_eq!(build_grid::<f64>(&[], 0, 5), Some(vec![]));
}

#[test]
fn wind_is_made_of_both_components() {
    let wind = Wind::try_from(vec![
        message(2, &[1.0, 2.0, 3.0, 4.0, 5.0, 6.0]),
        message(3, &[-1.0, -2.0, -3.0, -4.0, -5.0, -6.0]),
    ])
    .unwrap();
    assert_eq!(f64::from_bits(wind.lat0), 90.0);
    assert_eq!(f64::from_bits(wind.lon0), 0.0);
    assert_eq!(f64::from_bits(wind.delta_lat), 1.0);
    assert_eq!(f64::from_bits(wind.delta_lon), 1.0);
    assert_eq!(wind.n_lat, 2);
    assert_eq!(wind.n_lon, 3);
    let u: Vec<Vec<f64>> =
        wind.u.iter().map(|row| row.iter().map(|v| f64::from_bits(*v)).collect()).collect();
    let v: Vec<Vec<f64>> =
        wind.v.iter().map(|row| row.iter().map(|v| f64::from_bits(*v)).collect()).collect();
    assert_eq!(u, vec![vec![1.0, 2.0, 3.0, 1.0], vec![4.0, 5.0, 6.0, 4.0]]);
    assert_eq!(v, vec![vec![-1.0, -2.0, -3.0, -1.0], vec![-4.0, -5.0, -6.0, -4.0]]);
}

#[test]
fn wind_takes_the_last_field_of_each_component() {
    let mut other = message(2, &[0.0; 6]);
    other.header.surface1_value = 20.0f64.to_bits();
    let mut ocean = message(3, &[0.0; 6]);
    ocean.header.discipline = 10;
    let mut temperature = message(2, &[0.0; 6]);
    temperature.header.parameter_category = 0;
    let mut pressure_level = message(3, &[0.0; 6]);
    pressure_level.header.surface1_type = 100;
    let wind = Wind::try_from(vec![
        message(3, &[9.0; 6]),
        message(2, &[8.0; 6]),
        message(2, &[1.0; 6]),
        other,
        message(1, &[5.0; 6]),
        message(3, &[2.0; 6]),
        ocean,
        temperature,
        pressure_level,
    ])
    .unwrap();
    assert_eq!(wind.u, vec![vec![1.0f64.to_bits(); 4]; 2]);
    assert_eq!(wind.v, vec![vec![2.0f64.to_bits(); 4]; 2]);
}

#[test]
fn wind_needs_both_components() {
    assert_eq!(Wind::try_from(vec![]), no_wind());
    assert_eq!(Wind::try_from(vec![message(2, &[0.0; 6])]), no_wind());
    assert_eq!(Wind::try_from(vec![message(3, &[0.0; 6])]), no_wind());
    assert_eq!(Wind::try_from(vec![message(4, &[0.0; 6]), message(1, &[0.0; 6])]), no_wind());
}

#[test]
fn wind_needs_both_components_on_one_grid() {
    let mut shifted = message(3, &[0.0; 6]);
    shifted.header.lo1 = 1.0f64.to_bits();
    assert_eq!(Wind::try_from(vec![message(2, &[0.0; 6]), shifted]), no_wind());
    let mut turned = message(3, &[0.0; 6]);
    turned.header.nx = 2;
    turned.header.ny = 3;
    assert_eq!(Wind::try_from(vec![message(2, &[0.0; 6]), turned]), no_wind());
}

#[test]
fn wind_needs_values_that_fill_the_grid() {
    assert_eq!(Wind::try_from(vec![message(2, &[0.0; 5]), message(3, &[0.0; 6])]), no_wind());
    assert_eq!(Wind::try_from(vec![message(2, &[0.0; 6]), message(3, &[0.0; 7])]), no_wind());
}
