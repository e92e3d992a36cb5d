use rust_ao::fixed::SCALE;
use rust_ao::wfs::centreofgravity::{
    centre_of_gravity_sums, simple_centre_of_gravity, threshold_centre_of_gravity, PixelGrid,
};

#[test]
fn test_simple_centre_of_gravity_zero() {
    let data = PixelGrid::filled(8, 8, 1).unwrap();
    let (x, y) = simple_centre_of_gravity(&data);
    assert_eq!(x, 0);
    assert_eq!(y, 0);
}

#[test]
fn test_threshold_centre_of_gravity_zero() {
    let data = PixelGrid::filled(8, 8, 1).unwrap();
    let (x, y) = threshold_centre_of_gravity(&data, 0);
    assert_eq!(x, 0);
    assert_eq!(y, 0);
}

#[test]
fn test_cog() {
    let data = PixelGrid::filled(10, 10, 1).unwrap();
    let (x, y) = simple_centre_of_gravity(&data);
    assert_eq!((x, y), (0, 0));
    let (x, y) = threshold_centre_of_gravity(&data, 0);
    assert_eq!((x, y), (0, 0));
}

#[test]
fn uniform_grid_any_value_centres() {
    let data = PixelGrid::filled(6, 4, 37).unwrap();
    let (x, y) = simple_centre_of_gravity(&data);
    assert_eq!((x, y), (0, 0));
}

#[test]
fn sums_are_exact() {
    // [[1, 5], [2, 8]]: total 16, row moment 0*6 + 1*10, column moment
    // (0*1 + 1*5) + (0*2 + 1*8).
    let data = PixelGrid::from_rows(vec![vec![1, 5], vec![2, 8]]).unwrap();
    let (rm, cm, t) = centre_of_gravity_sums(&data);
    assert_eq!(rm, 10);
    assert_eq!(cm, 13);
    assert_eq!(t, 16);
}

#[test]
fn simple_cog_exact_values() {
    // x = (2*10 - 1*16) / (2*16) = 0.125, y = (2*13 - 16) / 32 = 0.3125.
    let data = PixelGrid::from_rows(vec![vec![1, 5], vec![2, 8]]).unwrap();
    let (x, y) = simple_centre_of_gravity(&data);
    assert_eq!(x, SCALE / 8);
    assert_eq!(y, 5 * SCALE / 16);
}

#[test]
fn threshold_cog_filters_small_values() {
    // With threshold 2, only 5 and 8 remain: total 13, row moment 8,
    // column moment 13.  x = (16 - 13) / 26, y = (26 - 13) / 26 = 0.5.
    let data = PixelGrid::from_rows(vec![vec![1, 5], vec![2, 8]]).unwrap();
    let (x, y) = threshold_centre_of_gravity(&data, 2);
    assert_eq!(x, 3 * SCALE / 26);
    assert_eq!(y, SCALE / 2);
}

#[test]
fn zero_total_yields_centre() {
    let data = PixelGrid::filled(4, 4, 0).unwrap();
    let (x, y) = simple_centre_of_gravity(&data);
    assert_eq!((x, y), (0, 0));
    let (x, y) = threshold_centre_of_gravity(&data, 100);
    assert_eq!((x, y), (0, 0));
}

#[test]
fn runaway_quotient_is_clamped() {
    // One row [-999, 1000]: total 1, column moment 1000, so the raw
    // quotient (2*1000 - 1) / 2 lies far outside the two-pixel axis and
    // is clamped to its extent.
    let data = PixelGrid::from_rows(vec![vec![-999, 1000]]).unwrap();
    let (_, y) = simple_centre_of_gravity(&data);
    assert_eq!(y, 2 * SCALE);
}

#[test]
fn oversized_grid_is_rejected() {
    assert!(PixelGrid::filled(5000, 8, 1).is_err());
    assert!(PixelGrid::filled(8, 5000, 1).is_err());
}

#[test]
fn ragged_grid_is_rejected() {
    assert!(PixelGrid::from_rows(vec![vec![1, 2], vec![3]]).is_err());
}

#[test]
fn out_of_range_value_is_rejected() {
    assert!(PixelGrid::from_rows(vec![vec![2_000_000]]).is_err());
    assert!(PixelGrid::filled(2, 2, -2_000_000).is_err());
}
