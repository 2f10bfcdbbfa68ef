use rustamath::constant::mks::list::Name;
use rustamath::constant::mks::MksUnit;
use rustamath::la::tnsr::{TnsrOrder, TnsrOrderType, TnsrView};
use rustamath::roots::bisection::BisectionState;
use rustamath::roots::itp::ItpState;
use rustamath::roots::{RootFinderState, RootsErr};

#[test]
fn unit_exponents_add_under_mul() {
    // speed of light [m/s] times a time [s] is a length [m]
    let speed = MksUnit::new(1, 0, -1, 0);
    let time = MksUnit::new(0, 0, 1, 0);
    let length = MksUnit::new(1, 0, 0, 0);
    assert_eq!(speed.mul(time), length);
}

#[test]
fn unit_exponents_subtract_under_div() {
    let length = MksUnit::new(1, 0, 0, 0);
    let speed = MksUnit::new(1, 0, -1, 0);
    let time = MksUnit::new(0, 0, 1, 0);
    assert_eq!(length.div(speed), time);
    assert_ne!(length.div(time), time);
}

#[test]
fn constant_names_compare() {
    assert_eq!(Name::SpeedOfLight, Name::SpeedOfLight);
    assert_ne!(Name::SpeedOfLight, Name::Minute);
}

#[test]
fn order_strategy_offsets() {
    let order = TnsrOrder::new(TnsrOrderType::RowMajor, 2);
    let sizes = [3usize, 4usize];
    assert_eq!(order.val_pos(&[0, 0], &sizes), 0);
    assert_eq!(order.val_pos(&[1, 2], &sizes), 6);
    assert_eq!(order.row_major_2d(&[2, 3], &sizes), 11);

    let col = TnsrOrder::new(TnsrOrderType::ColMajor, 2);
    assert_eq!(col.val_pos(&[1, 2], &sizes), 7);
    assert_eq!(col.col_major_2d(&[2, 3], &sizes), 11);

    let nd = TnsrOrder::new(TnsrOrderType::RowMajor, 3);
    let sz3 = [2usize, 3usize, 4usize];
    assert_eq!(nd.val_pos(&[1, 2, 3], &sz3), 23);
    assert_eq!(nd.row_major_nd(&[0, 1, 2], &sz3), 6);
    let ndc = TnsrOrder::new(TnsrOrderType::ColMajor, 3);
    assert_eq!(ndc.val_pos(&[1, 2, 3], &sz3), 23);
    assert_eq!(ndc.col_major_nd(&[1, 0, 1], &sz3), 7);
}

#[test]
fn view_flag_toggles() {
    let v = TnsrView { transposed: false };
    assert!(!v.transposed);
    let w = TnsrView { transposed: !v.transposed };
    assert!(w.transposed);
}

#[test]
fn foo_is_identity() {
    assert_eq!(rustamath::foo(41), 41);
}

#[test]
fn roots_error_variants() {
    assert_eq!(RootsErr::FunctionFailed, RootsErr::FunctionFailed);
    assert_ne!(RootsErr::FunctionFailed, RootsErr::EndpointsNotStraddleYeq0);
    let _b: BisectionState = RootFinderState::new();
    let _i: ItpState = RootFinderState::new();
}
