//! Coordinate transforms per variant, and the round-trip bound.

use reader_buddy::transform::{
    pen_virtual_to_input, touch_input_to_virtual, touch_virtual_to_input,
};
use reader_buddy::DeviceModel;

#[test]
fn pen_transform_newer_generation_scales() {
    let m = DeviceModel::RemarkablePaperPro;
    assert_eq!(pen_virtual_to_input(m, (0, 0)), (0, 0));
    assert_eq!(pen_virtual_to_input(m, (768, 1024)), (11180, 15340));
    assert_eq!(pen_virtual_to_input(m, (384, 512)), (5590, 7670));
}

#[test]
fn pen_transform_older_generation_swaps_and_flips() {
    let m = DeviceModel::Remarkable2;
    // The x axis of the digitizer runs against the logical y axis.
    assert_eq!(pen_virtual_to_input(m, (0, 0)), (20966, 0));
    assert_eq!(pen_virtual_to_input(m, (768, 1024)), (0, 15725));
}

#[test]
fn unknown_variant_uses_older_constants() {
    assert_eq!(
        pen_virtual_to_input(DeviceModel::Unknown, (0, 0)),
        pen_virtual_to_input(DeviceModel::Remarkable2, (0, 0))
    );
}

#[test]
fn touch_transform_round_trip_is_within_one_unit() {
    for m in [
        DeviceModel::Remarkable2,
        DeviceModel::RemarkablePaperPro,
        DeviceModel::Unknown,
    ] {
        for x in [0, 1, 100, 383, 384, 700, 767, 768] {
            for y in [0, 1, 200, 512, 956, 1023, 1024] {
                let native = touch_virtual_to_input(m, (x, y));
                let (rx, ry) = touch_input_to_virtual(m, native);
                assert!((rx - x).abs() <= 1, "x {} came back as {}", x, rx);
                assert!((ry - y).abs() <= 1, "y {} came back as {}", y, ry);
            }
        }
    }
}

#[test]
fn touch_inverse_clamps_raw_positions() {
    let m = DeviceModel::RemarkablePaperPro;
    let (x, y) = touch_input_to_virtual(m, (-50, 99999));
    assert_eq!((x, y), (0, 1024));
}
