//! Corner hot zones, trigger watching, and corner-name parsing.

use reader_buddy::touch::{Touch, TriggerWatch, ABS_MT_POSITION_X, ABS_MT_POSITION_Y, ABS_MT_TRACKING_ID};
use reader_buddy::{DeviceModel, TriggerCorner};

fn touch(corner: TriggerCorner) -> Touch {
    Touch::new(DeviceModel::Remarkable2, corner)
}

#[test]
fn zone_boundaries_are_consistent_at_all_four_corners() {
    // Zones are 68 pixels square; right and bottom edges are strict
    // "beyond", left and top edges strict "before".
    let ur = touch(TriggerCorner::UpperRight);
    assert!(ur.is_in_trigger_zone(701, 67));
    assert!(!ur.is_in_trigger_zone(700, 67));
    assert!(!ur.is_in_trigger_zone(701, 68));

    let ul = touch(TriggerCorner::UpperLeft);
    assert!(ul.is_in_trigger_zone(67, 67));
    assert!(!ul.is_in_trigger_zone(68, 67));
    assert!(!ul.is_in_trigger_zone(67, 68));

    let lr = touch(TriggerCorner::LowerRight);
    assert!(lr.is_in_trigger_zone(701, 957));
    assert!(!lr.is_in_trigger_zone(700, 957));
    assert!(!lr.is_in_trigger_zone(701, 956));

    let ll = touch(TriggerCorner::LowerLeft);
    assert!(ll.is_in_trigger_zone(67, 957));
    assert!(!ll.is_in_trigger_zone(68, 957));
    assert!(!ll.is_in_trigger_zone(67, 956));
}

#[test]
fn workspace_center_never_triggers_for_any_corner() {
    for corner in [
        TriggerCorner::UpperRight,
        TriggerCorner::UpperLeft,
        TriggerCorner::LowerRight,
        TriggerCorner::LowerLeft,
    ] {
        let t = touch(corner);
        assert!(!t.is_in_trigger_zone(384, 512));
    }
}

#[test]
fn trigger_fires_only_on_in_zone_release() {
    // On the older variant, canonical lower-right maps from a native
    // position with large x and small y.
    let t = touch(TriggerCorner::LowerRight);
    let w = TriggerWatch::new();
    let (w, fired) = t.trigger_step(w, ABS_MT_POSITION_X, 1300);
    assert!(!fired);
    let (w, fired) = t.trigger_step(w, ABS_MT_POSITION_Y, 100);
    assert!(!fired);
    let (_, fired) = t.trigger_step(w, ABS_MT_TRACKING_ID, -1);
    assert!(fired);
}

#[test]
fn release_at_center_does_not_fire() {
    let t = touch(TriggerCorner::LowerRight);
    let w = TriggerWatch::new();
    let (w, _) = t.trigger_step(w, ABS_MT_POSITION_X, 702);
    let (w, _) = t.trigger_step(w, ABS_MT_POSITION_Y, 936);
    let (_, fired) = t.trigger_step(w, ABS_MT_TRACKING_ID, -1);
    assert!(!fired);
}

#[test]
fn corner_names_parse_case_insensitively() {
    assert_eq!(TriggerCorner::from_string("UR"), Ok(TriggerCorner::UpperRight));
    assert_eq!(TriggerCorner::from_string("upper-right"), Ok(TriggerCorner::UpperRight));
    assert_eq!(TriggerCorner::from_string("Ul"), Ok(TriggerCorner::UpperLeft));
    assert_eq!(TriggerCorner::from_string("lr"), Ok(TriggerCorner::LowerRight));
    assert_eq!(TriggerCorner::from_string("LOWER-LEFT"), Ok(TriggerCorner::LowerLeft));
    assert!(TriggerCorner::from_string("middle").is_err());
    assert!(TriggerCorner::from_string("").is_err());
}
