//! The event plans of the actuators: pen strokes, keyboard typing and
//! the progress retraction, touch gestures and page navigation.

use reader_buddy::events::{EventKind, PlanItem, RawEvent};
use reader_buddy::keyboard::Keyboard;
use reader_buddy::pages::PageManager;
use reader_buddy::pen::{isqrt, Pen};
use reader_buddy::touch::Touch;
use reader_buddy::{DeviceModel, TriggerCorner};

fn ev(kind: EventKind, code: u16, value: i32) -> PlanItem {
    PlanItem::Emit(RawEvent { kind, code, value })
}

#[test]
fn isqrt_rounds_down() {
    assert_eq!(isqrt(0), 0);
    assert_eq!(isqrt(1), 1);
    assert_eq!(isqrt(3), 1);
    assert_eq!(isqrt(4), 2);
    assert_eq!(isqrt(99), 9);
    assert_eq!(isqrt(100), 10);
}

#[test]
fn pen_down_emits_the_contact_protocol() {
    let mut pen = Pen::new(DeviceModel::Remarkable2);
    pen.pen_down();
    let plan = pen.take_plan();
    assert_eq!(
        plan,
        vec![
            ev(EventKind::Key, 320, 1),
            ev(EventKind::Key, 330, 1),
            ev(EventKind::Absolute, 24, 2630),
            ev(EventKind::Absolute, 25, 0),
            ev(EventKind::Sync, 0, 0),
        ]
    );
}

#[test]
fn pen_line_walks_interpolated_points_and_ends_lifted() {
    let mut pen = Pen::new(DeviceModel::RemarkablePaperPro);
    pen.draw_line((0, 0), (10, 0));
    let plan = pen.take_plan();
    // Lift (5), move to start (3), press (5), four interpolated
    // positions (12), lift (5).
    assert_eq!(plan.len(), 30);
    // The interpolation takes ceil steps of at most five units:
    // isqrt(100)/5 + 1 = 3 segments, positions 0, 3, 6, 10.
    assert_eq!(plan[13], ev(EventKind::Absolute, 0, 0));
    assert_eq!(plan[16], ev(EventKind::Absolute, 0, 3));
    assert_eq!(plan[19], ev(EventKind::Absolute, 0, 6));
    assert_eq!(plan[22], ev(EventKind::Absolute, 0, 10));
    // The final contact event releases the touch key.
    assert_eq!(plan[27], ev(EventKind::Key, 330, 0));
}

#[test]
fn eraser_rectangle_uses_the_rubber_tool() {
    let mut pen = Pen::new(DeviceModel::RemarkablePaperPro);
    pen.erase_rectangle((0, 0), (4, 0));
    let plan = pen.take_plan();
    assert!(plan.contains(&ev(EventKind::Key, 321, 1)));
    assert!(!plan.contains(&ev(EventKind::Key, 320, 1)));
}

#[test]
fn typing_wraps_shifted_keys_in_shift() {
    let mut kb = Keyboard::new(false);
    kb.string_to_keypresses("aA");
    let plan = kb.take_plan();
    assert_eq!(
        plan,
        vec![
            ev(EventKind::Sync, 0, 0),
            PlanItem::DelayMs(10),
            // 'a' is key 30 unshifted.
            ev(EventKind::Key, 30, 1),
            ev(EventKind::Key, 30, 0),
            ev(EventKind::Sync, 0, 0),
            PlanItem::DelayMs(10),
            // 'A' is key 30 wrapped in left shift.
            ev(EventKind::Key, 42, 1),
            ev(EventKind::Key, 30, 1),
            ev(EventKind::Key, 30, 0),
            ev(EventKind::Key, 42, 0),
            ev(EventKind::Sync, 0, 0),
            PlanItem::DelayMs(10),
        ]
    );
}

#[test]
fn unsupported_characters_are_skipped_not_fatal() {
    let mut kb = Keyboard::new(false);
    kb.string_to_keypresses("\u{e9}");
    let plan = kb.take_plan();
    assert_eq!(plan, vec![ev(EventKind::Sync, 0, 0), PlanItem::DelayMs(10)]);
}

#[test]
fn progress_retraction_is_exactly_as_long() {
    let mut kb = Keyboard::new(false);
    kb.progress("ab!");
    let typed = kb.take_plan();
    assert!(typed.len() > 0);
    kb.progress_end();
    let retracted = kb.take_plan();
    // Three backspaces, each typed as a full string: sync, delay,
    // then the backspace keystroke (press, release, sync, delay).
    let backspaces = retracted
        .iter()
        .filter(|item| **item == ev(EventKind::Key, 14, 1))
        .count();
    assert_eq!(backspaces, 3);
    // A second retraction does nothing: the counter was reset.
    kb.progress_end();
    assert_eq!(kb.take_plan(), Vec::<PlanItem>::new());
}

#[test]
fn suppressed_progress_types_nothing() {
    let mut kb = Keyboard::new(true);
    kb.progress("hello");
    kb.progress_end();
    assert_eq!(kb.take_plan(), Vec::<PlanItem>::new());
}

#[test]
fn tap_holds_and_releases() {
    let mut touch = Touch::new(DeviceModel::RemarkablePaperPro, TriggerCorner::LowerRight);
    touch.tap_at((384, 512));
    let plan = touch.take_plan();
    // Press block (10 items), hold, release block (4 items).
    assert_eq!(plan.len(), 15);
    assert_eq!(plan[10], PlanItem::DelayMs(100));
    assert_eq!(plan[12], ev(EventKind::Absolute, 57, -1));
}

#[test]
fn page_turns_swipe_fifteen_steps() {
    let mut touch = Touch::new(DeviceModel::Remarkable2, TriggerCorner::LowerRight);
    PageManager::next_page(&mut touch);
    let plan = touch.take_plan();
    // Press (10), hold (1), 15 steps of goto (5) and pause (1),
    // release (4), page-settle pause (1).
    assert_eq!(plan.len(), 10 + 1 + 15 * 6 + 4 + 1);
    assert_eq!(plan[plan.len() - 1], PlanItem::DelayMs(500));
}
