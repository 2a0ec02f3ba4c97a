//! The touch actuator: single-slot multi-touch lifecycles planned as
//! exact event sequences, the corner hot zones that arm the trigger,
//! and the state machine that watches raw touch events for a
//! qualifying release. The blocking read loop lives outside; every
//! decision about an event is made here.

use vstd::prelude::*;

use crate::device_model::DeviceModel;
use crate::events::{delay_ms, emit, sp_emit, EventKind, PlanItem};
use crate::geometry::{VIRTUAL_HEIGHT, VIRTUAL_WIDTH};
use crate::transform::{sp_touch_inverse, sp_touch_transform, touch_input_to_virtual, touch_virtual_to_input};

verus! {

/// Multi-touch protocol event codes.
pub const ABS_MT_SLOT: u16 = 47;

pub const ABS_MT_TOUCH_MAJOR: u16 = 48;

pub const ABS_MT_TOUCH_MINOR: u16 = 49;

pub const ABS_MT_ORIENTATION: u16 = 52;

pub const ABS_MT_POSITION_X: u16 = 53;

pub const ABS_MT_POSITION_Y: u16 = 54;

pub const ABS_MT_TRACKING_ID: u16 = 57;

pub const ABS_MT_PRESSURE: u16 = 58;

/// Side of the square corner hot zones, in canonical pixels.
pub const CORNER_SIZE: i32 = 68;

/// Which corner of the workspace arms the trigger.
#[derive(Debug, Clone, Copy, PartialEq, Eq, Structural)]
pub enum TriggerCorner {
    UpperRight,
    UpperLeft,
    LowerRight,
    LowerLeft,
}

/// A canonical point lies inside the configured corner hot zone.
pub open spec fn sp_in_zone(corner: TriggerCorner, x: int, y: int) -> bool {
    match corner {
        TriggerCorner::UpperRight => x > VIRTUAL_WIDTH as int - CORNER_SIZE as int && y
            < CORNER_SIZE as int,
        TriggerCorner::UpperLeft => x < CORNER_SIZE as int && y < CORNER_SIZE as int,
        TriggerCorner::LowerRight => x > VIRTUAL_WIDTH as int - CORNER_SIZE as int && y
            > VIRTUAL_HEIGHT as int - CORNER_SIZE as int,
        TriggerCorner::LowerLeft => x < CORNER_SIZE as int && y > VIRTUAL_HEIGHT as int
            - CORNER_SIZE as int,
    }
}

/// A release at the workspace center never arms the trigger, whichever
/// corner is configured.
pub proof fn lemma_center_never_triggers(corner: TriggerCorner)
    ensures
        !sp_in_zone(corner, VIRTUAL_WIDTH as int / 2, VIRTUAL_HEIGHT as int / 2),
{
}

/// The numeric value a character folds to when ASCII letters are
/// compared case-insensitively.
pub open spec fn sp_fold_char(c: char) -> int {
    if 'A' <= c && c <= 'Z' {
        c as int + 32
    } else {
        c as int
    }
}

/// Two strings are equal up to ASCII case.
pub open spec fn sp_eq_fold(a: Seq<char>, b: Seq<char>) -> bool {
    a.len() == b.len() && forall|i: int|
        0 <= i < a.len() ==> sp_fold_char(#[trigger] a[i]) == sp_fold_char(b[i])
}

/// Compare two strings ignoring ASCII case.
pub fn eq_ignore_ascii_case(a: &str, b: &str) -> (r: bool)
    ensures
        r == sp_eq_fold(a@, b@),
{
    let n = a.unicode_len();
    if n != b.unicode_len() {
        return false;
    }
    let mut i: usize = 0;
    while i < n
        invariant
            i <= n,
            n == a@.len() && n == b@.len(),
            forall|k: int| 0 <= k < i ==> sp_fold_char(#[trigger] a@[k]) == sp_fold_char(b@[k]),
        decreases n - i,
    {
        let ca = a.get_char(i);
        let cb = b.get_char(i);
        let fa: u32 = if ca >= 'A' && ca <= 'Z' {
            ca as u32 + 32
        } else {
            ca as u32
        };
        let fb: u32 = if cb >= 'A' && cb <= 'Z' {
            cb as u32 + 32
        } else {
            cb as u32
        };
        if fa != fb {
            return false;
        }
        i += 1;
    }
    true
}

impl TriggerCorner {
    /// Read a corner from its short or long name, ignoring ASCII case.
    /// Anything else is rejected with a message naming the accepted
    /// forms.
    pub fn from_string(s: &str) -> (r: Result<TriggerCorner, String>)
        ensures
            match r {
                Ok(c) => (c == TriggerCorner::UpperRight <==> (sp_eq_fold(s@, "ur"@) || sp_eq_fold(
                    s@,
                    "upper-right"@,
                ))) && (c == TriggerCorner::UpperLeft <==> (sp_eq_fold(s@, "ul"@) || sp_eq_fold(
                    s@,
                    "upper-left"@,
                ))) && (c == TriggerCorner::LowerRight <==> (sp_eq_fold(s@, "lr"@) || sp_eq_fold(
                    s@,
                    "lower-right"@,
                ))) && (c == TriggerCorner::LowerLeft <==> (sp_eq_fold(s@, "ll"@) || sp_eq_fold(
                    s@,
                    "lower-left"@,
                ))),
                Err(_) => !sp_eq_fold(s@, "ur"@) && !sp_eq_fold(s@, "upper-right"@) && !sp_eq_fold(
                    s@,
                    "ul"@,
                ) && !sp_eq_fold(s@, "upper-left"@) && !sp_eq_fold(s@, "lr"@) && !sp_eq_fold(
                    s@,
                    "lower-right"@,
                ) && !sp_eq_fold(s@, "ll"@) && !sp_eq_fold(s@, "lower-left"@),
            },
    {
        if eq_ignore_ascii_case(s, "ur") || eq_ignore_ascii_case(s, "upper-right") {
            proof {
                lemma_corner_names_distinct(s@);
            }
            Ok(TriggerCorner::UpperRight)
        } else if eq_ignore_ascii_case(s, "ul") || eq_ignore_ascii_case(s, "upper-left") {
            proof {
                lemma_corner_names_distinct(s@);
            }
            Ok(TriggerCorner::UpperLeft)
        } else if eq_ignore_ascii_case(s, "lr") || eq_ignore_ascii_case(s, "lower-right") {
            proof {
                lemma_corner_names_distinct(s@);
            }
            Ok(TriggerCorner::LowerRight)
        } else if eq_ignore_ascii_case(s, "ll") || eq_ignore_ascii_case(s, "lower-left") {
            proof {
                lemma_corner_names_distinct(s@);
            }
            Ok(TriggerCorner::LowerLeft)
        } else {
            let mut msg = String::from_str("invalid trigger corner: ");
            msg.append(s);
            msg.append(
                "; use UR, UL, LR, LL, upper-right, upper-left, lower-right, or lower-left",
            );
            Err(msg)
        }
    }
}

/// No string names two different corners.
proof fn lemma_corner_names_distinct(s: Seq<char>)
    ensures
        sp_eq_fold(s, "ur"@) || sp_eq_fold(s, "upper-right"@) ==> !(sp_eq_fold(s, "ul"@)
            || sp_eq_fold(s, "upper-left"@) || sp_eq_fold(s, "lr"@) || sp_eq_fold(
            s,
            "lower-right"@,
        ) || sp_eq_fold(s, "ll"@) || sp_eq_fold(s, "lower-left"@)),
        sp_eq_fold(s, "ul"@) || sp_eq_fold(s, "upper-left"@) ==> !(sp_eq_fold(s, "lr"@)
            || sp_eq_fold(s, "lower-right"@) || sp_eq_fold(s, "ll"@) || sp_eq_fold(
            s,
            "lower-left"@,
        )),
        sp_eq_fold(s, "lr"@) || sp_eq_fold(s, "lower-right"@) ==> !(sp_eq_fold(s, "ll"@)
            || sp_eq_fold(s, "lower-left"@)),
{
    reveal_strlit("ur");
    reveal_strlit("ul");
    reveal_strlit("lr");
    reveal_strlit("ll");
    reveal_strlit("upper-right");
    reveal_strlit("upper-left");
    reveal_strlit("lower-right");
    reveal_strlit("lower-left");
    lemma_fold_conflict(s, "ur"@, "ul"@, 1);
    lemma_fold_conflict(s, "ur"@, "lr"@, 0);
    lemma_fold_conflict(s, "ur"@, "ll"@, 0);
    lemma_fold_conflict(s, "ul"@, "lr"@, 0);
    lemma_fold_conflict(s, "ul"@, "ll"@, 0);
    lemma_fold_conflict(s, "lr"@, "ll"@, 1);
    lemma_fold_conflict(s, "upper-right"@, "lower-right"@, 0);
    lemma_fold_conflict(s, "upper-left"@, "lower-left"@, 0);
}

/// A string cannot fold-match two names that differ at a position.
proof fn lemma_fold_conflict(s: Seq<char>, a: Seq<char>, b: Seq<char>, i: int)
    requires
        0 <= i < a.len(),
        i < b.len(),
        sp_fold_char(a[i]) != sp_fold_char(b[i]),
    ensures
        !(sp_eq_fold(s, a) && sp_eq_fold(s, b)),
{
    if sp_eq_fold(s, a) && sp_eq_fold(s, b) {
        assert(sp_fold_char(s[i]) == sp_fold_char(a[i]));
        assert(sp_fold_char(s[i]) == sp_fold_char(b[i]));
    }
}

/// A single-slot touch press at a canonical point: slot select,
/// tracking id assign, position, pressure and size hints, orientation,
/// sync, then a short settle pause.
pub open spec fn sp_touch_start_events(model: DeviceModel, x: int, y: int) -> Seq<PlanItem> {
    let p = sp_touch_transform(model, x, y);
    seq![
        sp_emit(EventKind::Absolute, ABS_MT_SLOT, 0),
        sp_emit(EventKind::Absolute, ABS_MT_TRACKING_ID, 1),
        sp_emit(EventKind::Absolute, ABS_MT_POSITION_X, p.0 as i32),
        sp_emit(EventKind::Absolute, ABS_MT_POSITION_Y, p.1 as i32),
        sp_emit(EventKind::Absolute, ABS_MT_PRESSURE, 100),
        sp_emit(EventKind::Absolute, ABS_MT_TOUCH_MAJOR, 17),
        sp_emit(EventKind::Absolute, ABS_MT_TOUCH_MINOR, 17),
        sp_emit(EventKind::Absolute, ABS_MT_ORIENTATION, 4),
        sp_emit(EventKind::Sync, 0, 0),
        PlanItem::DelayMs(1),
    ]
}

/// Release the contact: slot select, tracking id release, sync, pause.
pub open spec fn sp_touch_stop_events() -> Seq<PlanItem> {
    seq![
        sp_emit(EventKind::Absolute, ABS_MT_SLOT, 0),
        sp_emit(EventKind::Absolute, ABS_MT_TRACKING_ID, -1i32),
        sp_emit(EventKind::Sync, 0, 0),
        PlanItem::DelayMs(1),
    ]
}

/// Move the held contact to a canonical point.
pub open spec fn sp_touch_goto_events(model: DeviceModel, x: int, y: int) -> Seq<PlanItem> {
    let p = sp_touch_transform(model, x, y);
    seq![
        sp_emit(EventKind::Absolute, ABS_MT_SLOT, 0),
        sp_emit(EventKind::Absolute, ABS_MT_TRACKING_ID, 1),
        sp_emit(EventKind::Absolute, ABS_MT_POSITION_X, p.0 as i32),
        sp_emit(EventKind::Absolute, ABS_MT_POSITION_Y, p.1 as i32),
        sp_emit(EventKind::Sync, 0, 0),
    ]
}

/// A tap at a canonical point: press, short hold, release.
pub open spec fn sp_tap_events(model: DeviceModel, x: int, y: int) -> Seq<PlanItem> {
    sp_touch_start_events(model, x, y) + seq![PlanItem::DelayMs(100)] + sp_touch_stop_events()
}

/// The touch actuator: owns the device model, the configured trigger
/// corner and a pending event plan.
pub struct Touch {
    pub model: DeviceModel,
    pub trigger_corner: TriggerCorner,
    pub plan: Vec<PlanItem>,
}

impl Touch {
    /// A touch planner with an empty plan.
    pub fn new(model: DeviceModel, trigger_corner: TriggerCorner) -> (r: Touch)
        ensures
            r.model == model,
            r.trigger_corner == trigger_corner,
            r.plan@ == Seq::<PlanItem>::empty(),
    {
        Touch { model, trigger_corner, plan: Vec::new() }
    }

    /// Hand the pending plan to the device shim and start a new one.
    pub fn take_plan(&mut self) -> (r: Vec<PlanItem>)
        ensures
            r@ == old(self).plan@,
            final(self).plan@ == Seq::<PlanItem>::empty(),
            final(self).model == old(self).model,
            final(self).trigger_corner == old(self).trigger_corner,
    {
        let mut out: Vec<PlanItem> = Vec::new();
        core::mem::swap(&mut out, &mut self.plan);
        out
    }

    /// Begin a single-slot contact at a canonical point.
    pub fn touch_start(&mut self, xy: (i32, i32))
        requires
            0 <= xy.0 <= VIRTUAL_WIDTH as int,
            0 <= xy.1 <= VIRTUAL_HEIGHT as int,
        ensures
            final(self).plan@ == old(self).plan@ + sp_touch_start_events(
                old(self).model,
                xy.0 as int,
                xy.1 as int,
            ),
            final(self).model == old(self).model,
            final(self).trigger_corner == old(self).trigger_corner,
    {
        let (x, y) = touch_virtual_to_input(self.model, xy);
        self.plan.push(emit(EventKind::Absolute, ABS_MT_SLOT, 0));
        self.plan.push(emit(EventKind::Absolute, ABS_MT_TRACKING_ID, 1));
        self.plan.push(emit(EventKind::Absolute, ABS_MT_POSITION_X, x));
        self.plan.push(emit(EventKind::Absolute, ABS_MT_POSITION_Y, y));
        self.plan.push(emit(EventKind::Absolute, ABS_MT_PRESSURE, 100));
        self.plan.push(emit(EventKind::Absolute, ABS_MT_TOUCH_MAJOR, 17));
        self.plan.push(emit(EventKind::Absolute, ABS_MT_TOUCH_MINOR, 17));
        self.plan.push(emit(EventKind::Absolute, ABS_MT_ORIENTATION, 4));
        self.plan.push(emit(EventKind::Sync, 0, 0));
        self.plan.push(delay_ms(1));
        proof {
            assert(self.plan@ =~= old(self).plan@ + sp_touch_start_events(
                old(self).model,
                xy.0 as int,
                xy.1 as int,
            ));
        }
    }

    /// Release the contact.
    pub fn touch_stop(&mut self)
        ensures
            final(self).plan@ == old(self).plan@ + sp_touch_stop_events(),
            final(self).model == old(self).model,
            final(self).trigger_corner == old(self).trigger_corner,
    {
        self.plan.push(emit(EventKind::Absolute, ABS_MT_SLOT, 0));
        self.plan.push(emit(EventKind::Absolute, ABS_MT_TRACKING_ID, -1));
        self.plan.push(emit(EventKind::Sync, 0, 0));
        self.plan.push(delay_ms(1));
        proof {
            assert(self.plan@ =~= old(self).plan@ + sp_touch_stop_events());
        }
    }

    /// Move the held contact to a canonical point.
    pub fn goto_xy(&mut self, xy: (i32, i32))
        requires
            0 <= xy.0 <= VIRTUAL_WIDTH as int,
            0 <= xy.1 <= VIRTUAL_HEIGHT as int,
        ensures
            final(self).plan@ == old(self).plan@ + sp_touch_goto_events(
                old(self).model,
                xy.0 as int,
                xy.1 as int,
            ),
            final(self).model == old(self).model,
            final(self).trigger_corner == old(self).trigger_corner,
    {
        let (x, y) = touch_virtual_to_input(self.model, xy);
        self.plan.push(emit(EventKind::Absolute, ABS_MT_SLOT, 0));
        self.plan.push(emit(EventKind::Absolute, ABS_MT_TRACKING_ID, 1));
        self.plan.push(emit(EventKind::Absolute, ABS_MT_POSITION_X, x));
        self.plan.push(emit(EventKind::Absolute, ABS_MT_POSITION_Y, y));
        self.plan.push(emit(EventKind::Sync, 0, 0));
        proof {
            assert(self.plan@ =~= old(self).plan@ + sp_touch_goto_events(
                old(self).model,
                xy.0 as int,
                xy.1 as int,
            ));
        }
    }

    /// A tap at a canonical point: press, short hold, release.
    pub fn tap_at(&mut self, xy: (i32, i32))
        requires
            0 <= xy.0 <= VIRTUAL_WIDTH as int,
            0 <= xy.1 <= VIRTUAL_HEIGHT as int,
        ensures
            final(self).plan@ == old(self).plan@ + sp_tap_events(
                old(self).model,
                xy.0 as int,
                xy.1 as int,
            ),
            final(self).model == old(self).model,
            final(self).trigger_corner == old(self).trigger_corner,
    {
        let ghost base = self.plan@;
        self.touch_start(xy);
        self.plan.push(delay_ms(100));
        self.touch_stop();
        proof {
            assert(self.plan@ =~= base + sp_tap_events(old(self).model, xy.0 as int, xy.1 as int));
        }
    }

    /// The tap that dismisses the trigger mark, at the middle of the
    /// bottom edge.
    pub fn tap_middle_bottom(&mut self)
        ensures
            final(self).plan@ == old(self).plan@ + sp_tap_events(old(self).model, 384, 1023),
            final(self).model == old(self).model,
            final(self).trigger_corner == old(self).trigger_corner,
    {
        self.tap_at((384, 1023));
    }

    /// Whether a canonical point lies in the configured corner zone.
    pub fn is_in_trigger_zone(&self, x: i32, y: i32) -> (r: bool)
        ensures
            r == sp_in_zone(self.trigger_corner, x as int, y as int),
    {
        match self.trigger_corner {
            TriggerCorner::UpperRight => x > VIRTUAL_WIDTH - CORNER_SIZE && y < CORNER_SIZE,
            TriggerCorner::UpperLeft => x < CORNER_SIZE && y < CORNER_SIZE,
            TriggerCorner::LowerRight => x > VIRTUAL_WIDTH - CORNER_SIZE && y > VIRTUAL_HEIGHT
                - CORNER_SIZE,
            TriggerCorner::LowerLeft => x < CORNER_SIZE && y > VIRTUAL_HEIGHT - CORNER_SIZE,
        }
    }

    /// Feed one raw touch event into the trigger watch. Position
    /// updates are remembered per axis; a tracking-id release decides:
    /// the trigger fires exactly when the released position, mapped to
    /// canonical coordinates, lies in the configured corner zone.
    pub fn trigger_step(&self, st: TriggerWatch, code: u16, value: i32) -> (r: (TriggerWatch, bool))
        ensures
            r.0.pos_x == (if code == ABS_MT_POSITION_X {
                value as int
            } else {
                st.pos_x as int
            }),
            r.0.pos_y == (if code == ABS_MT_POSITION_Y {
                value as int
            } else {
                st.pos_y as int
            }),
            r.1 == (code == ABS_MT_TRACKING_ID && value == -1 && {
                let p = sp_touch_inverse(self.model, r.0.pos_x as int, r.0.pos_y as int);
                sp_in_zone(self.trigger_corner, p.0, p.1)
            }),
    {
        let mut next = st;
        if code == ABS_MT_POSITION_X {
            next.pos_x = value;
        }
        if code == ABS_MT_POSITION_Y {
            next.pos_y = value;
        }
        if code == ABS_MT_TRACKING_ID && value == -1 {
            let (x, y) = touch_input_to_virtual(self.model, (next.pos_x, next.pos_y));
            let fired = self.is_in_trigger_zone(x, y);
            (next, fired)
        } else {
            (next, false)
        }
    }
}

/// The last seen position per axis while watching for the trigger.
#[derive(Debug, Clone, Copy, PartialEq, Eq, Structural)]
pub struct TriggerWatch {
    pub pos_x: i32,
    pub pos_y: i32,
}

impl TriggerWatch {
    /// Watching starts at the origin, as if nothing was touched yet.
    pub fn new() -> (r: TriggerWatch)
        ensures
            r.pos_x == 0 && r.pos_y == 0,
    {
        TriggerWatch { pos_x: 0, pos_y: 0 }
    }
}

} // verus!
