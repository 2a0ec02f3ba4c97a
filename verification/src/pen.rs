//! The stylus actuator: every drawing primitive is planned as an exact
//! sequence of digitizer events, and every primitive ends with the pen
//! lifted. Lines are interpolated at a bounded step so the panel never
//! has to extrapolate across a long jump; erasing is the same
//! decomposition with the eraser tool held instead of the pen.

use vstd::prelude::*;

use crate::device_model::DeviceModel;
use crate::events::{
    delay_ms, emit, sp_emit, sp_last_key, lemma_last_key_concat, EventKind, PlanItem,
};
use crate::geometry::{VIRTUAL_HEIGHT, VIRTUAL_WIDTH};
use crate::transform::{pen_virtual_to_input, sp_pen_transform};

verus! {

/// Button code reporting the pen tool.
pub const BTN_TOOL_PEN: u16 = 320;

/// Button code reporting the eraser tool.
pub const BTN_TOOL_RUBBER: u16 = 321;

/// Button code reporting surface contact.
pub const BTN_TOUCH: u16 = 330;

/// Absolute axis codes of the digitizer.
pub const ABS_X: u16 = 0;

pub const ABS_Y: u16 = 1;

pub const ABS_PRESSURE: u16 = 24;

pub const ABS_DISTANCE: u16 = 25;

/// Full contact pressure.
pub const PEN_PRESSURE: i32 = 2630;

/// Hover distance reported while lifted.
pub const HOVER_DISTANCE: i32 = 100;

/// Native coordinates stay below this on every variant; arithmetic in
/// the interpolation is bounded by it.
pub const MAX_NATIVE: i32 = 30000;

/// Press down: tool on, contact on, full pressure, zero hover, sync.
pub open spec fn sp_tool_down_events(tool: u16) -> Seq<PlanItem> {
    seq![
        sp_emit(EventKind::Key, tool, 1),
        sp_emit(EventKind::Key, BTN_TOUCH, 1),
        sp_emit(EventKind::Absolute, ABS_PRESSURE, PEN_PRESSURE),
        sp_emit(EventKind::Absolute, ABS_DISTANCE, 0),
        sp_emit(EventKind::Sync, 0, 0),
    ]
}

/// Lift: zero pressure, hover distance, contact off, tool off, sync.
pub open spec fn sp_tool_up_events(tool: u16) -> Seq<PlanItem> {
    seq![
        sp_emit(EventKind::Absolute, ABS_PRESSURE, 0),
        sp_emit(EventKind::Absolute, ABS_DISTANCE, HOVER_DISTANCE),
        sp_emit(EventKind::Key, BTN_TOUCH, 0),
        sp_emit(EventKind::Key, tool, 0),
        sp_emit(EventKind::Sync, 0, 0),
    ]
}

/// An absolute position update with sync, no contact change.
pub open spec fn sp_goto_events(x: int, y: int) -> Seq<PlanItem> {
    seq![
        sp_emit(EventKind::Absolute, ABS_X, x as i32),
        sp_emit(EventKind::Absolute, ABS_Y, y as i32),
        sp_emit(EventKind::Sync, 0, 0),
    ]
}

/// The non-negative square root, rounded down.
pub open spec fn sp_isqrt(n: int) -> int {
    choose|r: int| 0 <= r && #[trigger] (r * r) <= n < (r + 1) * (r + 1)
}

/// Integer square root.
#[verifier::loop_isolation(false)]
pub fn isqrt(n: u64) -> (r: u64)
    requires
        n <= 0x7fff_ffff_ffff,
    ensures
        r * r <= n < (r + 1) * (r + 1),
        r as int == sp_isqrt(n as int),
{
    let mut r: u64 = 0;
    while (r + 1) * (r + 1) <= n
        invariant
            r * r <= n,
            r <= 0x0fff_ffff,
            (r + 1) * (r + 1) <= 0x1000_0000_0000_0000,
        decreases n - r * r,
    {
        proof {
            assert((r + 1) * (r + 1) > r * r) by (nonlinear_arith)
                requires
                    r >= 0,
            ;
            assert(r + 1 <= 0x0fff_ffff) by (nonlinear_arith)
                requires
                    (r + 1) * (r + 1) <= 0x7fff_ffff_ffff,
                    r >= 0,
            ;
            assert((r + 2) * (r + 2) <= 0x1000_0000_0000_0000) by (nonlinear_arith)
                requires
                    0 <= r + 1 <= 0x0fff_ffff,
            ;
        }
        r = r + 1;
    }
    proof {
        let w = r as int;
        assert(0 <= w && w * w <= n as int && (n as int) < (w + 1) * (w + 1));
        let c = sp_isqrt(n as int);
        assert(0 <= c && c * c <= n as int && (n as int) < (c + 1) * (c + 1));
        assert(c == w) by (nonlinear_arith)
            requires
                0 <= w,
                0 <= c,
                w * w <= n as int,
                (n as int) < (w + 1) * (w + 1),
                c * c <= n as int,
                (n as int) < (c + 1) * (c + 1),
        ;
    }
    r
}

/// How many interpolation segments a stroke from `p1` to `p2` gets:
/// enough that no segment is longer than five native units.
pub open spec fn sp_line_steps(p1: (int, int), p2: (int, int)) -> int {
    let adx = if p2.0 >= p1.0 {
        p2.0 - p1.0
    } else {
        p1.0 - p2.0
    };
    let ady = if p2.1 >= p1.1 {
        p2.1 - p1.1
    } else {
        p1.1 - p2.1
    };
    sp_isqrt(adx * adx + ady * ady) / 5 + 1
}

/// The `i`-th interpolated coordinate between `a` and `b` in `s`
/// segments, rounded toward `a`.
pub open spec fn sp_axis_point(a: int, b: int, s: int, i: int) -> int {
    if b >= a {
        a + (b - a) * i / s
    } else {
        a - (a - b) * i / s
    }
}

/// The `i`-th interpolated point of a stroke.
pub open spec fn sp_line_point(p1: (int, int), p2: (int, int), s: int, i: int) -> (int, int) {
    (sp_axis_point(p1.0, p2.0, s, i), sp_axis_point(p1.1, p2.1, s, i))
}

/// The position updates of the first `i` interpolated points.
pub open spec fn sp_line_gotos(p1: (int, int), p2: (int, int), s: int, i: int) -> Seq<PlanItem>
    decreases i,
{
    if i <= 0 {
        Seq::empty()
    } else {
        sp_line_gotos(p1, p2, s, i - 1) + {
            let p = sp_line_point(p1, p2, s, i - 1);
            sp_goto_events(p.0, p.1)
        }
    }
}

/// The whole event plan of one stroke with the given tool: lift, move
/// to the start, press, walk the interpolated points (ending exactly
/// at `p2`), lift.
pub open spec fn sp_stroke_plan(tool: u16, p1: (int, int), p2: (int, int)) -> Seq<PlanItem> {
    let s = sp_line_steps(p1, p2);
    sp_tool_up_events(tool) + sp_goto_events(p1.0, p1.1) + sp_tool_down_events(tool)
        + sp_line_gotos(p1, p2, s, s + 1) + sp_tool_up_events(tool)
}

/// A stroke ends with the pen lifted.
pub proof fn lemma_stroke_ends_lifted(tool: u16, p1: (int, int), p2: (int, int))
    requires
        tool != BTN_TOUCH,
    ensures
        sp_last_key(sp_stroke_plan(tool, p1, p2), BTN_TOUCH) == Some(0i32),
{
    let s = sp_line_steps(p1, p2);
    let head = sp_tool_up_events(tool) + sp_goto_events(p1.0, p1.1) + sp_tool_down_events(tool)
        + sp_line_gotos(p1, p2, s, s + 1);
    lemma_last_key_concat(head, sp_tool_up_events(tool), BTN_TOUCH);
    lemma_tool_up_ends_lifted(tool);
}

/// Lifting the tool always leaves the contact key released.
pub proof fn lemma_tool_up_ends_lifted(tool: u16)
    requires
        tool != BTN_TOUCH,
    ensures
        sp_last_key(sp_tool_up_events(tool), BTN_TOUCH) == Some(0i32),
{
    let up = sp_tool_up_events(tool);
    assert(up.last() == sp_emit(EventKind::Sync, 0, 0));
    assert(sp_last_key(up, BTN_TOUCH) == sp_last_key(up.drop_last(), BTN_TOUCH));
    assert(up.drop_last().last() == sp_emit(EventKind::Key, tool, 0));
    assert(sp_last_key(up.drop_last(), BTN_TOUCH) == sp_last_key(
        up.drop_last().drop_last(),
        BTN_TOUCH,
    ));
    assert(up.drop_last().drop_last().last() == sp_emit(EventKind::Key, BTN_TOUCH, 0));
}

/// The stylus actuator: owns the device model and a pending event
/// plan. The unverified device shim drains the plan and writes it out.
pub struct Pen {
    pub model: DeviceModel,
    pub plan: Vec<PlanItem>,
}

impl Pen {
    /// A pen planner with an empty plan.
    pub fn new(model: DeviceModel) -> (r: Pen)
        ensures
            r.model == model,
            r.plan@ == Seq::<PlanItem>::empty(),
    {
        Pen { model, plan: Vec::new() }
    }

    /// Largest stylus X coordinate the digitizer accepts.
    pub fn max_x_value(&self) -> (r: i32)
        ensures
            r == self.model.spec_pen_max_x(),
    {
        self.model.pen_max_x()
    }

    /// Largest stylus Y coordinate the digitizer accepts.
    pub fn max_y_value(&self) -> (r: i32)
        ensures
            r == self.model.spec_pen_max_y(),
    {
        self.model.pen_max_y()
    }

    /// Hand the pending plan to the device shim and start a new one.
    pub fn take_plan(&mut self) -> (r: Vec<PlanItem>)
        ensures
            r@ == old(self).plan@,
            final(self).plan@ == Seq::<PlanItem>::empty(),
            final(self).model == old(self).model,
    {
        let mut out: Vec<PlanItem> = Vec::new();
        core::mem::swap(&mut out, &mut self.plan);
        out
    }

    /// Press the pen down at the current position.
    pub fn pen_down(&mut self)
        ensures
            final(self).plan@ == old(self).plan@ + sp_tool_down_events(BTN_TOOL_PEN),
            final(self).model == old(self).model,
    {
        self.tool_down(BTN_TOOL_PEN);
    }

    /// Lift the pen.
    pub fn pen_up(&mut self)
        ensures
            final(self).plan@ == old(self).plan@ + sp_tool_up_events(BTN_TOOL_PEN),
            final(self).model == old(self).model,
    {
        self.tool_up(BTN_TOOL_PEN);
    }

    fn tool_down(&mut self, tool: u16)
        ensures
            final(self).plan@ == old(self).plan@ + sp_tool_down_events(tool),
            final(self).model == old(self).model,
    {
        self.plan.push(emit(EventKind::Key, tool, 1));
        self.plan.push(emit(EventKind::Key, BTN_TOUCH, 1));
        self.plan.push(emit(EventKind::Absolute, ABS_PRESSURE, PEN_PRESSURE));
        self.plan.push(emit(EventKind::Absolute, ABS_DISTANCE, 0));
        self.plan.push(emit(EventKind::Sync, 0, 0));
        proof {
            assert(self.plan@ =~= old(self).plan@ + sp_tool_down_events(tool));
        }
    }

    fn tool_up(&mut self, tool: u16)
        ensures
            final(self).plan@ == old(self).plan@ + sp_tool_up_events(tool),
            final(self).model == old(self).model,
    {
        self.plan.push(emit(EventKind::Absolute, ABS_PRESSURE, 0));
        self.plan.push(emit(EventKind::Absolute, ABS_DISTANCE, HOVER_DISTANCE));
        self.plan.push(emit(EventKind::Key, BTN_TOUCH, 0));
        self.plan.push(emit(EventKind::Key, tool, 0));
        self.plan.push(emit(EventKind::Sync, 0, 0));
        proof {
            assert(self.plan@ =~= old(self).plan@ + sp_tool_up_events(tool));
        }
    }

    /// Absolute position update in native coordinates.
    pub fn goto_xy(&mut self, point: (i32, i32))
        ensures
            final(self).plan@ == old(self).plan@ + sp_goto_events(
                point.0 as int,
                point.1 as int,
            ),
            final(self).model == old(self).model,
    {
        self.plan.push(emit(EventKind::Absolute, ABS_X, point.0));
        self.plan.push(emit(EventKind::Absolute, ABS_Y, point.1));
        self.plan.push(emit(EventKind::Sync, 0, 0));
        proof {
            assert(self.plan@ =~= old(self).plan@ + sp_goto_events(
                point.0 as int,
                point.1 as int,
            ));
        }
    }

    /// Absolute position update in canonical coordinates.
    pub fn goto_xy_virtual(&mut self, point: (i32, i32))
        requires
            0 <= point.0 <= VIRTUAL_WIDTH as int,
            0 <= point.1 <= VIRTUAL_HEIGHT as int,
        ensures
            final(self).plan@ == old(self).plan@ + ({
                let p = sp_pen_transform(old(self).model, point.0 as int, point.1 as int);
                sp_goto_events(p.0, p.1)
            }),
            final(self).model == old(self).model,
    {
        let native = pen_virtual_to_input(self.model, point);
        self.goto_xy(native);
    }

    /// One stroke in native coordinates: lift, move, press, walk the
    /// interpolated points (no segment longer than five native units
    /// per axis), lift.
    #[verifier::loop_isolation(false)]
    pub fn draw_line(&mut self, p1: (i32, i32), p2: (i32, i32))
        requires
            0 <= p1.0 <= MAX_NATIVE as int,
            0 <= p1.1 <= MAX_NATIVE as int,
            0 <= p2.0 <= MAX_NATIVE as int,
            0 <= p2.1 <= MAX_NATIVE as int,
        ensures
            final(self).plan@ == old(self).plan@ + sp_stroke_plan(
                BTN_TOOL_PEN,
                (p1.0 as int, p1.1 as int),
                (p2.0 as int, p2.1 as int),
            ),
            final(self).model == old(self).model,
    {
        self.stroke(BTN_TOOL_PEN, p1, p2);
    }

    /// One eraser stroke: the same decomposition with the eraser tool.
    pub fn erase_line(&mut self, p1: (i32, i32), p2: (i32, i32))
        requires
            0 <= p1.0 <= MAX_NATIVE as int,
            0 <= p1.1 <= MAX_NATIVE as int,
            0 <= p2.0 <= MAX_NATIVE as int,
            0 <= p2.1 <= MAX_NATIVE as int,
        ensures
            final(self).plan@ == old(self).plan@ + sp_stroke_plan(
                BTN_TOOL_RUBBER,
                (p1.0 as int, p1.1 as int),
                (p2.0 as int, p2.1 as int),
            ),
            final(self).model == old(self).model,
    {
        self.stroke(BTN_TOOL_RUBBER, p1, p2);
    }

    #[verifier::loop_isolation(false)]
    fn stroke(&mut self, tool: u16, p1: (i32, i32), p2: (i32, i32))
        requires
            0 <= p1.0 <= MAX_NATIVE as int,
            0 <= p1.1 <= MAX_NATIVE as int,
            0 <= p2.0 <= MAX_NATIVE as int,
            0 <= p2.1 <= MAX_NATIVE as int,
        ensures
            final(self).plan@ == old(self).plan@ + sp_stroke_plan(
                tool,
                (p1.0 as int, p1.1 as int),
                (p2.0 as int, p2.1 as int),
            ),
            final(self).model == old(self).model,
    {
        let ghost gp1 = (p1.0 as int, p1.1 as int);
        let ghost gp2 = (p2.0 as int, p2.1 as int);
        let ghost base = self.plan@;
        let (x1, y1) = p1;
        let (x2, y2) = p2;
        self.tool_up(tool);
        self.goto_xy(p1);
        self.tool_down(tool);
        let ghost head = base + sp_tool_up_events(tool) + sp_goto_events(gp1.0, gp1.1)
            + sp_tool_down_events(tool);
        proof {
            assert(self.plan@ =~= head);
        }
        let adx: u64 = if x2 >= x1 {
            (x2 - x1) as u64
        } else {
            (x1 - x2) as u64
        };
        let ady: u64 = if y2 >= y1 {
            (y2 - y1) as u64
        } else {
            (y1 - y2) as u64
        };
        proof {
            assert(adx * adx + ady * ady <= 30000 * 30000 + 30000 * 30000) by (nonlinear_arith)
                requires
                    0 <= adx <= 30000,
                    0 <= ady <= 30000,
            ;
        }
        let n = adx * adx + ady * ady;
        let r = isqrt(n);
        let s = r / 5 + 1;
        proof {
            assert(s as int == sp_line_steps(gp1, gp2));
            assert(r <= 42427) by (nonlinear_arith)
                requires
                    r * r <= n <= 1_800_000_000,
                    r >= 0,
            ;
        }
        let mut i: u64 = 0;
        while i <= s
            invariant
                i <= s + 1,
                1 <= s <= 8486,
                adx <= 30000,
                ady <= 30000,
                self.plan@ == head + sp_line_gotos(gp1, gp2, s as int, i as int),
                self.model == old(self).model,
            decreases s + 1 - i,
        {
            proof {
                lemma_step_fraction(adx as int, i as int, s as int);
                lemma_step_fraction(ady as int, i as int, s as int);
                assert(adx * i <= 30000 * 8486 && ady * i <= 30000 * 8486) by (nonlinear_arith)
                    requires
                        0 <= adx <= 30000,
                        0 <= ady <= 30000,
                        0 <= i <= 8486,
                ;
            }
            let dx = (adx * i / s) as i32;
            let dy = (ady * i / s) as i32;
            let px = if x2 >= x1 {
                x1 + dx
            } else {
                x1 - dx
            };
            let py = if y2 >= y1 {
                y1 + dy
            } else {
                y1 - dy
            };
            self.goto_xy((px, py));
            proof {
                assert((px as int, py as int) == sp_line_point(gp1, gp2, s as int, i as int));
                assert(sp_line_gotos(gp1, gp2, s as int, i as int + 1) == sp_line_gotos(
                    gp1,
                    gp2,
                    s as int,
                    i as int,
                ) + sp_goto_events(px as int, py as int));
                assert(self.plan@ =~= head + sp_line_gotos(gp1, gp2, s as int, i as int + 1));
            }
            i += 1;
        }
        self.tool_up(tool);
        proof {
            assert(self.plan@ =~= base + sp_stroke_plan(tool, gp1, gp2));
        }
    }

    /// One stroke between canonical points, transformed per variant.
    pub fn draw_line_screen(&mut self, p1: (i32, i32), p2: (i32, i32))
        requires
            0 <= p1.0 <= VIRTUAL_WIDTH as int,
            0 <= p1.1 <= VIRTUAL_HEIGHT as int,
            0 <= p2.0 <= VIRTUAL_WIDTH as int,
            0 <= p2.1 <= VIRTUAL_HEIGHT as int,
        ensures
            final(self).plan@ == old(self).plan@ + sp_stroke_plan(
                BTN_TOOL_PEN,
                sp_pen_transform(old(self).model, p1.0 as int, p1.1 as int),
                sp_pen_transform(old(self).model, p2.0 as int, p2.1 as int),
            ),
            final(self).model == old(self).model,
    {
        let n1 = pen_virtual_to_input(self.model, p1);
        let n2 = pen_virtual_to_input(self.model, p2);
        proof {
            lemma_pen_native_bound(self.model);
        }
        self.draw_line(n1, n2);
    }

    /// One eraser stroke between canonical points.
    pub fn erase_line_screen(&mut self, p1: (i32, i32), p2: (i32, i32))
        requires
            0 <= p1.0 <= VIRTUAL_WIDTH as int,
            0 <= p1.1 <= VIRTUAL_HEIGHT as int,
            0 <= p2.0 <= VIRTUAL_WIDTH as int,
            0 <= p2.1 <= VIRTUAL_HEIGHT as int,
        ensures
            final(self).plan@ == old(self).plan@ + sp_stroke_plan(
                BTN_TOOL_RUBBER,
                sp_pen_transform(old(self).model, p1.0 as int, p1.1 as int),
                sp_pen_transform(old(self).model, p2.0 as int, p2.1 as int),
            ),
            final(self).model == old(self).model,
    {
        let n1 = pen_virtual_to_input(self.model, p1);
        let n2 = pen_virtual_to_input(self.model, p2);
        proof {
            lemma_pen_native_bound(self.model);
        }
        self.erase_line(n1, n2);
    }
}

/// The strokes of a filled region: one horizontal stroke per row,
/// top to bottom, `cnt` rows starting at `y1`, canonical coordinates
/// transformed per variant.
pub open spec fn sp_hstrokes_plan(
    model: DeviceModel,
    tool: u16,
    x1: int,
    x2: int,
    y1: int,
    cnt: int,
) -> Seq<PlanItem>
    decreases cnt,
{
    if cnt <= 0 {
        Seq::empty()
    } else {
        sp_hstrokes_plan(model, tool, x1, x2, y1, cnt - 1) + sp_stroke_plan(
            tool,
            sp_pen_transform(model, x1, y1 + cnt - 1),
            sp_pen_transform(model, x2, y1 + cnt - 1),
        )
    }
}

/// One stroke between canonical points, as a plan.
pub open spec fn sp_screen_stroke(
    model: DeviceModel,
    tool: u16,
    p1: (int, int),
    p2: (int, int),
) -> Seq<PlanItem> {
    sp_stroke_plan(tool, sp_pen_transform(model, p1.0, p1.1), sp_pen_transform(model, p2.0, p2.1))
}

/// The plan of a rectangle between canonical corners: filled, a stack
/// of horizontal strokes across every row; unfilled, the four outline
/// strokes.
pub open spec fn sp_rect_plan(
    model: DeviceModel,
    tool: u16,
    p1: (int, int),
    p2: (int, int),
    fill: bool,
) -> Seq<PlanItem> {
    if fill {
        sp_hstrokes_plan(
            model,
            tool,
            p1.0,
            p2.0,
            p1.1,
            if p2.1 >= p1.1 {
                p2.1 - p1.1 + 1
            } else {
                0
            },
        )
    } else {
        sp_screen_stroke(model, tool, (p1.0, p1.1), (p2.0, p1.1)) + sp_screen_stroke(
            model,
            tool,
            (p2.0, p1.1),
            (p2.0, p2.1),
        ) + sp_screen_stroke(model, tool, (p2.0, p2.1), (p1.0, p2.1)) + sp_screen_stroke(
            model,
            tool,
            (p1.0, p2.1),
            (p1.0, p1.1),
        )
    }
}

impl Pen {
    /// A rectangle between canonical corners: filled, one stroke per
    /// row between the y-bounds; unfilled, the four outline strokes.
    #[verifier::loop_isolation(false)]
    pub fn draw_rectangle(&mut self, top_left: (i32, i32), bottom_right: (i32, i32), fill: bool)
        requires
            0 <= top_left.0 <= VIRTUAL_WIDTH as int,
            0 <= top_left.1 <= VIRTUAL_HEIGHT as int,
            0 <= bottom_right.0 <= VIRTUAL_WIDTH as int,
            0 <= bottom_right.1 <= VIRTUAL_HEIGHT as int,
        ensures
            final(self).plan@ == old(self).plan@ + sp_rect_plan(
                old(self).model,
                BTN_TOOL_PEN,
                (top_left.0 as int, top_left.1 as int),
                (bottom_right.0 as int, bottom_right.1 as int),
                fill,
            ),
            final(self).model == old(self).model,
    {
        self.rectangle(BTN_TOOL_PEN, top_left, bottom_right, fill);
    }

    /// Erase a filled rectangle between canonical corners: the same
    /// decomposition as a filled rectangle, with the eraser tool.
    pub fn erase_rectangle(&mut self, top_left: (i32, i32), bottom_right: (i32, i32))
        requires
            0 <= top_left.0 <= VIRTUAL_WIDTH as int,
            0 <= top_left.1 <= VIRTUAL_HEIGHT as int,
            0 <= bottom_right.0 <= VIRTUAL_WIDTH as int,
            0 <= bottom_right.1 <= VIRTUAL_HEIGHT as int,
        ensures
            final(self).plan@ == old(self).plan@ + sp_rect_plan(
                old(self).model,
                BTN_TOOL_RUBBER,
                (top_left.0 as int, top_left.1 as int),
                (bottom_right.0 as int, bottom_right.1 as int),
                true,
            ),
            final(self).model == old(self).model,
    {
        self.rectangle(BTN_TOOL_RUBBER, top_left, bottom_right, true);
    }

    #[verifier::loop_isolation(false)]
    #[verifier::rlimit(60)]
    fn rectangle(&mut self, tool: u16, top_left: (i32, i32), bottom_right: (i32, i32), fill: bool)
        requires
            0 <= top_left.0 <= VIRTUAL_WIDTH as int,
            0 <= top_left.1 <= VIRTUAL_HEIGHT as int,
            0 <= bottom_right.0 <= VIRTUAL_WIDTH as int,
            0 <= bottom_right.1 <= VIRTUAL_HEIGHT as int,
        ensures
            final(self).plan@ == old(self).plan@ + sp_rect_plan(
                old(self).model,
                tool,
                (top_left.0 as int, top_left.1 as int),
                (bottom_right.0 as int, bottom_right.1 as int),
                fill,
            ),
            final(self).model == old(self).model,
    {
        let (x1, y1) = top_left;
        let (x2, y2) = bottom_right;
        if fill {
            let cnt: i32 = if y2 >= y1 {
                y2 - y1 + 1
            } else {
                0
            };
            let mut row: i32 = 0;
            while row < cnt
                invariant
                    0 <= row <= cnt,
                    self.plan@ == old(self).plan@ + sp_hstrokes_plan(
                        old(self).model,
                        tool,
                        x1 as int,
                        x2 as int,
                        y1 as int,
                        row as int,
                    ),
                    self.model == old(self).model,
                decreases cnt - row,
            {
                let ghost hrows = sp_hstrokes_plan(
                    old(self).model,
                    tool,
                    x1 as int,
                    x2 as int,
                    y1 as int,
                    row as int,
                );
                self.screen_stroke(tool, (x1, y1 + row), (x2, y1 + row));
                proof {
                    let s = sp_screen_stroke(
                        old(self).model,
                        tool,
                        (x1 as int, (y1 + row) as int),
                        (x2 as int, (y1 + row) as int),
                    );
                    crate::events::lemma_concat_assoc(old(self).plan@, hrows, s);
                    assert(sp_hstrokes_plan(
                        old(self).model,
                        tool,
                        x1 as int,
                        x2 as int,
                        y1 as int,
                        row as int + 1,
                    ) == hrows + s);
                }
                row += 1;
            }
        } else {
            let ghost base = self.plan@;
            let ghost m = old(self).model;
            let ghost s1 = sp_screen_stroke(m, tool, (x1 as int, y1 as int), (x2 as int, y1 as int));
            let ghost s2 = sp_screen_stroke(m, tool, (x2 as int, y1 as int), (x2 as int, y2 as int));
            let ghost s3 = sp_screen_stroke(m, tool, (x2 as int, y2 as int), (x1 as int, y2 as int));
            let ghost s4 = sp_screen_stroke(m, tool, (x1 as int, y2 as int), (x1 as int, y1 as int));
            self.screen_stroke(tool, (x1, y1), (x2, y1));
            self.screen_stroke(tool, (x2, y1), (x2, y2));
            self.screen_stroke(tool, (x2, y2), (x1, y2));
            self.screen_stroke(tool, (x1, y2), (x1, y1));
            proof {
                crate::events::lemma_concat_assoc(base, s1, s2);
                crate::events::lemma_concat_assoc(base, s1 + s2, s3);
                crate::events::lemma_concat_assoc(base, (s1 + s2) + s3, s4);
                assert(self.plan@ == base + (((s1 + s2) + s3) + s4));
            }
        }
    }

    fn screen_stroke(&mut self, tool: u16, p1: (i32, i32), p2: (i32, i32))
        requires
            0 <= p1.0 <= VIRTUAL_WIDTH as int,
            0 <= p1.1 <= VIRTUAL_HEIGHT as int,
            0 <= p2.0 <= VIRTUAL_WIDTH as int,
            0 <= p2.1 <= VIRTUAL_HEIGHT as int,
        ensures
            final(self).plan@ == old(self).plan@ + sp_screen_stroke(
                old(self).model,
                tool,
                (p1.0 as int, p1.1 as int),
                (p2.0 as int, p2.1 as int),
            ),
            final(self).model == old(self).model,
    {
        let n1 = pen_virtual_to_input(self.model, p1);
        let n2 = pen_virtual_to_input(self.model, p2);
        proof {
            lemma_pen_native_bound(self.model);
        }
        self.stroke(tool, n1, n2);
    }

}

/// A canonical position update, transformed per variant.
pub open spec fn sp_goto_at(model: DeviceModel, x: int, y: int) -> Seq<PlanItem> {
    let p = sp_pen_transform(model, x, y);
    sp_goto_events(p.0, p.1)
}

/// What one grid cell adds to a bitmap plan: an inked pixel presses
/// first if the pen was lifted (with a settle pause), then marks the
/// cell and the next column; a blank pixel lifts a pressed pen.
pub open spec fn sp_cell_plan(
    model: DeviceModel,
    x: int,
    y: int,
    pixel: bool,
    down: bool,
) -> Seq<PlanItem> {
    if pixel {
        (if !down {
            sp_goto_at(model, x, y) + sp_tool_down_events(BTN_TOOL_PEN) + seq![
                PlanItem::DelayMs(1u32),
            ]
        } else {
            Seq::empty()
        }) + sp_goto_at(model, x, y) + sp_goto_at(model, x + 1, y)
    } else if down {
        sp_tool_up_events(BTN_TOOL_PEN) + seq![PlanItem::DelayMs(1u32)]
    } else {
        Seq::empty()
    }
}

/// Whether the pen is pressed when cell `i` of a row is reached: it is
/// exactly the ink state of the cell before.
pub open spec fn sp_down_before(row: Seq<bool>, i: int) -> bool {
    i > 0 && row[i - 1]
}

/// The plan of the first `i` cells of row `y`.
pub open spec fn sp_row_plan(model: DeviceModel, row: Seq<bool>, y: int, i: int) -> Seq<PlanItem>
    decreases i,
{
    if i <= 0 {
        Seq::empty()
    } else {
        sp_row_plan(model, row, y, i - 1) + sp_cell_plan(
            model,
            i - 1,
            y,
            row[i - 1],
            sp_down_before(row, i - 1),
        )
    }
}

/// The plan of the first `j` rows of a grid: each row's cells, then a
/// forced lift and the row-end pause, so no stroke smears across rows.
pub open spec fn sp_bitmap_plan(model: DeviceModel, grid: Seq<Seq<bool>>, j: int) -> Seq<PlanItem>
    decreases j,
{
    if j <= 0 {
        Seq::empty()
    } else {
        sp_bitmap_plan(model, grid, j - 1) + sp_row_plan(
            model,
            grid[j - 1],
            j - 1,
            grid[j - 1].len() as int,
        ) + sp_tool_up_events(BTN_TOOL_PEN) + seq![PlanItem::DelayMs(5u32)]
    }
}

impl Pen {
    /// Row-major scan of a dense boolean canonical-resolution grid: a
    /// contact-to-contact run of true pixels becomes one stroke that
    /// also covers the next column (a visible minimum mark width);
    /// each row forces a lift so no diagonal smear connects rows, and
    /// short pauses bracket contact changes to respect the panel's
    /// sampling rate. Whatever the grid, the pen ends lifted.
    #[verifier::loop_isolation(false)]
    #[verifier::rlimit(60)]
    pub fn draw_bitmap(&mut self, bitmap: &Vec<Vec<bool>>)
        requires
            bitmap@.len() <= VIRTUAL_HEIGHT as int,
            forall|y: int| 0 <= y < bitmap@.len() ==> (#[trigger] bitmap@[y])@.len()
                <= VIRTUAL_WIDTH as int,
        ensures
            final(self).plan@ == old(self).plan@ + sp_bitmap_plan(
                old(self).model,
                bitmap@.map_values(|r: Vec<bool>| r@),
                bitmap@.len() as int,
            ),
            old(self).plan@.is_prefix_of(final(self).plan@),
            final(self).model == old(self).model,
            final(self).plan@.len() > old(self).plan@.len() ==> sp_last_key(
                final(self).plan@.skip(old(self).plan@.len() as int),
                BTN_TOUCH,
            ) == Some(0i32),
    {
        let ghost oldp = old(self).plan@;
        let ghost grid = bitmap@.map_values(|r: Vec<bool>| r@);
        let rows = bitmap.len();
        let mut y: usize = 0;
        proof {
            assert(oldp + sp_bitmap_plan(old(self).model, grid, 0) =~= oldp);
        }
        while y < rows
            invariant
                y <= rows,
                self.model == old(self).model,
                self.plan@ == oldp + sp_bitmap_plan(old(self).model, grid, y as int),
                oldp.is_prefix_of(self.plan@),
                self.plan@.len() > oldp.len() ==> sp_last_key(
                    self.plan@.skip(oldp.len() as int),
                    BTN_TOUCH,
                ) == Some(0i32),
            decreases rows - y,
        {
            let ghost rowbase = self.plan@;
            let row = &bitmap[y];
            proof {
                assert(row@ == grid[y as int]);
                assert(rowbase + sp_row_plan(old(self).model, grid[y as int], y as int, 0)
                    =~= rowbase);
            }
            let cols = row.len();
            let mut is_down = false;
            let mut x: usize = 0;
            while x < cols
                invariant
                    x <= cols,
                    cols == grid[y as int].len(),
                    row@ == grid[y as int],
                    y < rows,
                    self.model == old(self).model,
                    is_down == sp_down_before(grid[y as int], x as int),
                    self.plan@ == rowbase + sp_row_plan(
                        old(self).model,
                        grid[y as int],
                        y as int,
                        x as int,
                    ),
                decreases cols - x,
            {
                let ghost before = self.plan@;
                let ghost cell = sp_cell_plan(
                    old(self).model,
                    x as int,
                    y as int,
                    grid[y as int][x as int],
                    is_down,
                );
                if row[x] {
                    if !is_down {
                        self.goto_xy_virtual((x as i32, y as i32));
                        self.pen_down();
                        is_down = true;
                        self.plan.push(delay_ms(1));
                    }
                    self.goto_xy_virtual((x as i32, y as i32));
                    self.goto_xy_virtual((x as i32 + 1, y as i32));
                } else if is_down {
                    self.pen_up();
                    is_down = false;
                    self.plan.push(delay_ms(1));
                }
                proof {
                    assert(self.plan@ =~= before + cell);
                    crate::events::lemma_concat_assoc(
                        rowbase,
                        sp_row_plan(old(self).model, grid[y as int], y as int, x as int),
                        cell,
                    );
                    assert(sp_row_plan(old(self).model, grid[y as int], y as int, x as int + 1)
                        == sp_row_plan(old(self).model, grid[y as int], y as int, x as int)
                        + cell);
                }
                x += 1;
            }
            let ghost before_up = self.plan@;
            self.pen_up();
            self.plan.push(delay_ms(5));
            proof {
                assert(self.plan@ =~= oldp + sp_bitmap_plan(old(self).model, grid, y as int + 1));
                assert(before_up.is_prefix_of(self.plan@)) by {
                    assert(self.plan@.subrange(0, before_up.len() as int) =~= before_up);
                }
                assert(oldp.is_prefix_of(self.plan@)) by {
                    assert(self.plan@.subrange(0, oldp.len() as int) =~= oldp);
                }
                let ext = self.plan@.skip(oldp.len() as int);
                let tail = sp_tool_up_events(BTN_TOOL_PEN) + seq![PlanItem::DelayMs(5u32)];
                assert(ext =~= before_up.skip(oldp.len() as int) + tail);
                lemma_last_key_concat(before_up.skip(oldp.len() as int), tail, BTN_TOUCH);
                lemma_last_key_concat(
                    sp_tool_up_events(BTN_TOOL_PEN),
                    seq![PlanItem::DelayMs(5u32)],
                    BTN_TOUCH,
                );
                assert(sp_last_key(seq![PlanItem::DelayMs(5u32)], BTN_TOUCH) is None) by {
                    assert(sp_last_key(Seq::<PlanItem>::empty(), BTN_TOUCH) is None);
                    assert(seq![PlanItem::DelayMs(5u32)].drop_last() =~= Seq::<
                        PlanItem,
                    >::empty());
                }
                lemma_tool_up_ends_lifted(BTN_TOOL_PEN);
                assert(sp_last_key(ext, BTN_TOUCH) == Some(0i32));
            }
            y += 1;
        }
    }
}

/// Prefixes survive appending.
proof fn lemma_prefix_extends(base: Seq<PlanItem>, mid: Seq<PlanItem>, end: Seq<PlanItem>)
    requires
        base.is_prefix_of(mid),
        mid.is_prefix_of(end),
    ensures
        base.is_prefix_of(end),
{
    assert(end.subrange(0, base.len() as int) =~= mid.subrange(0, base.len() as int));
}

/// The interpolated advance along one axis never exceeds the full
/// span, and single steps never exceed five units.
proof fn lemma_step_fraction(a: int, i: int, s: int)
    requires
        0 <= a,
        s >= 1,
        0 <= i <= s,
    ensures
        0 <= a * i / s <= a,
{
    assert(0 <= a * i) by (nonlinear_arith)
        requires
            a >= 0 && i >= 0,
    ;
    assert(a * i <= a * s) by (nonlinear_arith)
        requires
            a >= 0 && i <= s,
    ;
    vstd::arithmetic::div_mod::lemma_div_pos_is_pos(a * i, s);
    vstd::arithmetic::div_mod::lemma_div_is_ordered(a * i, a * s, s);
    vstd::arithmetic::div_mod::lemma_div_multiples_vanish(a, s);
    assert(s * a == a * s) by (nonlinear_arith);
}

/// Scaling an index below `n` into a range of `m` stays below `m`.
pub proof fn lemma_div_fraction_below(i: int, m: int, n: int)
    requires
        0 <= i < n,
        m >= 1,
    ensures
        0 <= i * m / n < m,
{
    assert(0 <= i * m) by (nonlinear_arith)
        requires
            i >= 0 && m >= 0,
    ;
    vstd::arithmetic::div_mod::lemma_div_pos_is_pos(i * m, n);
    assert(i * m <= n * (m - 1) + (n - 1)) by (nonlinear_arith)
        requires
            i <= n - 1 && m >= 1 && n >= 1,
    ;
    vstd::arithmetic::div_mod::lemma_div_is_ordered(i * m, n * (m - 1) + (n - 1), n);
    vstd::arithmetic::div_mod::lemma_div_multiples_vanish_fancy(m - 1, n - 1, n);
}

/// Stylus axis maxima stay below the interpolation bound.
proof fn lemma_pen_native_bound(model: DeviceModel)
    ensures
        vstd::math::max(model.spec_pen_max_x() as int, model.spec_pen_max_y() as int)
            <= MAX_NATIVE as int,
{
}

} // verus!
