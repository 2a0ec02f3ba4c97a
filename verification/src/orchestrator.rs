//! The iteration state machine: capture, analysis, erase and redraw,
//! page navigation, binding the planners and the symbol pool together.
//! Everything that depends on outside input takes that input as an
//! argument; the caller performs the waits, reads and sends between
//! the phases, and a failing iteration is reported in place and never
//! ends the loop.

use vstd::prelude::*;

use crate::errors::{sp_describe, Error};
use crate::events::{delay_ms, PlanItem};
use crate::geometry::BoundingBox;
use crate::pages::{sp_create_page_plan, sp_navigate_plan, NavigationDirection};
use crate::parser::AnalysisResult;
use crate::symbols::{sp_symbol, SymbolPool, SYMBOL_COUNT};
use crate::workflow::{sp_is_answer_page, sp_render_text_plan, Workflow};

verus! {

/// Half an extent, rounded toward zero, as machine division computes
/// it for possibly negative extents.
pub open spec fn sp_half_toward_zero(w: int) -> int {
    if w >= 0 {
        w / 2
    } else {
        -((-w) / 2)
    }
}

/// Where the marker glyph goes: the question box's own center, clamped
/// componentwise into the workspace, or the fixed fallback point near
/// the lower left when the reply named no box.
pub open spec fn sp_symbol_position(question_box: Option<BoundingBox>) -> (int, int) {
    match question_box {
        Some(b) => (
            crate::transform::sp_clamp(b.x + sp_half_toward_zero(b.width as int), 0, 767),
            crate::transform::sp_clamp(b.y + sp_half_toward_zero(b.height as int), 0, 1023),
        ),
        None => (50, 950),
    }
}

/// The states of one iteration, from arming the trigger to returning
/// to idle.
#[derive(Debug, Clone, Copy, PartialEq, Eq, Structural)]
pub enum IterationState {
    WaitingForTrigger,
    Capturing,
    Analyzing,
    Rendering,
    Idle,
}

/// What happened since the last state, as the caller observed it.
#[derive(Debug, Clone, Copy, PartialEq, Eq, Structural)]
pub enum IterationEvent {
    /// A qualifying touch release armed the iteration.
    Triggered,
    /// A canonical frame was captured.
    FrameCaptured,
    /// The analysis reply parsed to a result.
    ResultParsed,
    /// The analysis reply parsed to the no-result sentinel.
    NoResultParsed,
    /// The answer was rendered and the source page restored.
    Rendered,
    /// Something failed; it was reported in place.
    Failed,
    /// The idle pause is over; wait for the next trigger.
    Rearmed,
}

/// The iteration state machine: trigger, capture, analysis, a
/// two-way branch on the reply, rendering, and back to idle. A
/// failure in any state falls to idle — it never ends the loop — and
/// an event that does not belong to the state changes nothing.
pub open spec fn sp_next_state(state: IterationState, event: IterationEvent) -> IterationState {
    if event == IterationEvent::Failed {
        IterationState::Idle
    } else {
        match (state, event) {
            (IterationState::WaitingForTrigger, IterationEvent::Triggered) => IterationState::Capturing,
            (IterationState::Capturing, IterationEvent::FrameCaptured) => IterationState::Analyzing,
            (IterationState::Analyzing, IterationEvent::ResultParsed) => IterationState::Rendering,
            (IterationState::Analyzing, IterationEvent::NoResultParsed) => IterationState::Idle,
            (IterationState::Rendering, IterationEvent::Rendered) => IterationState::Idle,
            (IterationState::Idle, IterationEvent::Rearmed) => IterationState::WaitingForTrigger,
            _ => state,
        }
    }
}

/// Advance the iteration state by one observed event.
pub fn next_state(state: IterationState, event: IterationEvent) -> (r: IterationState)
    ensures
        r == sp_next_state(state, event),
{
    if event == IterationEvent::Failed {
        return IterationState::Idle;
    }
    match (state, event) {
        (IterationState::WaitingForTrigger, IterationEvent::Triggered) => IterationState::Capturing,
        (IterationState::Capturing, IterationEvent::FrameCaptured) => IterationState::Analyzing,
        (IterationState::Analyzing, IterationEvent::ResultParsed) => IterationState::Rendering,
        (IterationState::Analyzing, IterationEvent::NoResultParsed) => IterationState::Idle,
        (IterationState::Rendering, IterationEvent::Rendered) => IterationState::Idle,
        (IterationState::Idle, IterationEvent::Rearmed) => IterationState::WaitingForTrigger,
        _ => state,
    }
}

/// A failure never unwinds past the iteration boundary: from every
/// state it lands in idle, from which the loop rearms.
pub proof fn lemma_failure_returns_to_idle(state: IterationState)
    ensures
        sp_next_state(state, IterationEvent::Failed) == IterationState::Idle,
        sp_next_state(IterationState::Idle, IterationEvent::Rearmed)
            == IterationState::WaitingForTrigger,
{
}

/// High-level orchestrator for the complete workflow.
pub struct Orchestrator {
    pub workflow: Workflow,
    pub symbol_pool: SymbolPool,
}

impl Orchestrator {
    /// The planners agree on the variant and the pool is intact.
    pub open spec fn wf(self) -> bool {
        self.workflow.wf() && self.symbol_pool.wf()
    }

    /// Bind a workflow and a loaded symbol pool together.
    pub fn new(workflow: Workflow, symbol_pool: SymbolPool) -> (r: Orchestrator)
        requires
            workflow.wf(),
            symbol_pool.wf(),
        ensures
            r.wf(),
            r.workflow == workflow,
            r.symbol_pool == symbol_pool,
    {
        Orchestrator { workflow, symbol_pool }
    }

    /// Where the marker glyph goes for a reply's question box.
    pub fn symbol_position(question_box: &Option<BoundingBox>) -> (r: (i32, i32))
        ensures
            (r.0 as int, r.1 as int) == sp_symbol_position(*question_box),
            0 <= r.0 <= 767,
            0 <= r.1 <= 1023,
    {
        match question_box {
            Some(b) => {
                let hw: i64 = if b.width >= 0 {
                    b.width as i64 / 2
                } else {
                    -((-(b.width as i64)) / 2)
                };
                let hh: i64 = if b.height >= 0 {
                    b.height as i64 / 2
                } else {
                    -((-(b.height as i64)) / 2)
                };
                let mx: i64 = b.x as i64 + hw;
                let my: i64 = b.y as i64 + hh;
                let px: i32 = if mx < 0 {
                    0
                } else if mx > 767 {
                    767
                } else {
                    mx as i32
                };
                let py: i32 = if my < 0 {
                    0
                } else if my > 1023 {
                    1023
                } else {
                    my as i32
                };
                (px, py)
            },
            None => (50, 950),
        }
    }

    /// The glyph-prefixed question and answer block typed onto the
    /// answer page.
    pub fn format_qa(symbol: &str, question: &str, answer: &str) -> (r: String)
        ensures
            r@ == symbol@ + " Q: "@ + question@ + "\n\nA: "@ + answer@ + "\n\n---\n\n"@,
    {
        let mut s = String::from_str(symbol);
        s.append(" Q: ");
        s.append(question);
        s.append("\n\nA: ");
        s.append(answer);
        s.append("\n\n---\n\n");
        s
    }

    /// When the reply carried no result: retract the progress note and
    /// tell the user what to draw.
    pub fn handle_no_result(&mut self)
        requires
            old(self).wf(),
        ensures
            final(self).wf(),
            final(self).workflow.keyboard.plan@ == old(self).workflow.keyboard.plan@ + (if old(
                self,
            ).workflow.keyboard.no_draw_progress {
                Seq::<PlanItem>::empty()
            } else {
                crate::keyboard::sp_backspaces_plan(
                    old(self).workflow.keyboard.progress_count as int,
                )
            }) + sp_render_text_plan(
                "No outlined content found. Please draw an outline around content and write a question nearby."@,
            ),
            final(self).workflow.pen == old(self).workflow.pen,
            final(self).workflow.touch == old(self).workflow.touch,
            final(self).symbol_pool == old(self).symbol_pool,
    {
        self.workflow.clear_progress();
        self.workflow.render_text(
            "No outlined content found. Please draw an outline around content and write a question nearby.",
        );
    }

    /// Report an error in place: retract the progress note and type
    /// the error's description.
    pub fn render_error_text(&mut self, e: Error)
        requires
            old(self).wf(),
        ensures
            final(self).wf(),
            final(self).workflow.keyboard.plan@ == old(self).workflow.keyboard.plan@ + (if old(
                self,
            ).workflow.keyboard.no_draw_progress {
                Seq::<PlanItem>::empty()
            } else {
                crate::keyboard::sp_backspaces_plan(
                    old(self).workflow.keyboard.progress_count as int,
                )
            }) + sp_render_text_plan("Error: "@ + sp_describe(e)),
            final(self).workflow.pen == old(self).workflow.pen,
            final(self).workflow.touch == old(self).workflow.touch,
            final(self).symbol_pool == old(self).symbol_pool,
    {
        self.workflow.clear_progress();
        let mut msg = String::from_str("Error: ");
        msg.append(e.describe());
        self.workflow.render_text(msg.as_str());
    }

    /// The pen plan of the first render half: the eraser strokes of
    /// the selected rows across the erase region (nothing when the
    /// reply named no box), the placed glyph raster drawn as a bitmap,
    /// and the settle pause before navigation.
    pub open spec fn sp_begin_pen_plan(
        model: crate::device_model::DeviceModel,
        question_box: Option<BoundingBox>,
        rows: Seq<i32>,
        g: Seq<Seq<bool>>,
    ) -> Seq<PlanItem> {
        let pos = sp_symbol_position(question_box);
        (match question_box {
            Some(b) => crate::workflow::sp_erase_rows_plan(
                model,
                sp_erase_box(b).x as int,
                sp_erase_box(b).x + sp_erase_box(b).width as int,
                rows,
            ),
            None => Seq::empty(),
        }) + crate::pen::sp_bitmap_plan(
            model,
            crate::workflow::sp_placed(g, pos.0 - 20, pos.1 - 20),
            1024,
        ) + seq![PlanItem::DelayMs(500)]
    }

    /// The first half of rendering an answer: allocate the marker
    /// glyph (the caller persists the returned cycle position before
    /// drawing), erase only the ink-bearing rows of the question box
    /// (returned for inspection), draw the glyph at the box's center
    /// (or the fallback point), and turn forward to probe for an
    /// existing answer page. The caller then captures the probe frame
    /// and calls the second half. The only failure is a question box
    /// whose frame does not decode to a usable image.
    pub fn render_answer_begin(&mut self, result: &AnalysisResult) -> (r: Result<
        (String, String, Vec<i32>),
        Error,
    >)
        requires
            old(self).wf(),
        ensures
            final(self).wf(),
            final(self).symbol_pool.spec_index() == (old(self).symbol_pool.spec_index() + 1) % (
            SYMBOL_COUNT as int),
            final(self).workflow.spec_model() == old(self).workflow.spec_model(),
            match r {
                Ok(out) => out.0@ == sp_symbol(old(self).symbol_pool.spec_index())
                    && crate::strutil::sp_digits_val(out.1@) == final(self).symbol_pool.spec_index()
                    && (match result.question_box {
                    Some(b) => match crate::codecs::sp_png_luma_of(result.screenshot_data@) {
                        Some(d) => 1 <= d.1 <= 100_000 && 1 <= d.2 <= 100_000 && forall|y: i32|
                            out.2@.contains(y) <==> crate::image_ops::sp_row_erased(
                                d.0,
                                d.1,
                                d.2,
                                sp_erase_box(b),
                                y as int,
                            ),
                        None => false,
                    },
                    None => out.2@.len() == 0,
                }) && (exists|g: Seq<Seq<bool>>|
                    #![auto]
                    g.len() == 40 && (forall|i: int| 0 <= i < 40 ==> g[i].len() == 40) && final(
                        self).workflow.pen.plan@ == old(self).workflow.pen.plan@
                        + Self::sp_begin_pen_plan(
                        old(self).workflow.spec_model(),
                        result.question_box,
                        out.2@,
                        g,
                    )) && final(self).workflow.touch.plan@ == old(self).workflow.touch.plan@
                    + sp_navigate_plan(old(self).workflow.spec_model(), NavigationDirection::Next),
                Err(e) => e == Error::IoFailure && result.question_box is Some && (
                match crate::codecs::sp_png_luma_of(result.screenshot_data@) {
                    Some(d) => !(1 <= d.1 <= 100_000 && 1 <= d.2 <= 100_000),
                    None => true,
                }) && final(self).workflow.touch.plan@ == old(self).workflow.touch.plan@
                    && final(self).workflow.pen.plan@ == old(self).workflow.pen.plan@,
            },
    {
        let ghost model = self.workflow.spec_model();
        let ghost pen0 = self.workflow.pen.plan@;
        let symbol = self.symbol_pool.next_symbol();
        let persist = self.symbol_pool.persist_string();
        let mut rows: Vec<i32> = Vec::new();
        if let Some(qbox) = &result.question_box {
            let clamped = erasable_box(qbox);
            self.workflow.show_progress("Erasing question...");
            match self.workflow.erase_region_smart(&clamped, &result.screenshot_data) {
                Ok(selected) => {
                    rows = selected;
                },
                Err(e) => {
                    return Err(e);
                },
            }
        }
        let ghost erase_part = self.workflow.pen.plan@.skip(pen0.len() as int);
        proof {
            assert(self.workflow.pen.plan@ =~= pen0 + erase_part);
            if result.question_box is None {
                assert(erase_part =~= Seq::<PlanItem>::empty());
            }
        }
        self.workflow.show_progress("Marking original...");
        let (sx, sy) = Self::symbol_position(&result.question_box);
        self.workflow.draw_symbol(sx, sy, symbol.as_str());
        proof {
            let pos = sp_symbol_position(result.question_box);
            assert(vstd::math::max(sx as int - 20, i32::MIN as int) == pos.0 - 20);
            assert(vstd::math::max(sy as int - 20, i32::MIN as int) == pos.1 - 20);
        }
        let ghost g = choose|g: Seq<Seq<bool>>|
            #![auto]
            g.len() == 40 && (forall|i: int| 0 <= i < 40 ==> g[i].len() == 40)
                && self.workflow.pen.plan@ == (pen0 + erase_part) + crate::pen::sp_bitmap_plan(
                model,
                crate::workflow::sp_placed(
                    g,
                    sp_symbol_position(result.question_box).0 - 20,
                    sp_symbol_position(result.question_box).1 - 20,
                ),
                1024,
            );
        self.workflow.pen.plan.push(delay_ms(500));
        self.workflow.show_progress("Checking for answer page...");
        self.workflow.probe_enter();
        proof {
            assert(self.workflow.pen.plan@ =~= pen0 + Self::sp_begin_pen_plan(
                model,
                result.question_box,
                rows@,
                g,
            ));
        }
        Ok((symbol, persist, rows))
    }

    /// The keystrokes of the second render half: the progress note,
    /// its retraction, and — on a fresh page — the body-text switch,
    /// pause and typed header, then in both branches the body-text
    /// switch, pause and the typed glyph-prefixed question-and-answer
    /// block.
    pub open spec fn sp_finish_keyboard_plan(
        suppressed: bool,
        count0: int,
        reused: bool,
        symbol: Seq<char>,
        question: Seq<char>,
        answer: Seq<char>,
    ) -> Seq<PlanItem> {
        let qa = symbol + " Q: "@ + question + "\n\nA: "@ + answer + "\n\n---\n\n"@;
        let tail = crate::keyboard::sp_key_cmd_plan("3"@, false) + seq![PlanItem::DelayMs(200)]
            + crate::workflow::sp_render_text_plan(qa);
        if reused {
            let c1 = if suppressed {
                count0
            } else {
                vstd::math::min(
                    count0 + crate::keyboard::sp_emitted_count("Using existing page..."@),
                    u64::MAX as int,
                )
            };
            crate::workflow::sp_progress_plan(suppressed, "Using existing page..."@) + (
            if suppressed {
                Seq::<PlanItem>::empty()
            } else {
                crate::keyboard::sp_backspaces_plan(c1)
            }) + tail
        } else {
            let c1 = if suppressed {
                count0
            } else {
                vstd::math::min(
                    count0 + crate::keyboard::sp_emitted_count("Creating page..."@),
                    u64::MAX as int,
                )
            };
            crate::workflow::sp_progress_plan(suppressed, "Creating page..."@) + (if suppressed {
                Seq::<PlanItem>::empty()
            } else {
                crate::keyboard::sp_backspaces_plan(c1)
            }) + crate::keyboard::sp_key_cmd_plan("3"@, false) + seq![PlanItem::DelayMs(200)]
                + crate::workflow::sp_render_text_plan("=== Reader Buddy Answers ===\n\n"@) + tail
        }
    }

    /// The second half of rendering an answer, fed the probe frame
    /// (or nothing when the probe capture failed): decide whether an
    /// answer page already exists, turn back — always, so the probe
    /// never changes the net page position — then create or reuse the
    /// answer page, type the glyph-prefixed question and answer, and
    /// return to the source page. Returns whether an existing answer
    /// page was reused.
    #[verifier::rlimit(100)]
    pub fn render_answer_finish(
        &mut self,
        symbol: &str,
        question: &str,
        answer: &str,
        probe_frame: Option<&Vec<u8>>,
    ) -> (r: bool)
        requires
            old(self).wf(),
        ensures
            final(self).wf(),
            r == (match probe_frame {
                Some(png) => sp_is_answer_page(png@),
                None => false,
            }),
            final(self).workflow.touch.plan@ == old(self).workflow.touch.plan@ + sp_navigate_plan(
                old(self).workflow.spec_model(),
                NavigationDirection::Previous,
            ) + (if r {
                sp_navigate_plan(old(self).workflow.spec_model(), NavigationDirection::Next)
            } else {
                sp_create_page_plan(old(self).workflow.spec_model()) + seq![PlanItem::DelayMs(300)]
                    + sp_navigate_plan(old(self).workflow.spec_model(), NavigationDirection::Next)
                    + seq![PlanItem::DelayMs(1000)]
            }) + sp_navigate_plan(old(self).workflow.spec_model(), NavigationDirection::Previous),
            final(self).workflow.keyboard.plan@ == old(self).workflow.keyboard.plan@
                + Self::sp_finish_keyboard_plan(
                old(self).workflow.keyboard.no_draw_progress,
                old(self).workflow.keyboard.progress_count as int,
                r,
                symbol@,
                question@,
                answer@,
            ),
            final(self).workflow.keyboard.no_draw_progress == old(
                self,
            ).workflow.keyboard.no_draw_progress,
            final(self).workflow.keyboard.progress_count == (if old(
                self,
            ).workflow.keyboard.no_draw_progress {
                old(self).workflow.keyboard.progress_count
            } else {
                0u64
            }),
            final(self).workflow.pen == old(self).workflow.pen,
            final(self).symbol_pool == old(self).symbol_pool,
            final(self).workflow.spec_model() == old(self).workflow.spec_model(),
    {
        let ghost tbase = self.workflow.touch.plan@;
        let ghost kbase = self.workflow.keyboard.plan@;
        let ghost sup = self.workflow.keyboard.no_draw_progress;
        let ghost c0 = self.workflow.keyboard.progress_count as int;
        let has_page = self.workflow.probe_exit(probe_frame);
        if !has_page {
            self.workflow.show_progress("Creating page...");
            self.workflow.create_new_page_right();
            self.workflow.touch.plan.push(delay_ms(1000));
            self.workflow.clear_progress();
            self.workflow.keyboard.key_cmd_body();
            self.workflow.keyboard.plan.push(delay_ms(200));
            self.workflow.render_text("=== Reader Buddy Answers ===\n\n");
        } else {
            self.workflow.show_progress("Using existing page...");
            self.workflow.navigate_to_next_page();
        }
        self.workflow.clear_progress();
        self.workflow.keyboard.key_cmd_body();
        self.workflow.keyboard.plan.push(delay_ms(200));
        let formatted = Self::format_qa(symbol, question, answer);
        self.workflow.render_text(formatted.as_str());
        self.workflow.navigate_to_previous_page();
        proof {
            assert(self.workflow.touch.plan@ =~= tbase + sp_navigate_plan(
                old(self).workflow.spec_model(),
                NavigationDirection::Previous,
            ) + (if has_page {
                sp_navigate_plan(old(self).workflow.spec_model(), NavigationDirection::Next)
            } else {
                sp_create_page_plan(old(self).workflow.spec_model()) + seq![PlanItem::DelayMs(300)]
                    + sp_navigate_plan(old(self).workflow.spec_model(), NavigationDirection::Next)
                    + seq![PlanItem::DelayMs(1000)]
            }) + sp_navigate_plan(old(self).workflow.spec_model(), NavigationDirection::Previous));
            assert(crate::keyboard::sp_backspaces_plan(0) =~= Seq::<PlanItem>::empty());
            assert(self.workflow.keyboard.plan@ =~= kbase + Self::sp_finish_keyboard_plan(
                sup,
                c0,
                has_page,
                symbol@,
                question@,
                answer@,
            ));
        }
        has_page
    }
}

/// The erase region of a question box: the box clamped into the
/// workspace, with anything still sticking out on the left or top cut
/// off, so a box wider or taller than the workspace keeps exactly its
/// visible part. A box that fits keeps its own extents.
pub open spec fn sp_erase_box(b: BoundingBox) -> BoundingBox {
    let cx = crate::geometry::spec_clamped_origin(b.x as int, b.width as int, 768);
    let cw = crate::geometry::spec_clamped_extent(b.x as int, b.width as int, 768);
    let cy = crate::geometry::spec_clamped_origin(b.y as int, b.height as int, 1024);
    let ch = crate::geometry::spec_clamped_extent(b.y as int, b.height as int, 1024);
    let x2 = vstd::math::max(cx, 0);
    let y2 = vstd::math::max(cy, 0);
    BoundingBox {
        x: x2 as i32,
        y: y2 as i32,
        width: (vstd::math::min(cx + cw, 768) - x2) as i32,
        height: (vstd::math::min(cy + ch, 1024) - y2) as i32,
    }
}

/// Pull a box fully into the workspace for erasing: clamp it, then
/// cut off anything still sticking out on the left or top (a box wider
/// or taller than the workspace keeps its visible part).
pub fn erasable_box(b: &BoundingBox) -> (r: BoundingBox)
    ensures
        r == sp_erase_box(*b),
        crate::workflow::sp_erasable(r),
{
    let c = b.clamp_to_workspace();
    let x2 = crate::geometry::imax(c.x, 0);
    let y2 = crate::geometry::imax(c.y, 0);
    let right = crate::geometry::imin(c.x + c.width, crate::geometry::VIRTUAL_WIDTH);
    let bottom = crate::geometry::imin(c.y + c.height, crate::geometry::VIRTUAL_HEIGHT);
    BoundingBox { x: x2, y: y2, width: right - x2, height: bottom - y2 }
}

} // verus!
