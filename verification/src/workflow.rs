//! The workflow coordinator: one owner for the capture pipeline and
//! the three actuator planners, and the composite operations built on
//! them — selective erasing, marker drawing, text rendering, page
//! probing. Everything here plans and decides; reading devices and
//! draining plans is the caller's job.

use vstd::prelude::*;

use crate::codecs;
use crate::device_model::DeviceModel;
use crate::errors::Error;
use crate::geometry::{imin, BoundingBox, VIRTUAL_HEIGHT, VIRTUAL_WIDTH};
use crate::image_ops;
use crate::keyboard::{sp_backspaces_plan, sp_key_cmd_plan, sp_type_plan, Keyboard};
use crate::pages::{sp_create_page_plan, sp_navigate_plan, NavigationDirection, PageManager};
use crate::pen::{sp_rect_plan, Pen, BTN_TOOL_RUBBER, BTN_TOUCH};
use crate::events::{sp_last_key, PlanItem};
use crate::screenshot::Screenshot;
use crate::symbols::SymbolPool;
use crate::touch::{sp_tap_events, Touch, TriggerCorner};

verus! {

/// A region fits the eraser: at least one pixel each way, inside the
/// canonical workspace.
pub open spec fn sp_erasable(region: BoundingBox) -> bool {
    &&& region.width >= 1
&&& region.height >= 1
&&& 0 <= region.x
&&& region.x + region.width <= VIRTUAL_WIDTH as int
&&& 0 <= region.y
&&& region.y + region.height <= VIRTUAL_HEIGHT as int
}

/// The eraser strokes of a list of rows: for each selected row, one
/// filled one-row rectangle across the region's width.
pub open spec fn sp_erase_rows_plan(
    model: DeviceModel,
    x1: int,
    x2: int,
    rows: Seq<i32>,
) -> Seq<PlanItem>
    decreases rows.len(),
{
    if rows.len() == 0 {
        Seq::empty()
    } else {
        sp_erase_rows_plan(model, x1, x2, rows.drop_last()) + sp_rect_plan(
            model,
            BTN_TOOL_RUBBER,
            (x1, rows.last() as int),
            (x2, rows.last() as int + 1),
            true,
        )
    }
}

/// What a progress note adds to the keyboard plan: nothing when
/// progress is suppressed, the typed note otherwise.
pub open spec fn sp_progress_plan(suppressed: bool, note: Seq<char>) -> Seq<PlanItem> {
    if suppressed {
        Seq::empty()
    } else {
        sp_type_plan(note)
    }
}

/// The keystrokes of rendering a text block: switch to body-text
/// entry, type the text, then a blank line.
pub open spec fn sp_render_text_plan(text: Seq<char>) -> Seq<PlanItem> {
    sp_key_cmd_plan("3"@, false) + sp_type_plan(text) + sp_type_plan("\n\n"@)
}

/// A captured page counts as an answer page: it decodes, its
/// dimensions are sane, and its header region carries at least the
/// threshold count of ink pixels.
pub open spec fn sp_is_answer_page(png: Seq<u8>) -> bool {
    match codecs::sp_png_luma_of(png) {
        Some(d) => 1 <= d.1 <= 100_000 && 1 <= d.2 <= 100_000 && image_ops::sp_header_has_ink(
            d.0,
            d.1,
            d.2,
        ),
        None => false,
    }
}

/// A small grid placed on the full canonical workspace at the given
/// offset: inside the placed raster the workspace repeats it, clear
/// everywhere else; parts that stick out are cut off.
pub open spec fn sp_placed(g: Seq<Seq<bool>>, off_x: int, off_y: int) -> Seq<Seq<bool>> {
    Seq::new(
        VIRTUAL_HEIGHT as nat,
        |py: int|
            Seq::new(
                VIRTUAL_WIDTH as nat,
                |px: int|
                    {
                        let dy = py - off_y;
                        let dx = px - off_x;
                        &&& 0 <= dy < g.len()
                    &&& 0 <= dx < g[dy].len()
                    &&& g[dy][dx]
                    },
            ),
    )
}

/// Main workflow coordinator.
pub struct Workflow {
    pub screenshot: Screenshot,
    pub pen: Pen,
    pub keyboard: Keyboard,
    pub touch: Touch,
}

impl Workflow {
    /// All planners agree on the hardware variant.
    pub open spec fn wf(self) -> bool {
        self.screenshot.spec_model() == self.pen.model && self.pen.model == self.touch.model
    }

    /// The variant this workflow drives.
    pub open spec fn spec_model(self) -> DeviceModel {
        self.pen.model
    }

    /// A workflow for one variant and trigger corner, with empty plans
    /// and no captured frame.
    pub fn new(model: DeviceModel, trigger_corner: TriggerCorner) -> (r: Workflow)
        ensures
            r.wf(),
            r.spec_model() == model,
            r.touch.trigger_corner == trigger_corner,
            r.pen.plan@ == Seq::<PlanItem>::empty(),
            r.keyboard.plan@ == Seq::<PlanItem>::empty(),
            r.touch.plan@ == Seq::<PlanItem>::empty(),
            r.keyboard.progress_count == 0,
            !r.keyboard.no_draw_progress,
    {
        Workflow {
            screenshot: Screenshot::new(model),
            pen: Pen::new(model),
            keyboard: Keyboard::new(false),
            touch: Touch::new(model, trigger_corner),
        }
    }

    /// The tap that acknowledges a trigger, at the middle of the
    /// bottom edge.
    pub fn acknowledge_trigger(&mut self)
        requires
            old(self).wf(),
        ensures
            final(self).wf(),
            final(self).touch.plan@ == old(self).touch.plan@ + sp_tap_events(
                old(self).spec_model(),
                384,
                1023,
            ),
            final(self).pen == old(self).pen,
            final(self).keyboard == old(self).keyboard,
            final(self).screenshot == old(self).screenshot,
            final(self).touch.model == old(self).touch.model,
            final(self).touch.trigger_corner == old(self).touch.trigger_corner,
    {
        self.touch.tap_middle_bottom();
    }

    /// Show a progress note to the user by typing it.
    pub fn show_progress(&mut self, message: &str)
        requires
            old(self).wf(),
        ensures
            final(self).wf(),
            final(self).keyboard.plan@ == old(self).keyboard.plan@ + sp_progress_plan(
                old(self).keyboard.no_draw_progress,
                message@,
            ),
            final(self).keyboard.no_draw_progress == old(self).keyboard.no_draw_progress,
            final(self).keyboard.progress_count as int == (if old(self).keyboard.no_draw_progress {
                old(self).keyboard.progress_count as int
            } else {
                vstd::math::min(
                    old(self).keyboard.progress_count as int + crate::keyboard::sp_emitted_count(
                        message@,
                    ),
                    u64::MAX as int,
                )
            }),
            final(self).pen == old(self).pen,
            final(self).touch == old(self).touch,
            final(self).screenshot == old(self).screenshot,
    {
        self.keyboard.progress(message);
    }

    /// Retract the progress note, one backspace per keystroke.
    pub fn clear_progress(&mut self)
        requires
            old(self).wf(),
        ensures
            final(self).wf(),
            final(self).keyboard.plan@ == old(self).keyboard.plan@ + (if old(
                self,
            ).keyboard.no_draw_progress {
                Seq::<PlanItem>::empty()
            } else {
                sp_backspaces_plan(old(self).keyboard.progress_count as int)
            }),
            final(self).keyboard.no_draw_progress == old(self).keyboard.no_draw_progress,
            final(self).keyboard.progress_count == (if old(self).keyboard.no_draw_progress {
                old(self).keyboard.progress_count
            } else {
                0u64
            }),
            final(self).pen == old(self).pen,
            final(self).touch == old(self).touch,
            final(self).screenshot == old(self).screenshot,
    {
        self.keyboard.progress_end();
    }

    /// Erase a whole region with the eraser tool.
    pub fn erase_region(&mut self, region: &BoundingBox)
        requires
            old(self).wf(),
            sp_erasable(*region),
        ensures
            final(self).wf(),
            final(self).pen.plan@ == old(self).pen.plan@ + sp_rect_plan(
                old(self).spec_model(),
                BTN_TOOL_RUBBER,
                (region.x as int, region.y as int),
                (region.x + region.width as int, region.y + region.height as int),
                true,
            ),
            final(self).keyboard == old(self).keyboard,
            final(self).touch == old(self).touch,
            final(self).screenshot == old(self).screenshot,
            final(self).pen.model == old(self).pen.model,
    {
        let top_left = (region.x, region.y);
        let bottom_right = (region.x + region.width, region.y + region.height);
        self.pen.erase_rectangle(top_left, bottom_right);
    }

    /// Erase only the rows of the region that carry ink (with a fixed
    /// margin around them), leaving untouched rows of the region
    /// alone. The frame is the canonical PNG of the page; the rows
    /// struck are returned, exactly those the ink scan selects.
    #[verifier::loop_isolation(false)]
    pub fn erase_region_smart(&mut self, region: &BoundingBox, screenshot_data: &Vec<u8>) -> (r:
        Result<Vec<i32>, Error>)
        requires
            old(self).wf(),
            sp_erasable(*region),
        ensures
            final(self).wf(),
            final(self).keyboard == old(self).keyboard,
            final(self).touch == old(self).touch,
            final(self).screenshot == old(self).screenshot,
            final(self).pen.model == old(self).pen.model,
            match r {
                Ok(rows) => match codecs::sp_png_luma_of(screenshot_data@) {
                    Some(d) => {
                        &&& 1 <= d.1 <= 100_000
                    &&& 1 <= d.2 <= 100_000
                    &&& (forall|y: i32|
                        rows@.contains(y) <==> image_ops::sp_row_erased(
                            d.0,
                            d.1,
                            d.2,
                            *region,
                            y as int,
                        ))
                    &&& final(self).pen.plan@ == old(self).pen.plan@ + sp_erase_rows_plan(
                        old(self).spec_model(),
                        region.x as int,
                        region.x + region.width as int,
                        rows@,
                    )
                    },
                    None => false,
                },
                Err(e) => e == Error::IoFailure && final(self).pen.plan@ == old(self).pen.plan@
                    && (match codecs::sp_png_luma_of(screenshot_data@) {
                    Some(d) => !(1 <= d.1 <= 100_000 && 1 <= d.2 <= 100_000),
                    None => true,
                }),
            },
    {
        let (luma, w, h) = match codecs::decode_png_luma(screenshot_data) {
            Ok(d) => d,
            Err(e) => {
                return Err(e);
            },
        };
        if w < 1 || w > 100_000 || h < 1 || h > 100_000 {
            return Err(Error::IoFailure);
        }
        let rows = image_ops::erase_rows(&luma, w as usize, h as usize, region);
        let x2 = imin(region.x + region.width, VIRTUAL_WIDTH);
        let mut i: usize = 0;
        while i < rows.len()
            invariant
                i <= rows@.len(),
                x2 == region.x + region.width,
                self.pen.plan@ == old(self).pen.plan@ + sp_erase_rows_plan(
                    old(self).spec_model(),
                    region.x as int,
                    region.x + region.width as int,
                    rows@.subrange(0, i as int),
                ),
                self.pen.model == old(self).pen.model,
                self.keyboard == old(self).keyboard,
                self.touch == old(self).touch,
                self.screenshot == old(self).screenshot,
            decreases rows@.len() - i,
        {
            let row = rows[i];
            proof {
                assert(rows@.contains(rows@[i as int]));
                assert(image_ops::sp_row_erased(luma@, w as int, h as int, *region, row as int));
            }
            self.pen.erase_rectangle((region.x, row), (x2, row + 1));
            proof {
                assert(rows@.subrange(0, i as int + 1).drop_last() =~= rows@.subrange(0, i as int));
                assert(rows@.subrange(0, i as int + 1).last() == rows@[i as int]);
                crate::events::lemma_concat_assoc(
                    old(self).pen.plan@,
                    sp_erase_rows_plan(
                        old(self).spec_model(),
                        region.x as int,
                        region.x + region.width as int,
                        rows@.subrange(0, i as int),
                    ),
                    sp_rect_plan(
                        old(self).spec_model(),
                        BTN_TOOL_RUBBER,
                        (region.x as int, row as int),
                        (region.x + region.width as int, row as int + 1),
                        true,
                    ),
                );
            }
            i += 1;
        }
        proof {
            assert(rows@.subrange(0, rows@.len() as int) =~= rows@);
        }
        Ok(rows)
    }

    /// Draw a marker glyph centered at a canonical point: the glyph is
    /// rasterized at a fixed size, placed on a full-workspace grid,
    /// and drawn as a bitmap; whatever the raster, the pen ends
    /// lifted.
    pub fn draw_symbol(&mut self, x: i32, y: i32, symbol: &str)
        requires
            old(self).wf(),
        ensures
            final(self).wf(),
            final(self).keyboard == old(self).keyboard,
            final(self).touch == old(self).touch,
            final(self).screenshot == old(self).screenshot,
            final(self).pen.model == old(self).pen.model,
            exists|g: Seq<Seq<bool>>|
                #![auto]
                g.len() == 40 && (forall|i: int| 0 <= i < 40 ==> g[i].len() == 40) && final(
                    self).pen.plan@ == old(self).pen.plan@ + crate::pen::sp_bitmap_plan(
                    old(self).spec_model(),
                    sp_placed(
                        g,
                        vstd::math::max(x as int - 20, i32::MIN as int),
                        vstd::math::max(y as int - 20, i32::MIN as int),
                    ),
                    VIRTUAL_HEIGHT as int,
                ),
            old(self).pen.plan@.is_prefix_of(final(self).pen.plan@),
            final(self).pen.plan@.len() > old(self).pen.plan@.len() ==> sp_last_key(
                final(self).pen.plan@.skip(old(self).pen.plan@.len() as int),
                BTN_TOUCH,
            ) == Some(0i32),
    {
        let size: u32 = 40;
        let bitmap = SymbolPool::symbol_to_bitmap(symbol, size);
        let ghost g = bitmap@.map_values(|r: Vec<bool>| r@);
        let off_x: i32 = if x >= i32::MIN + 20 {
            x - 20
        } else {
            i32::MIN
        };
        let off_y: i32 = if y >= i32::MIN + 20 {
            y - 20
        } else {
            i32::MIN
        };
        let positioned = place_bitmap(&bitmap, off_x, off_y);
        proof {
            assert(positioned@.map_values(|r: Vec<bool>| r@) =~~= sp_placed(
                g,
                off_x as int,
                off_y as int,
            ));
        }
        self.pen.draw_bitmap(&positioned);
        proof {
            assert(g.len() == 40 && (forall|i: int| 0 <= i < 40 ==> g[i].len() == 40));
        }
    }

    /// Render a text block: switch to body-text entry, type the text,
    /// then a blank line.
    pub fn render_text(&mut self, text: &str)
        requires
            old(self).wf(),
        ensures
            final(self).wf(),
            final(self).keyboard.plan@ == old(self).keyboard.plan@ + sp_render_text_plan(text@),
            final(self).keyboard.no_draw_progress == old(self).keyboard.no_draw_progress,
            final(self).keyboard.progress_count == old(self).keyboard.progress_count,
            final(self).pen == old(self).pen,
            final(self).touch == old(self).touch,
            final(self).screenshot == old(self).screenshot,
    {
        let ghost base = self.keyboard.plan@;
        self.keyboard.key_cmd_body();
        self.keyboard.string_to_keypresses(text);
        self.keyboard.string_to_keypresses("\n\n");
        proof {
            assert(self.keyboard.plan@ =~= base + sp_render_text_plan(text@));
        }
    }

    /// Plan the creation of a new page to the right, ending on it.
    pub fn create_new_page_right(&mut self)
        requires
            old(self).wf(),
        ensures
            final(self).wf(),
            final(self).touch.plan@ == old(self).touch.plan@ + sp_create_page_plan(
                old(self).spec_model(),
            ) + seq![PlanItem::DelayMs(300)] + sp_navigate_plan(
                old(self).spec_model(),
                NavigationDirection::Next,
            ),
            final(self).pen == old(self).pen,
            final(self).keyboard == old(self).keyboard,
            final(self).screenshot == old(self).screenshot,
            final(self).touch.model == old(self).touch.model,
            final(self).touch.trigger_corner == old(self).touch.trigger_corner,
    {
        PageManager::create_page_right(&mut self.touch);
    }

    /// Plan a turn to the next page.
    pub fn navigate_to_next_page(&mut self)
        requires
            old(self).wf(),
        ensures
            final(self).wf(),
            final(self).touch.plan@ == old(self).touch.plan@ + sp_navigate_plan(
                old(self).spec_model(),
                NavigationDirection::Next,
            ),
            final(self).pen == old(self).pen,
            final(self).keyboard == old(self).keyboard,
            final(self).screenshot == old(self).screenshot,
            final(self).touch.model == old(self).touch.model,
            final(self).touch.trigger_corner == old(self).touch.trigger_corner,
    {
        PageManager::next_page(&mut self.touch);
    }

    /// Plan a turn to the previous page.
    pub fn navigate_to_previous_page(&mut self)
        requires
            old(self).wf(),
        ensures
            final(self).wf(),
            final(self).touch.plan@ == old(self).touch.plan@ + sp_navigate_plan(
                old(self).spec_model(),
                NavigationDirection::Previous,
            ),
            final(self).pen == old(self).pen,
            final(self).keyboard == old(self).keyboard,
            final(self).screenshot == old(self).screenshot,
            final(self).touch.model == old(self).touch.model,
            final(self).touch.trigger_corner == old(self).touch.trigger_corner,
    {
        PageManager::previous_page(&mut self.touch);
    }

    /// Enter the answer-page probe: turn one page forward. The caller
    /// then captures the page and hands the frame to `probe_exit`.
    pub fn probe_enter(&mut self)
        requires
            old(self).wf(),
        ensures
            final(self).wf(),
            final(self).touch.plan@ == old(self).touch.plan@ + sp_navigate_plan(
                old(self).spec_model(),
                NavigationDirection::Next,
            ),
            final(self).pen == old(self).pen,
            final(self).keyboard == old(self).keyboard,
            final(self).screenshot == old(self).screenshot,
            final(self).touch.model == old(self).touch.model,
            final(self).touch.trigger_corner == old(self).touch.trigger_corner,
    {
        self.navigate_to_next_page();
    }

    /// Whether a captured page is an answer page: its header region
    /// holds at least the threshold count of ink pixels. An image that
    /// cannot be decoded, or with degenerate dimensions, is no answer
    /// page.
    pub fn probe_decision(png: &Vec<u8>) -> (r: bool)
        ensures
            r == sp_is_answer_page(png@),
    {
        match codecs::decode_png_luma(png) {
            Ok((luma, w, h)) => {
                if w < 1 || w > 100_000 || h < 1 || h > 100_000 {
                    false
                } else {
                    image_ops::header_has_ink(&luma, w as usize, h as usize)
                }
            },
            Err(_) => false,
        }
    }

    /// Leave the answer-page probe: decide from the captured frame
    /// (no frame, no answer page), and turn back one page — always,
    /// whatever the outcome, so the probe never changes the page
    /// position.
    pub fn probe_exit(&mut self, probe_frame: Option<&Vec<u8>>) -> (r: bool)
        requires
            old(self).wf(),
        ensures
            final(self).wf(),
            final(self).touch.plan@ == old(self).touch.plan@ + sp_navigate_plan(
                old(self).spec_model(),
                NavigationDirection::Previous,
            ),
            r == (match probe_frame {
                Some(png) => sp_is_answer_page(png@),
                None => false,
            }),
            final(self).pen == old(self).pen,
            final(self).keyboard == old(self).keyboard,
            final(self).screenshot == old(self).screenshot,
            final(self).touch.model == old(self).touch.model,
            final(self).touch.trigger_corner == old(self).touch.trigger_corner,
    {
        let decision = match probe_frame {
            Some(png) => Self::probe_decision(png),
            None => false,
        };
        self.navigate_to_previous_page();
        decision
    }
}

/// Place a small bitmap onto a full-workspace grid at the given
/// offset: inside the placed raster the grid repeats it, everywhere
/// else the grid is clear; parts that stick out are cut off.
#[verifier::loop_isolation(false)]
pub fn place_bitmap(bitmap: &Vec<Vec<bool>>, off_x: i32, off_y: i32) -> (r: Vec<Vec<bool>>)
    requires
        bitmap@.len() <= 10_000,
        forall|dy: int| 0 <= dy < bitmap@.len() ==> (#[trigger] bitmap@[dy])@.len() <= 10_000,
    ensures
        r@.len() == VIRTUAL_HEIGHT as int,
        forall|py: int| 0 <= py < VIRTUAL_HEIGHT as int ==> (#[trigger] r@[py])@.len()
            == VIRTUAL_WIDTH as int,
        forall|py: int, px: int|
            0 <= py < VIRTUAL_HEIGHT as int && 0 <= px < VIRTUAL_WIDTH as int
                ==> #[trigger] r@[py]@[px] == {
                let dy = py - off_y;
                let dx = px - off_x;
                &&& 0 <= dy < bitmap@.len()
            &&& 0 <= dx < bitmap@[dy]@.len()
            &&& bitmap@[dy]@[dx]
            },
{
    let mut rows: Vec<Vec<bool>> = Vec::new();
    let mut py: i32 = 0;
    while py < VIRTUAL_HEIGHT
        invariant
            0 <= py <= VIRTUAL_HEIGHT,
            rows@.len() == py,
            forall|y2: int| 0 <= y2 < py ==> (#[trigger] rows@[y2])@.len() == VIRTUAL_WIDTH as int,
            forall|y2: int, x2: int|
                0 <= y2 < py && 0 <= x2 < VIRTUAL_WIDTH as int ==> #[trigger] rows@[y2]@[x2] == {
                    let dy = y2 - off_y;
                    let dx = x2 - off_x;
                    &&& 0 <= dy < bitmap@.len()
                &&& 0 <= dx < bitmap@[dy]@.len()
                &&& bitmap@[dy]@[dx]
                },
        decreases VIRTUAL_HEIGHT - py,
    {
        let mut row: Vec<bool> = Vec::new();
        let mut px: i32 = 0;
        while px < VIRTUAL_WIDTH
            invariant
                0 <= px <= VIRTUAL_WIDTH,
                0 <= py < VIRTUAL_HEIGHT,
                row@.len() == px,
                forall|x2: int|
                    0 <= x2 < px ==> #[trigger] row@[x2] == {
                        let dy = py as int - off_y;
                        let dx = x2 - off_x;
                        &&& 0 <= dy < bitmap@.len()
                    &&& 0 <= dx < bitmap@[dy]@.len()
                    &&& bitmap@[dy]@[dx]
                    },
            decreases VIRTUAL_WIDTH - px,
        {
            let dy = py as i64 - off_y as i64;
            let dx = px as i64 - off_x as i64;
            let inside = 0 <= dy && dy < bitmap.len() as i64;
            let value = if inside {
                let brow = &bitmap[dy as usize];
                if 0 <= dx && dx < brow.len() as i64 {
                    brow[dx as usize]
                } else {
                    false
                }
            } else {
                false
            };
            row.push(value);
            px += 1;
        }
        rows.push(row);
        py += 1;
    }
    rows
}

} // verus!
