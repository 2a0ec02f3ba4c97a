//! Page navigation and creation, built only on touch primitives:
//! directional swipes for turning pages, and the scripted sequence of
//! taps that drives the host's own menu to insert a page. The script's
//! coordinates are empirically fixed; since its effect cannot be
//! verified locally, a failed gesture is only detected by a later
//! probe, never by aborting the sequence.

use vstd::prelude::*;

use crate::device_model::DeviceModel;
use crate::events::{delay_ms, lemma_concat_assoc, PlanItem};
use crate::touch::{sp_tap_events, sp_touch_goto_events, sp_touch_start_events, sp_touch_stop_events, Touch};

verus! {

/// Which way a page turn goes.
#[derive(Debug, Clone, Copy, PartialEq, Eq, Structural)]
pub enum NavigationDirection {
    Next,
    Previous,
}

/// Where a swipe starts: at the right edge for a next-page turn, at
/// the left edge for a previous-page turn, at middle height.
pub open spec fn sp_swipe_start_x(dir: NavigationDirection) -> int {
    match dir {
        NavigationDirection::Next => 700,
        NavigationDirection::Previous => 100,
    }
}

/// The `k`-th interpolated swipe position: forty canonical units per
/// step, fifteen steps, toward the opposite edge.
pub open spec fn sp_swipe_x(dir: NavigationDirection, k: int) -> int {
    match dir {
        NavigationDirection::Next => 700 - 40 * k,
        NavigationDirection::Previous => 100 + 40 * k,
    }
}

/// The time-spaced position updates of the first `k` swipe steps.
pub open spec fn sp_swipe_gotos(model: DeviceModel, dir: NavigationDirection, k: int) -> Seq<
    PlanItem,
>
    decreases k,
{
    if k <= 0 {
        Seq::empty()
    } else {
        sp_swipe_gotos(model, dir, k - 1) + sp_touch_goto_events(model, sp_swipe_x(dir, k), 512)
            + seq![PlanItem::DelayMs(10)]
    }
}

/// A whole directional swipe: press at the edge, a short hold, fifteen
/// time-spaced steps across the screen, release.
pub open spec fn sp_swipe_plan(model: DeviceModel, dir: NavigationDirection) -> Seq<PlanItem> {
    sp_touch_start_events(model, sp_swipe_start_x(dir), 512) + seq![PlanItem::DelayMs(50)]
        + sp_swipe_gotos(model, dir, 15) + sp_touch_stop_events()
}

/// A page turn: the swipe, then the pause that lets the page settle.
pub open spec fn sp_navigate_plan(model: DeviceModel, dir: NavigationDirection) -> Seq<PlanItem> {
    sp_swipe_plan(model, dir) + seq![PlanItem::DelayMs(500)]
}

/// The scripted menu sequence that inserts a page after the current
/// one: page overview, page menu, the add-page item, dismiss.
pub open spec fn sp_create_page_plan(model: DeviceModel) -> Seq<PlanItem> {
    sp_tap_events(model, 700, 50) + seq![PlanItem::DelayMs(800)] + sp_tap_events(model, 650, 400)
        + seq![PlanItem::DelayMs(500)] + sp_tap_events(model, 384, 450) + seq![
        PlanItem::DelayMs(800),
    ] + sp_tap_events(model, 100, 900) + seq![PlanItem::DelayMs(500)]
}

/// Integration with the host's native page management, driven through
/// its on-screen menu.
pub struct XochitlIntegration;

impl XochitlIntegration {
    /// Plan the menu-tap script that creates a page after the current
    /// one.
    pub fn create_page_after_current(touch: &mut Touch)
        ensures
            final(touch).plan@ == old(touch).plan@ + sp_create_page_plan(old(touch).model),
            final(touch).model == old(touch).model,
            final(touch).trigger_corner == old(touch).trigger_corner,
    {
        let ghost base = touch.plan@;
        touch.tap_at((700, 50));
        touch.plan.push(delay_ms(800));
        touch.tap_at((650, 400));
        touch.plan.push(delay_ms(500));
        touch.tap_at((384, 450));
        touch.plan.push(delay_ms(800));
        touch.tap_at((100, 900));
        touch.plan.push(delay_ms(500));
        proof {
            assert(touch.plan@ =~= base + sp_create_page_plan(old(touch).model));
        }
    }

    /// Plan one page turn in the given direction.
    pub fn navigate_to_page(touch: &mut Touch, direction: NavigationDirection)
        ensures
            final(touch).plan@ == old(touch).plan@ + sp_navigate_plan(
                old(touch).model,
                direction,
            ),
            final(touch).model == old(touch).model,
            final(touch).trigger_corner == old(touch).trigger_corner,
    {
        let ghost base = touch.plan@;
        Self::swipe(touch, direction);
        touch.plan.push(delay_ms(500));
        proof {
            assert(touch.plan@ =~= base + sp_navigate_plan(old(touch).model, direction));
        }
    }

    /// Plan a directional swipe: press at the edge, hold briefly, walk
    /// fifteen interpolated positions with pauses, release.
    #[verifier::loop_isolation(false)]
    fn swipe(touch: &mut Touch, dir: NavigationDirection)
        ensures
            final(touch).plan@ == old(touch).plan@ + sp_swipe_plan(old(touch).model, dir),
            final(touch).model == old(touch).model,
            final(touch).trigger_corner == old(touch).trigger_corner,
    {
        let start_x: i32 = match dir {
            NavigationDirection::Next => 700,
            NavigationDirection::Previous => 100,
        };
        touch.touch_start((start_x, 512));
        touch.plan.push(delay_ms(50));
        let ghost head = old(touch).plan@ + sp_touch_start_events(
            old(touch).model,
            sp_swipe_start_x(dir) as int,
            512,
        ) + seq![PlanItem::DelayMs(50)];
        proof {
            assert(touch.plan@ =~= head);
        }
        let mut k: i32 = 1;
        while k <= 15
            invariant
                1 <= k <= 16,
                touch.plan@ == head + sp_swipe_gotos(old(touch).model, dir, k as int - 1),
                touch.model == old(touch).model,
                touch.trigger_corner == old(touch).trigger_corner,
            decreases 16 - k,
        {
            let x: i32 = match dir {
                NavigationDirection::Next => 700 - 40 * k,
                NavigationDirection::Previous => 100 + 40 * k,
            };
            let ghost mid = sp_swipe_gotos(old(touch).model, dir, k as int - 1);
            touch.goto_xy((x, 512));
            touch.plan.push(delay_ms(10));
            proof {
                lemma_concat_assoc(
                    head,
                    mid,
                    sp_touch_goto_events(old(touch).model, sp_swipe_x(dir, k as int), 512) + seq![
                        PlanItem::DelayMs(10),
                    ],
                );
                assert(touch.plan@ =~= head + (mid + (sp_touch_goto_events(
                    old(touch).model,
                    sp_swipe_x(dir, k as int),
                    512,
                ) + seq![PlanItem::DelayMs(10)])));
            }
            k += 1;
        }
        touch.touch_stop();
        proof {
            assert(touch.plan@ =~= old(touch).plan@ + sp_swipe_plan(old(touch).model, dir));
        }
    }
}

/// Page navigation and creation built on the host integration.
pub struct PageManager;

impl PageManager {
    /// Plan the creation of a new page to the right of the current
    /// one, then the turn onto it.
    pub fn create_page_right(touch: &mut Touch)
        ensures
            final(touch).plan@ == old(touch).plan@ + sp_create_page_plan(old(touch).model) + seq![
                PlanItem::DelayMs(300),
            ] + sp_navigate_plan(old(touch).model, NavigationDirection::Next),
            final(touch).model == old(touch).model,
            final(touch).trigger_corner == old(touch).trigger_corner,
    {
        XochitlIntegration::create_page_after_current(touch);
        touch.plan.push(delay_ms(300));
        XochitlIntegration::navigate_to_page(touch, NavigationDirection::Next);
    }

    /// Plan a turn to the next page.
    pub fn next_page(touch: &mut Touch)
        ensures
            final(touch).plan@ == old(touch).plan@ + sp_navigate_plan(
                old(touch).model,
                NavigationDirection::Next,
            ),
            final(touch).model == old(touch).model,
            final(touch).trigger_corner == old(touch).trigger_corner,
    {
        XochitlIntegration::navigate_to_page(touch, NavigationDirection::Next);
    }

    /// Plan a turn to the previous page.
    pub fn previous_page(touch: &mut Touch)
        ensures
            final(touch).plan@ == old(touch).plan@ + sp_navigate_plan(
                old(touch).model,
                NavigationDirection::Previous,
            ),
            final(touch).model == old(touch).model,
            final(touch).trigger_corner == old(touch).trigger_corner,
    {
        XochitlIntegration::navigate_to_page(touch, NavigationDirection::Previous);
    }
}

} // verus!
