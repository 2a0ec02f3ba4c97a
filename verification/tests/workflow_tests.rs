//! The composed workflow: device detection, selective erasing through
//! the PNG boundary, the answer-page probe, and the render phases.

use reader_buddy::codecs::encode_png_luma;
use reader_buddy::events::{EventKind, PlanItem};
use reader_buddy::errors::Error;
use reader_buddy::screenshot::Screenshot;
use reader_buddy::orchestrator::{
    erasable_box, next_state, IterationEvent, IterationState, Orchestrator,
};
use reader_buddy::parser::parse_analysis_response;
use reader_buddy::workflow::Workflow;
use reader_buddy::{BoundingBox, DeviceModel, SymbolPool, TriggerCorner};

fn workflow() -> Workflow {
    Workflow::new(DeviceModel::Remarkable2, TriggerCorner::LowerRight)
}

#[test]
fn detection_matches_known_signatures() {
    assert_eq!(
        DeviceModel::detect_from_content(Some("board: ferrari 1.0 rev A")),
        DeviceModel::RemarkablePaperPro
    );
    assert_eq!(
        DeviceModel::detect_from_content(Some("reMarkable2 1.0")),
        DeviceModel::Remarkable2
    );
    assert_eq!(DeviceModel::detect_from_content(Some("who knows")), DeviceModel::Unknown);
    assert_eq!(DeviceModel::detect_from_content(None), DeviceModel::Unknown);
}

fn stripe_png(w: u32, h: u32, dark_rows: &[u32]) -> Vec<u8> {
    let mut img = vec![255u8; (w * h) as usize];
    for &y in dark_rows {
        for x in 0..w {
            img[(y * w + x) as usize] = 0;
        }
    }
    encode_png_luma(&img, w, h).unwrap()
}

#[test]
fn smart_erase_selects_only_ink_rows_through_the_png_boundary() {
    let mut wf = workflow();
    let png = stripe_png(100, 120, &[40, 41]);
    let region = BoundingBox { x: 10, y: 20, width: 50, height: 60 };
    let rows = wf.erase_region_smart(&region, &png).unwrap();
    assert_eq!(rows, vec![38, 39, 40, 41, 42, 43]);
    let plan = wf.pen.take_plan();
    assert!(plan.len() > 0);
}

#[test]
fn smart_erase_on_garbage_bytes_fails_cleanly() {
    let mut wf = workflow();
    let region = BoundingBox { x: 10, y: 20, width: 50, height: 60 };
    assert!(wf.erase_region_smart(&region, &vec![1, 2, 3]).is_err());
    assert_eq!(wf.pen.take_plan().len(), 0);
}

#[test]
fn probe_decision_matches_the_header_threshold() {
    // A page with an inked header row (768 dark pixels) is an answer
    // page; a blank page is not; garbage bytes are not.
    let marked = stripe_png(768, 1024, &[10]);
    assert!(Workflow::probe_decision(&marked));
    let blank = stripe_png(768, 1024, &[]);
    assert!(!Workflow::probe_decision(&blank));
    assert!(!Workflow::probe_decision(&vec![0, 1, 2]));
}

#[test]
fn probe_exit_always_navigates_back() {
    let mut wf = workflow();
    let before = wf.touch.take_plan().len();
    assert_eq!(before, 0);
    // Even with no captured frame, the probe turns back one page.
    let decision = wf.probe_exit(None);
    assert!(!decision);
    let plan = wf.touch.take_plan();
    assert!(plan.len() > 0);

    // And with a frame, the same navigation happens either way.
    let marked = stripe_png(768, 1024, &[10]);
    let yes = wf.probe_exit(Some(&marked));
    assert!(yes);
    let plan_yes = wf.touch.take_plan();
    assert_eq!(plan.len(), plan_yes.len());
}

#[test]
fn format_qa_is_the_glyph_prefixed_block() {
    let s = Orchestrator::format_qa("\u{2460}", "why?", "because.");
    assert_eq!(s, "\u{2460} Q: why?\n\nA: because.\n\n---\n\n");
}

#[test]
fn symbol_position_is_the_clamped_center_or_fallback() {
    let b = BoundingBox { x: 100, y: 100, width: 50, height: 50 };
    assert_eq!(Orchestrator::symbol_position(&Some(b)), (125, 125));
    assert_eq!(Orchestrator::symbol_position(&None), (50, 950));
    let wide = BoundingBox { x: -500, y: 2000, width: 5000, height: 10 };
    let (sx, sy) = Orchestrator::symbol_position(&Some(wide));
    assert!((0..=767).contains(&sx));
    assert!((0..=1023).contains(&sy));
}

#[test]
fn erasable_box_fits_the_workspace() {
    let wild = BoundingBox { x: -100, y: 5000, width: 9999, height: -3 };
    let e = erasable_box(&wild);
    assert!(e.x >= 0 && e.y >= 0);
    assert!(e.width >= 1 && e.height >= 1);
    assert!(e.x + e.width <= 768);
    assert!(e.y + e.height <= 1024);
}

#[test]
fn render_phases_allocate_a_glyph_and_keep_page_position() {
    let wf = workflow();
    let pool = SymbolPool::new();
    let mut orch = Orchestrator::new(wf, pool);
    let reply = "QUESTION: q\nQUESTION_BOX: 10,20,50,60\n---\nANSWER: a";
    let frame = stripe_png(100, 120, &[40]);
    let result = parse_analysis_response(reply, frame).unwrap();
    let (symbol, persist, rows) = orch.render_answer_begin(&result).unwrap();
    assert_eq!(symbol, "\u{2460}");
    assert_eq!(persist, "1");
    // The frame's ink stripe at row 40 selects rows 38..=42 of the box.
    assert_eq!(rows, vec![38, 39, 40, 41, 42]);
    // The probe entered: one forward navigation is planned.
    let forward = orch.workflow.touch.take_plan();
    assert!(forward.len() > 0);
    // Finish with a failed probe capture: the answer page is created,
    // and navigation returns to the source page.
    let reused = orch.render_answer_finish(&symbol, "q", "a", None);
    assert!(!reused);
    let rest = orch.workflow.touch.take_plan();
    assert!(rest.len() > forward.len());
}

#[test]
fn drawing_a_symbol_ends_with_the_pen_lifted() {
    let mut wf = workflow();
    wf.draw_symbol(100, 100, "\u{2460}");
    let plan = wf.pen.take_plan();
    let last_contact = plan.iter().rev().find_map(|item| match item {
        PlanItem::Emit(e) if e.kind == EventKind::Key && e.code == 330 => Some(e.value),
        _ => None,
    });
    assert_eq!(last_contact, Some(0));
}

#[test]
fn no_result_reply_renders_the_help_text() {
    let wf = workflow();
    let mut orch = Orchestrator::new(wf, SymbolPool::new());
    orch.handle_no_result();
    let plan = orch.workflow.keyboard.take_plan();
    assert!(plan.len() > 0);
}

#[test]
fn error_reporting_names_the_error() {
    assert_eq!(Error::CorruptLayout.describe(), "framebuffer layout is corrupt");
    assert_eq!(Error::DeviceNotFound.describe(), "device or mapping not found");
    let wf = workflow();
    let mut orch = Orchestrator::new(wf, SymbolPool::new());
    orch.render_error_text(Error::IoFailure);
    assert!(orch.workflow.keyboard.take_plan().len() > 0);
}

#[test]
fn capture_pipeline_produces_a_canonical_png() {
    let mut shot = Screenshot::new(DeviceModel::Remarkable2);
    // An all-white 16-bit frame: high bytes 255, tone-curved to white.
    let raw = vec![255u8; 1872 * 1404 * 2];
    shot.take_screenshot(raw).unwrap();
    let png = shot.get_image_data().to_vec();
    assert!(png.len() > 8);
    // The canonical PNG decodes back to an all-white 768 by 1024 page.
    let (pixels, w, h) = reader_buddy::codecs::decode_png_luma(&png).unwrap();
    assert_eq!((w, h), (768, 1024));
    assert!(pixels.iter().all(|&p| p == 255));
    // Whitening means the page is no answer page.
    assert!(!Workflow::probe_decision(&png));
    // The base64 form is padded to groups of four.
    let b64 = shot.base64();
    assert_eq!(b64.len() % 4, 0);
    assert!(b64.len() > 0);
}

#[test]
fn iteration_states_follow_the_protocol() {
    let s = IterationState::Idle;
    let s = next_state(s, IterationEvent::Rearmed);
    assert_eq!(s, IterationState::WaitingForTrigger);
    let s = next_state(s, IterationEvent::Triggered);
    assert_eq!(s, IterationState::Capturing);
    let s = next_state(s, IterationEvent::FrameCaptured);
    assert_eq!(s, IterationState::Analyzing);
    // A no-result reply short-circuits to idle.
    assert_eq!(
        next_state(s, IterationEvent::NoResultParsed),
        IterationState::Idle
    );
    let s = next_state(s, IterationEvent::ResultParsed);
    assert_eq!(s, IterationState::Rendering);
    let s = next_state(s, IterationEvent::Rendered);
    assert_eq!(s, IterationState::Idle);
    // A failure lands in idle from any state, and an event out of
    // order changes nothing.
    assert_eq!(
        next_state(IterationState::Rendering, IterationEvent::Failed),
        IterationState::Idle
    );
    assert_eq!(
        next_state(IterationState::Capturing, IterationEvent::Rendered),
        IterationState::Capturing
    );
}
