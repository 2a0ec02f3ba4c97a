//! The optical detectors of outlined regions and nearby handwritten
//! questions. Optical detection is not implemented; the analysis
//! boundary's reply carries the boxes instead, so these detectors
//! report nothing and the context type simply pairs a region with its
//! question.

use vstd::prelude::*;

use crate::errors::Error;
use crate::geometry::BoundingBox;

verus! {

/// A circled region paired with the question written near it.
pub struct QuestionContext {
    pub circled_region: BoundingBox,
    pub question_text: String,
    pub question_region: Option<BoundingBox>,
    pub screenshot_base64: String,
}

impl QuestionContext {
    pub fn new(
        circled_region: BoundingBox,
        question_text: String,
        question_region: Option<BoundingBox>,
        screenshot_base64: String,
    ) -> (r: QuestionContext)
        ensures
            r.circled_region == circled_region,
            r.question_text == question_text,
            r.question_region == question_region,
            r.screenshot_base64 == screenshot_base64,
    {
        QuestionContext { circled_region, question_text, question_region, screenshot_base64 }
    }
}

/// Detects circled regions in an image.
pub struct CircleDetector;

impl CircleDetector {
    /// Vision-based circle detection finds nothing yet: the analysis
    /// boundary names the boxes instead.
    pub fn detect_via_llm(base64_image: &str) -> (r: Result<Vec<BoundingBox>, Error>)
        ensures
            match r {
                Ok(boxes) => boxes@.len() == 0,
                Err(_) => false,
            },
    {
        Ok(Vec::new())
    }
}

/// Extracts question text near circled regions.
pub struct QuestionExtractor;

impl QuestionExtractor {
    /// Pair a circled region with a placeholder question; reading the
    /// handwriting is the analysis boundary's job.
    pub fn extract_question_for_circle(
        circled_region: &BoundingBox,
        full_screenshot_base64: &str,
    ) -> (r: Result<QuestionContext, Error>)
        ensures
            match r {
                Ok(ctx) => ctx.circled_region == *circled_region && ctx.question_text@
                    == "What is this?"@ && ctx.question_region is None && ctx.screenshot_base64@
                    == full_screenshot_base64@,
                Err(_) => false,
            },
    {
        Ok(
            QuestionContext {
                circled_region: *circled_region,
                question_text: String::from_str("What is this?"),
                question_region: None,
                screenshot_base64: String::from_str(full_screenshot_base64),
            },
        )
    }
}

} // verus!
