//! Rendering a question-answer pair as keystrokes, and the placeholder
//! glyph raster.

use vstd::prelude::*;

use crate::keyboard::{sp_type_plan, Keyboard};
use crate::pen::Pen;

verus! {

/// Renders content to the screen through the keyboard.
pub struct Renderer;

impl Renderer {
    /// Type a question-answer pair: the labelled question, a blank
    /// line, then the labelled answer. The pen is handed in for future
    /// marker drawing but left untouched.
    pub fn render_qa_pair(
        keyboard: &mut Keyboard,
        pen: &mut Pen,
        question: &str,
        answer: &str,
        symbol: &str,
    )
        ensures
            final(keyboard).plan@ == old(keyboard).plan@ + sp_type_plan(
                "Q: "@ + question@ + "\n\n"@,
            ) + sp_type_plan("A: "@ + answer@ + "\n\n"@),
            final(keyboard).progress_count == old(keyboard).progress_count,
            final(keyboard).no_draw_progress == old(keyboard).no_draw_progress,
            *final(pen) == *old(pen),
    {
        let mut q = String::from_str("Q: ");
        q.append(question);
        q.append("\n\n");
        keyboard.string_to_keypresses(q.as_str());
        let mut a = String::from_str("A: ");
        a.append(answer);
        a.append("\n\n");
        keyboard.string_to_keypresses(a.as_str());
    }

    /// A blank glyph raster placeholder: a small all-clear grid.
    pub fn create_symbol_glyph(symbol: &str) -> (r: Vec<Vec<bool>>)
        ensures
            r@.len() == 10,
            forall|y: int| 0 <= y < 10 ==> (#[trigger] r@[y])@.len() == 10,
            forall|y: int, x: int| 0 <= y < 10 && 0 <= x < 10 ==> !(#[trigger] r@[y]@[x]),
    {
        let mut rows: Vec<Vec<bool>> = Vec::new();
        let mut y: usize = 0;
        while y < 10
            invariant
                y <= 10,
                rows@.len() == y,
                forall|y2: int| 0 <= y2 < y ==> (#[trigger] rows@[y2])@.len() == 10,
                forall|y2: int, x2: int|
                    0 <= y2 < y && 0 <= x2 < 10 ==> !(#[trigger] rows@[y2]@[x2]),
            decreases 10 - y,
        {
            let mut row: Vec<bool> = Vec::new();
            let mut x: usize = 0;
            while x < 10
                invariant
                    x <= 10,
                    row@.len() == x,
                    forall|x2: int| 0 <= x2 < x ==> !(#[trigger] row@[x2]),
                decreases 10 - x,
            {
                row.push(false);
                x += 1;
            }
            rows.push(row);
            y += 1;
        }
        rows
    }
}

} // verus!
