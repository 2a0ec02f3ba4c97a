//! The mini-grammar of the analysis boundary's reply. A literal
//! sentinel means "no result"; otherwise a header of labelled lines
//! carries the question and optional boxes, a separator line divides
//! it from the answer section, and any deviation degrades to a
//! placeholder question with the whole reply as the answer — never an
//! error.

use vstd::prelude::*;

use crate::geometry::BoundingBox;
use crate::strutil;
use crate::touch::sp_fold_char;

verus! {

/// The reply is the no-result sentinel: after trimming, it begins
/// with the word `NONE` in any letter case.
pub open spec fn sp_none_reply(s: Seq<char>) -> bool {
    let t = strutil::sp_trim(s);
    t.len() >= 4 && sp_fold_char(t[0]) == 'n' as int && sp_fold_char(t[1]) == 'o' as int
        && sp_fold_char(t[2]) == 'n' as int && sp_fold_char(t[3]) == 'e' as int
}

/// Position of the first field line at or after `from`: a position at
/// the start of a line where the field label stands.
pub open spec fn sp_field_pos(s: Seq<char>, label: Seq<char>, from: int) -> Option<int>
    decreases s.len() - from,
{
    if from < 0 || from + label.len() > s.len() || label.len() == 0 {
        None
    } else if (from == 0 || s[from - 1] == '\n') && strutil::sp_matches_at(s, label, from) {
        Some(from)
    } else {
        sp_field_pos(s, label, from + 1)
    }
}

/// The value of the first line labelled `label`: the rest of that
/// line, trimmed; empty when no line carries the label.
pub open spec fn sp_extract_field(s: Seq<char>, label: Seq<char>) -> Seq<char> {
    match sp_field_pos(s, label, 0) {
        None => Seq::empty(),
        Some(p) => strutil::sp_trim(
            s.subrange(p + label.len(), strutil::sp_line_end(s, p + label.len())),
        ),
    }
}

/// A comma-separated field of a box line, trimmed and read as a 32-bit
/// decimal integer.
pub open spec fn sp_box_part(part: Seq<char>) -> Option<int> {
    let t = strutil::sp_trim(part);
    if strutil::sp_is_int_literal(t) && i32::MIN <= strutil::sp_int_val(t) <= i32::MAX {
        Some(strutil::sp_int_val(t))
    } else {
        None
    }
}

/// A box given as four comma-separated decimal numbers
/// `x,y,width,height`; anything else is no box.
pub open spec fn sp_parse_bbox(s: Seq<char>) -> Option<BoundingBox> {
    match strutil::sp_find_char(s, ',', 0) {
        None => None,
        Some(c1) => match strutil::sp_find_char(s, ',', c1 + 1) {
            None => None,
            Some(c2) => match strutil::sp_find_char(s, ',', c2 + 1) {
                None => None,
                Some(c3) => if strutil::sp_find_char(s, ',', c3 + 1) is Some {
                    None
                } else {
                    let p0 = sp_box_part(s.subrange(0, c1));
                    let p1 = sp_box_part(s.subrange(c1 + 1, c2));
                    let p2 = sp_box_part(s.subrange(c2 + 1, c3));
                    let p3 = sp_box_part(s.subrange(c3 + 1, s.len() as int));
                    if p0 is Some && p1 is Some && p2 is Some && p3 is Some {
                        Some(
                            BoundingBox {
                                x: p0->0 as i32,
                                y: p1->0 as i32,
                                width: p2->0 as i32,
                                height: p3->0 as i32,
                            },
                        )
                    } else {
                        None
                    }
                },
            },
        },
    }
}

/// The question the reply carries: the labelled header field before
/// the separator, or the fixed placeholder when the reply has no
/// separator at all.
pub open spec fn sp_parsed_question(s: Seq<char>) -> Seq<char> {
    match strutil::sp_find(s, "---"@, 0) {
        None => "What does this mean?"@,
        Some(p) => sp_extract_field(s.subrange(0, p), "QUESTION:"@),
    }
}

/// The answer section: the text between the first separator and the
/// next (or the end), trimmed, with a leading answer label removed;
/// without a separator, the whole reply stands as the answer.
pub open spec fn sp_parsed_answer(s: Seq<char>) -> Seq<char> {
    match strutil::sp_find(s, "---"@, 0) {
        None => s,
        Some(p) => {
            let stop = match strutil::sp_find(s, "---"@, p + 3) {
                Some(q) => q,
                None => s.len() as int,
            };
            let t = strutil::sp_trim(s.subrange(p + 3, stop));
            if strutil::sp_matches_at(t, "ANSWER:"@, 0) {
                strutil::sp_trim(t.subrange(7, t.len() as int))
            } else {
                t
            }
        },
    }
}

/// The question box the reply names, if its header has one.
pub open spec fn sp_parsed_question_box(s: Seq<char>) -> Option<BoundingBox> {
    match strutil::sp_find(s, "---"@, 0) {
        None => None,
        Some(p) => sp_parse_bbox(sp_extract_field(s.subrange(0, p), "QUESTION_BOX:"@)),
    }
}

/// The outline box the reply names, if its header has one.
pub open spec fn sp_parsed_outline_box(s: Seq<char>) -> Option<BoundingBox> {
    match strutil::sp_find(s, "---"@, 0) {
        None => None,
        Some(p) => sp_parse_bbox(sp_extract_field(s.subrange(0, p), "OUTLINE_BOX:"@)),
    }
}

/// What one analysis round produced: the question and answer text,
/// the optional boxes locating them, and the frame the reply was
/// derived from, consumed exactly once by the render step.
pub struct AnalysisResult {
    pub question: String,
    pub answer: String,
    pub question_box: Option<BoundingBox>,
    pub outline_box: Option<BoundingBox>,
    pub screenshot_data: Vec<u8>,
}

/// Position of the first field line at or after `from`.
fn field_pos(s: &str, label: &str, from: usize) -> (r: Option<usize>)
    ensures
        match r {
            Some(i) => sp_field_pos(s@, label@, from as int) == Some(i as int),
            None => sp_field_pos(s@, label@, from as int) is None,
        },
    decreases s@.len() - from,
{
    let n = s.unicode_len();
    let m = label.unicode_len();
    if from > n || m > n - from || m == 0 {
        return None;
    }
    if (from == 0 || s.get_char(from - 1) == '\n') && strutil::matches_at(s, label, from) {
        return Some(from);
    }
    field_pos(s, label, from + 1)
}

/// The value of the first line labelled `label`, trimmed; empty when
/// absent.
pub fn extract_field(text: &str, field_name: &str) -> (r: String)
    ensures
        r@ == sp_extract_field(text@, field_name@),
{
    match field_pos(text, field_name, 0) {
        None => String::new(),
        Some(p) => {
            proof {
                lemma_field_pos_bounds(text@, field_name@, 0);
                strutil::lemma_find_char_props(text@, '\n', p + field_name@.len());
            }
            let n = text.unicode_len();
            let start = p + field_name.unicode_len();
            let stop = match strutil::find_char(text, '\n', start) {
                Some(i) => i,
                None => n,
            };
            let value = text.substring_char(start, stop);
            strutil::trim_str(value)
        },
    }
}

/// A found field lies within the text.
proof fn lemma_field_pos_bounds(s: Seq<char>, label: Seq<char>, from: int)
    requires
        from >= 0,
    ensures
        match sp_field_pos(s, label, from) {
            Some(i) => from <= i && i + label.len() <= s.len(),
            None => true,
        },
    decreases s.len() - from,
{
    if from + label.len() > s.len() || label.len() == 0 {
    } else if (from == 0 || s[from - 1] == '\n') && strutil::sp_matches_at(s, label, from) {
    } else {
        lemma_field_pos_bounds(s, label, from + 1);
    }
}

/// Read a comma-separated field as a 32-bit number.
fn box_part(s: &str, from: usize, to: usize) -> (r: Option<i32>)
    requires
        from <= to <= s@.len(),
    ensures
        match r {
            Some(v) => sp_box_part(s@.subrange(from as int, to as int)) == Some(v as int),
            None => sp_box_part(s@.subrange(from as int, to as int)) is None,
        },
{
    let part = s.substring_char(from, to);
    let t = strutil::trim_str(part);
    strutil::parse_i32(t.as_str())
}

/// Parse a box given as `x,y,width,height` in decimal; anything else
/// is no box, never an error.
pub fn parse_bounding_box(text: &str) -> (r: Option<BoundingBox>)
    ensures
        r == sp_parse_bbox(text@),
{
    let n = text.unicode_len();
    proof {
        strutil::lemma_find_char_props(text@, ',', 0);
    }
    let c1 = match strutil::find_char(text, ',', 0) {
        Some(i) => i,
        None => {
            return None;
        },
    };
    proof {
        strutil::lemma_find_char_props(text@, ',', c1 + 1);
    }
    let c2 = match strutil::find_char(text, ',', c1 + 1) {
        Some(i) => i,
        None => {
            return None;
        },
    };
    proof {
        strutil::lemma_find_char_props(text@, ',', c2 + 1);
    }
    let c3 = match strutil::find_char(text, ',', c2 + 1) {
        Some(i) => i,
        None => {
            return None;
        },
    };
    if let Some(_) = strutil::find_char(text, ',', c3 + 1) {
        return None;
    }
    let p0 = box_part(text, 0, c1);
    let p1 = box_part(text, c1 + 1, c2);
    let p2 = box_part(text, c2 + 1, c3);
    let p3 = box_part(text, c3 + 1, n);
    match (p0, p1, p2, p3) {
        (Some(x), Some(y), Some(w), Some(h)) => Some(
            BoundingBox { x, y, width: w, height: h },
        ),
        _ => None,
    }
}

/// Whether the reply is the no-result sentinel.
pub fn is_none_reply(response: &str) -> (r: bool)
    ensures
        r == sp_none_reply(response@),
{
    let (a, b) = strutil::trim_bounds(response);
    if b - a < 4 {
        return false;
    }
    let c0 = response.get_char(a);
    let c1 = response.get_char(a + 1);
    let c2 = response.get_char(a + 2);
    let c3 = response.get_char(a + 3);
    proof {
        let t = strutil::sp_trim(response@);
        assert(t[0] == response@[a as int] && t[1] == response@[a as int + 1] && t[2]
            == response@[a as int + 2] && t[3] == response@[a as int + 3]);
    }
    fold_is(c0, 'n') && fold_is(c1, 'o') && fold_is(c2, 'n') && fold_is(c3, 'e')
}

/// Whether a character case-folds to the given lowercase letter.
fn fold_is(c: char, lower: char) -> (r: bool)
    ensures
        r == (sp_fold_char(c) == lower as int),
{
    let f: u32 = if c >= 'A' && c <= 'Z' {
        c as u32 + 32
    } else {
        c as u32
    };
    f == lower as u32
}

/// Parse one analysis reply. The sentinel yields no result; a reply
/// without a separator degrades to the placeholder question and the
/// whole reply as the answer; otherwise the header fields name the
/// question and the boxes, and the section after the separator the
/// answer. The frame handed in rides along for the render step.
pub fn parse_analysis_response(response: &str, screenshot_data: Vec<u8>) -> (r: Option<
    AnalysisResult,
>)
    ensures
        match r {
            None => sp_none_reply(response@),
            Some(res) => !sp_none_reply(response@) && res.question@ == sp_parsed_question(
                response@,
            ) && res.answer@ == sp_parsed_answer(response@) && res.question_box
                == sp_parsed_question_box(response@) && res.outline_box == sp_parsed_outline_box(
                response@,
            ) && res.screenshot_data@ == screenshot_data@,
        },
{
    if is_none_reply(response) {
        return None;
    }
    proof {
        reveal_strlit("---");
        reveal_strlit("ANSWER:");
    }
    let sep = strutil::find_from(response, "---", 0);
    match sep {
        None => Some(
            AnalysisResult {
                question: String::from_str("What does this mean?"),
                answer: String::from_str(response),
                question_box: None,
                outline_box: None,
                screenshot_data,
            },
        ),
        Some(p) => {
            proof {
                lemma_find_ge(response@, "---"@, 0);
            }
            let n = response.unicode_len();
            let header = response.substring_char(0, p);
            let stop = match strutil::find_from(response, "---", p + 3) {
                Some(q) => {
                    proof {
                        lemma_find_ge(response@, "---"@, p + 3);
                    }
                    q
                },
                None => n,
            };
            let part1 = response.substring_char(p + 3, stop);
            let t = strutil::trim_str(part1);
            let answer: String = if strutil::matches_at(t.as_str(), "ANSWER:", 0) {
                let rest = t.as_str().substring_char(7, t.as_str().unicode_len());
                strutil::trim_str(rest)
            } else {
                proof {
                    assert(t@ == strutil::sp_trim(response@.subrange(p + 3, stop as int)));
                }
                t
            };
            let question = extract_field(header, "QUESTION:");
            let question_box = parse_bounding_box(extract_field(header, "QUESTION_BOX:").as_str());
            let outline_box = parse_bounding_box(extract_field(header, "OUTLINE_BOX:").as_str());
            Some(
                AnalysisResult {
                    question,
                    answer,
                    question_box,
                    outline_box,
                    screenshot_data,
                },
            )
        },
    }
}

/// A found occurrence starts no earlier than the search start and fits
/// in the text.
proof fn lemma_find_ge(s: Seq<char>, pat: Seq<char>, from: int)
    requires
        from >= 0,
    ensures
        match strutil::sp_find(s, pat, from) {
            Some(i) => from <= i && i + pat.len() <= s.len(),
            None => true,
        },
    decreases s.len() - from,
{
    if from + pat.len() > s.len() {
    } else if pat.len() == 0 {
    } else if strutil::sp_matches_at(s, pat, from) {
    } else {
        lemma_find_ge(s, pat, from + 1);
    }
}

} // verus!
