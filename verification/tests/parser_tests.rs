//! The reply mini-grammar: the sentinel, the structured form, and the
//! degraded free-text form.

use reader_buddy::parser::{extract_field, parse_analysis_response, parse_bounding_box};

#[test]
fn none_sentinel_yields_no_result() {
    assert!(parse_analysis_response("NONE", Vec::new()).is_none());
}

#[test]
fn none_sentinel_is_case_insensitive_and_trimmed() {
    assert!(parse_analysis_response("  none", Vec::new()).is_none());
    assert!(parse_analysis_response("\nNoNe of that\n", Vec::new()).is_none());
}

#[test]
fn structured_reply_parses_fields() {
    let reply = "QUESTION: X\nQUESTION_BOX: 1,2,3,4\nOUTLINE_BOX: 5,6,7,8\n---\nANSWER: Y";
    let r = parse_analysis_response(reply, vec![9u8]).unwrap();
    assert_eq!(r.question, "X");
    assert_eq!(r.answer, "Y");
    let qb = r.question_box.unwrap();
    assert_eq!((qb.x, qb.y, qb.width, qb.height), (1, 2, 3, 4));
    let ob = r.outline_box.unwrap();
    assert_eq!((ob.x, ob.y, ob.width, ob.height), (5, 6, 7, 8));
    assert_eq!(r.screenshot_data, vec![9u8]);
}

#[test]
fn free_text_degrades_to_placeholder() {
    let reply = "I could not find any separator in here.";
    let r = parse_analysis_response(reply, Vec::new()).unwrap();
    assert_eq!(r.question, "What does this mean?");
    assert_eq!(r.answer, reply);
    assert!(r.question_box.is_none());
    assert!(r.outline_box.is_none());
}

#[test]
fn answer_without_label_is_trimmed_text() {
    let reply = "QUESTION: q\n---\n  just text  ";
    let r = parse_analysis_response(reply, Vec::new()).unwrap();
    assert_eq!(r.answer, "just text");
}

#[test]
fn second_separator_cuts_the_answer() {
    let reply = "QUESTION: q\n---\nANSWER: first\n---\nsecond";
    let r = parse_analysis_response(reply, Vec::new()).unwrap();
    assert_eq!(r.answer, "first");
}

#[test]
fn bounding_box_accepts_spaces_and_signs() {
    let b = parse_bounding_box(" 1 , 2 ,3, 4 ").unwrap();
    assert_eq!((b.x, b.y, b.width, b.height), (1, 2, 3, 4));
    let n = parse_bounding_box("-1,-2,+3,4").unwrap();
    assert_eq!((n.x, n.y, n.width, n.height), (-1, -2, 3, 4));
}

#[test]
fn bounding_box_rejects_wrong_arity_or_text() {
    assert!(parse_bounding_box("1,2,3").is_none());
    assert!(parse_bounding_box("1,2,3,4,5").is_none());
    assert!(parse_bounding_box("a,b,c,d").is_none());
    assert!(parse_bounding_box("").is_none());
    assert!(parse_bounding_box("1,2,3,99999999999").is_none());
}

#[test]
fn extract_field_takes_first_labelled_line() {
    let text = "HEAD\nQUESTION: hello there \nQUESTION: second";
    assert_eq!(extract_field(text, "QUESTION:"), "hello there");
    assert_eq!(extract_field(text, "MISSING:"), "");
}

#[test]
fn extract_field_requires_line_start() {
    let text = "say QUESTION: nope\nQUESTION: yes";
    assert_eq!(extract_field(text, "QUESTION:"), "yes");
}
