//! The input-event plan model. Every actuator primitive appends to a
//! plan of raw device events and timed pauses; an unverified shim
//! drains the plan and writes it to the device files. Keeping the
//! sequencing here means the protocol (what is emitted, in what order,
//! with what pauses) is what gets verified.

use vstd::prelude::*;

verus! {

/// The Linux input event types the library emits.
#[derive(Debug, Clone, Copy, PartialEq, Eq, Structural)]
pub enum EventKind {
    /// A synchronization report.
    Sync,
    /// A key or button state change.
    Key,
    /// An absolute axis update.
    Absolute,
}

/// One raw input event: type, code, value.
#[derive(Debug, Clone, Copy, PartialEq, Eq, Structural)]
pub struct RawEvent {
    pub kind: EventKind,
    pub code: u16,
    pub value: i32,
}

/// One step of an actuation plan: emit an event, or pause to respect
/// the panel's sampling and refresh timing.
#[derive(Debug, Clone, Copy, PartialEq, Eq, Structural)]
pub enum PlanItem {
    Emit(RawEvent),
    DelayMs(u32),
}

/// An emitted event, as a plan item.
pub open spec fn sp_emit(kind: EventKind, code: u16, value: i32) -> PlanItem {
    PlanItem::Emit(RawEvent { kind, code, value })
}

/// Build an event plan item.
pub fn emit(kind: EventKind, code: u16, value: i32) -> (r: PlanItem)
    ensures
        r == sp_emit(kind, code, value),
{
    PlanItem::Emit(RawEvent { kind, code, value })
}

/// Build a pause plan item.
pub fn delay_ms(ms: u32) -> (r: PlanItem)
    ensures
        r == PlanItem::DelayMs(ms),
{
    PlanItem::DelayMs(ms)
}

/// The value carried by the last key event with the given code, if
/// one occurs in `s`. This is how contact state (pen touch, tracking
/// id) is read off a plan.
pub open spec fn sp_last_key(s: Seq<PlanItem>, code: u16) -> Option<i32>
    decreases s.len(),
{
    if s.len() == 0 {
        None
    } else {
        match s.last() {
            PlanItem::Emit(e) => if e.kind is Key && e.code == code {
                Some(e.value)
            } else {
                sp_last_key(s.drop_last(), code)
            },
            PlanItem::DelayMs(_) => sp_last_key(s.drop_last(), code),
        }
    }
}

/// Reading contact state off concatenated plans: the suffix answers
/// when it mentions the code at all, the prefix otherwise.
pub proof fn lemma_last_key_concat(a: Seq<PlanItem>, b: Seq<PlanItem>, code: u16)
    ensures
        sp_last_key(a + b, code) == (match sp_last_key(b, code) {
            Some(v) => Some(v),
            None => sp_last_key(a, code),
        }),
    decreases b.len(),
{
    if b.len() == 0 {
        assert(a + b =~= a);
    } else {
        assert((a + b).drop_last() =~= a + b.drop_last());
        assert((a + b).last() == b.last());
        lemma_last_key_concat(a, b.drop_last(), code);
    }
}

/// Concatenation of plans associates.
pub proof fn lemma_concat_assoc(a: Seq<PlanItem>, b: Seq<PlanItem>, c: Seq<PlanItem>)
    ensures
        (a + b) + c == a + (b + c),
{
    assert((a + b) + c =~= a + (b + c));
}

} // verus!
