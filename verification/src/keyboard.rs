//! The virtual keyboard: a character-to-key table covering letters,
//! digits and common punctuation, keystroke plans that wrap each key
//! in its shift state with a sync and a settle pause, and the progress
//! affordance whose retraction is exactly as long as what it typed.

use vstd::prelude::*;

use crate::events::{delay_ms, emit, lemma_concat_assoc, sp_emit, EventKind, PlanItem};

verus! {

/// Modifier key codes.
pub const KEY_LEFTSHIFT: u16 = 42;

pub const KEY_LEFTCTRL: u16 = 29;

pub const KEY_LEFTALT: u16 = 56;

/// The backspace key, typed as the control character.
pub const KEY_BACKSPACE: u16 = 14;

/// The base key and shift flag that types a character, or nothing for
/// an unsupported character (which is silently skipped, never fatal).
pub open spec fn sp_key_of(c: char) -> Option<(u16, bool)> {
    match c {
        'a' => Some((30u16, false)),
        'b' => Some((48u16, false)),
        'c' => Some((46u16, false)),
        'd' => Some((32u16, false)),
        'e' => Some((18u16, false)),
        'f' => Some((33u16, false)),
        'g' => Some((34u16, false)),
        'h' => Some((35u16, false)),
        'i' => Some((23u16, false)),
        'j' => Some((36u16, false)),
        'k' => Some((37u16, false)),
        'l' => Some((38u16, false)),
        'm' => Some((50u16, false)),
        'n' => Some((49u16, false)),
        'o' => Some((24u16, false)),
        'p' => Some((25u16, false)),
        'q' => Some((16u16, false)),
        'r' => Some((19u16, false)),
        's' => Some((31u16, false)),
        't' => Some((20u16, false)),
        'u' => Some((22u16, false)),
        'v' => Some((47u16, false)),
        'w' => Some((17u16, false)),
        'x' => Some((45u16, false)),
        'y' => Some((21u16, false)),
        'z' => Some((44u16, false)),
        'A' => Some((30u16, true)),
        'B' => Some((48u16, true)),
        'C' => Some((46u16, true)),
        'D' => Some((32u16, true)),
        'E' => Some((18u16, true)),
        'F' => Some((33u16, true)),
        'G' => Some((34u16, true)),
        'H' => Some((35u16, true)),
        'I' => Some((23u16, true)),
        'J' => Some((36u16, true)),
        'K' => Some((37u16, true)),
        'L' => Some((38u16, true)),
        'M' => Some((50u16, true)),
        'N' => Some((49u16, true)),
        'O' => Some((24u16, true)),
        'P' => Some((25u16, true)),
        'Q' => Some((16u16, true)),
        'R' => Some((19u16, true)),
        'S' => Some((31u16, true)),
        'T' => Some((20u16, true)),
        'U' => Some((22u16, true)),
        'V' => Some((47u16, true)),
        'W' => Some((17u16, true)),
        'X' => Some((45u16, true)),
        'Y' => Some((21u16, true)),
        'Z' => Some((44u16, true)),
        '1' => Some((2u16, false)),
        '2' => Some((3u16, false)),
        '3' => Some((4u16, false)),
        '4' => Some((5u16, false)),
        '5' => Some((6u16, false)),
        '6' => Some((7u16, false)),
        '7' => Some((8u16, false)),
        '8' => Some((9u16, false)),
        '9' => Some((10u16, false)),
        '0' => Some((11u16, false)),
        '!' => Some((2u16, true)),
        '@' => Some((3u16, true)),
        '#' => Some((4u16, true)),
        '$' => Some((5u16, true)),
        '%' => Some((6u16, true)),
        '^' => Some((7u16, true)),
        '&' => Some((8u16, true)),
        '*' => Some((9u16, true)),
        '(' => Some((10u16, true)),
        ')' => Some((11u16, true)),
        '_' => Some((12u16, true)),
        '+' => Some((13u16, true)),
        '{' => Some((26u16, true)),
        '}' => Some((27u16, true)),
        '|' => Some((43u16, true)),
        ':' => Some((39u16, true)),
        '\"' => Some((40u16, true)),
        '<' => Some((51u16, true)),
        '>' => Some((52u16, true)),
        '?' => Some((53u16, true)),
        '~' => Some((41u16, true)),
        '-' => Some((12u16, false)),
        '=' => Some((13u16, false)),
        '[' => Some((26u16, false)),
        ']' => Some((27u16, false)),
        '\\' => Some((43u16, false)),
        ';' => Some((39u16, false)),
        '\'' => Some((40u16, false)),
        ',' => Some((51u16, false)),
        '.' => Some((52u16, false)),
        '/' => Some((53u16, false)),
        '`' => Some((41u16, false)),
        ' ' => Some((57u16, false)),
        '\t' => Some((15u16, false)),
        '\n' => Some((28u16, false)),
        '\u{8}' => Some((14u16, false)),
        '\u{1b}' => Some((1u16, false)),
        _ => None,
    }
}

/// Look a character up in the key table.
pub fn key_for_char(c: char) -> (r: Option<(u16, bool)>)
    ensures
        r == sp_key_of(c),
{
    match c {
        'a' => Some((30u16, false)),
        'b' => Some((48u16, false)),
        'c' => Some((46u16, false)),
        'd' => Some((32u16, false)),
        'e' => Some((18u16, false)),
        'f' => Some((33u16, false)),
        'g' => Some((34u16, false)),
        'h' => Some((35u16, false)),
        'i' => Some((23u16, false)),
        'j' => Some((36u16, false)),
        'k' => Some((37u16, false)),
        'l' => Some((38u16, false)),
        'm' => Some((50u16, false)),
        'n' => Some((49u16, false)),
        'o' => Some((24u16, false)),
        'p' => Some((25u16, false)),
        'q' => Some((16u16, false)),
        'r' => Some((19u16, false)),
        's' => Some((31u16, false)),
        't' => Some((20u16, false)),
        'u' => Some((22u16, false)),
        'v' => Some((47u16, false)),
        'w' => Some((17u16, false)),
        'x' => Some((45u16, false)),
        'y' => Some((21u16, false)),
        'z' => Some((44u16, false)),
        'A' => Some((30u16, true)),
        'B' => Some((48u16, true)),
        'C' => Some((46u16, true)),
        'D' => Some((32u16, true)),
        'E' => Some((18u16, true)),
        'F' => Some((33u16, true)),
        'G' => Some((34u16, true)),
        'H' => Some((35u16, true)),
        'I' => Some((23u16, true)),
        'J' => Some((36u16, true)),
        'K' => Some((37u16, true)),
        'L' => Some((38u16, true)),
        'M' => Some((50u16, true)),
        'N' => Some((49u16, true)),
        'O' => Some((24u16, true)),
        'P' => Some((25u16, true)),
        'Q' => Some((16u16, true)),
        'R' => Some((19u16, true)),
        'S' => Some((31u16, true)),
        'T' => Some((20u16, true)),
        'U' => Some((22u16, true)),
        'V' => Some((47u16, true)),
        'W' => Some((17u16, true)),
        'X' => Some((45u16, true)),
        'Y' => Some((21u16, true)),
        'Z' => Some((44u16, true)),
        '1' => Some((2u16, false)),
        '2' => Some((3u16, false)),
        '3' => Some((4u16, false)),
        '4' => Some((5u16, false)),
        '5' => Some((6u16, false)),
        '6' => Some((7u16, false)),
        '7' => Some((8u16, false)),
        '8' => Some((9u16, false)),
        '9' => Some((10u16, false)),
        '0' => Some((11u16, false)),
        '!' => Some((2u16, true)),
        '@' => Some((3u16, true)),
        '#' => Some((4u16, true)),
        '$' => Some((5u16, true)),
        '%' => Some((6u16, true)),
        '^' => Some((7u16, true)),
        '&' => Some((8u16, true)),
        '*' => Some((9u16, true)),
        '(' => Some((10u16, true)),
        ')' => Some((11u16, true)),
        '_' => Some((12u16, true)),
        '+' => Some((13u16, true)),
        '{' => Some((26u16, true)),
        '}' => Some((27u16, true)),
        '|' => Some((43u16, true)),
        ':' => Some((39u16, true)),
        '\"' => Some((40u16, true)),
        '<' => Some((51u16, true)),
        '>' => Some((52u16, true)),
        '?' => Some((53u16, true)),
        '~' => Some((41u16, true)),
        '-' => Some((12u16, false)),
        '=' => Some((13u16, false)),
        '[' => Some((26u16, false)),
        ']' => Some((27u16, false)),
        '\\' => Some((43u16, false)),
        ';' => Some((39u16, false)),
        '\'' => Some((40u16, false)),
        ',' => Some((51u16, false)),
        '.' => Some((52u16, false)),
        '/' => Some((53u16, false)),
        '`' => Some((41u16, false)),
        ' ' => Some((57u16, false)),
        '\t' => Some((15u16, false)),
        '\n' => Some((28u16, false)),
        '\u{8}' => Some((14u16, false)),
        '\u{1b}' => Some((1u16, false)),
        _ => None,
    }
}

/// The events of one keystroke: optional shift press, key press, key
/// release, optional shift release, sync, short pause.
pub open spec fn sp_keypress_events(code: u16, shift: bool) -> Seq<PlanItem> {
    if shift {
        seq![
            sp_emit(EventKind::Key, KEY_LEFTSHIFT, 1),
            sp_emit(EventKind::Key, code, 1),
            sp_emit(EventKind::Key, code, 0),
            sp_emit(EventKind::Key, KEY_LEFTSHIFT, 0),
            sp_emit(EventKind::Sync, 0, 0),
            PlanItem::DelayMs(10),
        ]
    } else {
        seq![
            sp_emit(EventKind::Key, code, 1),
            sp_emit(EventKind::Key, code, 0),
            sp_emit(EventKind::Sync, 0, 0),
            PlanItem::DelayMs(10),
        ]
    }
}

/// What typing one character emits: its keystroke, or nothing when the
/// character is unsupported.
pub open spec fn sp_char_events(c: char) -> Seq<PlanItem> {
    match sp_key_of(c) {
        Some((code, shift)) => sp_keypress_events(code, shift),
        None => Seq::empty(),
    }
}

/// What typing a string emits, character by character in order.
pub open spec fn sp_string_events(s: Seq<char>) -> Seq<PlanItem>
    decreases s.len(),
{
    if s.len() == 0 {
        Seq::empty()
    } else {
        sp_string_events(s.drop_last()) + sp_char_events(s.last())
    }
}

/// The initial sync that typing always starts with.
pub open spec fn sp_type_prefix() -> Seq<PlanItem> {
    seq![sp_emit(EventKind::Sync, 0, 0), PlanItem::DelayMs(10)]
}

/// The whole plan of typing a string.
pub open spec fn sp_type_plan(s: Seq<char>) -> Seq<PlanItem> {
    sp_type_prefix() + sp_string_events(s)
}

/// How many characters of `s` actually emit a keystroke.
pub open spec fn sp_emitted_count(s: Seq<char>) -> int
    decreases s.len(),
{
    if s.len() == 0 {
        0
    } else {
        sp_emitted_count(s.drop_last()) + if sp_key_of(s.last()) is Some {
            1int
        } else {
            0int
        }
    }
}

/// A single key transition with sync and settle pause.
pub open spec fn sp_key_edge_events(code: u16, value: i32) -> Seq<PlanItem> {
    seq![
        sp_emit(EventKind::Key, code, value),
        sp_emit(EventKind::Sync, 0, 0),
        PlanItem::DelayMs(1),
    ]
}

/// The plan of a modified shortcut: hold control (and shift when
/// asked), type the button, release in reverse order.
pub open spec fn sp_key_cmd_plan(button: Seq<char>, shift: bool) -> Seq<PlanItem> {
    if shift {
        sp_key_edge_events(KEY_LEFTCTRL, 1) + sp_key_edge_events(KEY_LEFTSHIFT, 1) + sp_type_plan(
            button,
        ) + sp_key_edge_events(KEY_LEFTSHIFT, 0) + sp_key_edge_events(KEY_LEFTCTRL, 0)
    } else {
        sp_key_edge_events(KEY_LEFTCTRL, 1) + sp_type_plan(button) + sp_key_edge_events(
            KEY_LEFTCTRL,
            0,
        )
    }
}

/// The plan of `n` backspace keystrokes, each typed as a full string.
pub open spec fn sp_backspaces_plan(n: int) -> Seq<PlanItem>
    decreases n,
{
    if n <= 0 {
        Seq::empty()
    } else {
        sp_backspaces_plan(n - 1) + sp_type_plan(seq!['\u{8}'])
    }
}

/// The keyboard actuator: a pending event plan, the progress counter,
/// and whether the progress affordance is suppressed.
pub struct Keyboard {
    pub plan: Vec<PlanItem>,
    pub progress_count: u64,
    pub no_draw_progress: bool,
}

impl Keyboard {
    /// A keyboard planner with an empty plan and no pending progress.
    pub fn new(no_draw_progress: bool) -> (r: Keyboard)
        ensures
            r.plan@ == Seq::<PlanItem>::empty(),
            r.progress_count == 0,
            r.no_draw_progress == no_draw_progress,
    {
        Keyboard { plan: Vec::new(), progress_count: 0, no_draw_progress }
    }

    /// Hand the pending plan to the device shim and start a new one.
    pub fn take_plan(&mut self) -> (r: Vec<PlanItem>)
        ensures
            r@ == old(self).plan@,
            final(self).plan@ == Seq::<PlanItem>::empty(),
            final(self).progress_count == old(self).progress_count,
            final(self).no_draw_progress == old(self).no_draw_progress,
    {
        let mut out: Vec<PlanItem> = Vec::new();
        core::mem::swap(&mut out, &mut self.plan);
        out
    }

    /// Type a string: an initial sync, then per character an optional
    /// shift press, key press and release, optional shift release,
    /// sync, and a short pause. Unsupported characters are skipped,
    /// never an error.
    #[verifier::loop_isolation(false)]
    pub fn string_to_keypresses(&mut self, input: &str)
        ensures
            final(self).plan@ == old(self).plan@ + sp_type_plan(input@),
            final(self).progress_count == old(self).progress_count,
            final(self).no_draw_progress == old(self).no_draw_progress,
    {
        self.plan.push(emit(EventKind::Sync, 0, 0));
        self.plan.push(delay_ms(10));
        proof {
            assert(self.plan@ =~= old(self).plan@ + sp_type_prefix());
        }
        let ghost base = self.plan@;
        let n = input.unicode_len();
        let mut i: usize = 0;
        while i < n
            invariant
                i <= n,
                self.plan@ == base + sp_string_events(input@.subrange(0, i as int)),
                self.progress_count == old(self).progress_count,
                self.no_draw_progress == old(self).no_draw_progress,
            decreases n - i,
        {
            let ghost done = input@.subrange(0, i as int);
            let ghost mid = self.plan@;
            let c = input.get_char(i);
            match key_for_char(c) {
                Some((code, shift)) => {
                    if shift {
                        self.plan.push(emit(EventKind::Key, KEY_LEFTSHIFT, 1));
                    }
                    self.plan.push(emit(EventKind::Key, code, 1));
                    self.plan.push(emit(EventKind::Key, code, 0));
                    if shift {
                        self.plan.push(emit(EventKind::Key, KEY_LEFTSHIFT, 0));
                    }
                    self.plan.push(emit(EventKind::Sync, 0, 0));
                    self.plan.push(delay_ms(10));
                    proof {
                        assert(self.plan@ =~= mid + sp_char_events(c));
                    }
                },
                None => {
                    proof {
                        assert(self.plan@ =~= mid + sp_char_events(c));
                    }
                },
            }
            proof {
                lemma_concat_assoc(base, sp_string_events(done), sp_char_events(c));
                assert(input@.subrange(0, i as int + 1).drop_last() =~= done);
                assert(input@.subrange(0, i as int + 1).last() == input@[i as int]);
                assert(sp_string_events(input@.subrange(0, i as int + 1)) == sp_string_events(
                    done,
                ) + sp_char_events(c));
            }
            i += 1;
        }
        proof {
            assert(input@.subrange(0, n as int) =~= input@);
        }
    }

    /// Press or release one key, with sync and settle pause.
    pub fn key_down(&mut self, code: u16)
        ensures
            final(self).plan@ == old(self).plan@ + sp_key_edge_events(code, 1),
            final(self).progress_count == old(self).progress_count,
            final(self).no_draw_progress == old(self).no_draw_progress,
    {
        self.plan.push(emit(EventKind::Key, code, 1));
        self.plan.push(emit(EventKind::Sync, 0, 0));
        self.plan.push(delay_ms(1));
        proof {
            assert(self.plan@ =~= old(self).plan@ + sp_key_edge_events(code, 1));
        }
    }

    pub fn key_up(&mut self, code: u16)
        ensures
            final(self).plan@ == old(self).plan@ + sp_key_edge_events(code, 0),
            final(self).progress_count == old(self).progress_count,
            final(self).no_draw_progress == old(self).no_draw_progress,
    {
        self.plan.push(emit(EventKind::Key, code, 0));
        self.plan.push(emit(EventKind::Sync, 0, 0));
        self.plan.push(delay_ms(1));
        proof {
            assert(self.plan@ =~= old(self).plan@ + sp_key_edge_events(code, 0));
        }
    }

    /// A control shortcut: hold control (and shift when asked), type
    /// the button, release in reverse order.
    pub fn key_cmd(&mut self, button: &str, shift: bool)
        ensures
            final(self).plan@ == old(self).plan@ + sp_key_cmd_plan(button@, shift),
            final(self).progress_count == old(self).progress_count,
            final(self).no_draw_progress == old(self).no_draw_progress,
    {
        let ghost base = self.plan@;
        self.key_down(KEY_LEFTCTRL);
        if shift {
            self.key_down(KEY_LEFTSHIFT);
        }
        self.string_to_keypresses(button);
        if shift {
            self.key_up(KEY_LEFTSHIFT);
        }
        self.key_up(KEY_LEFTCTRL);
        proof {
            assert(self.plan@ =~= base + sp_key_cmd_plan(button@, shift));
        }
    }

    /// The shortcut that switches the host into body-text entry before
    /// free text is typed.
    pub fn key_cmd_body(&mut self)
        ensures
            final(self).plan@ == old(self).plan@ + sp_key_cmd_plan("3"@, false),
            final(self).progress_count == old(self).progress_count,
            final(self).no_draw_progress == old(self).no_draw_progress,
    {
        self.key_cmd("3", false);
    }

    /// Type a progress note and remember how many keystrokes it took,
    /// so that the retraction is exactly as long. Suppressed entirely
    /// in no-progress mode.
    pub fn progress(&mut self, note: &str)
        ensures
            old(self).no_draw_progress ==> *final(self) == *old(self),
            !old(self).no_draw_progress ==> final(self).plan@ == old(self).plan@ + sp_type_plan(
                note@,
            ) && final(self).progress_count as int == vstd::math::min(
                old(self).progress_count as int + sp_emitted_count(note@),
                u64::MAX as int,
            ),
            final(self).no_draw_progress == old(self).no_draw_progress,
    {
        if self.no_draw_progress {
            return ;
        }
        self.string_to_keypresses(note);
        let emitted = emitted_count(note);
        if emitted > u64::MAX - self.progress_count {
            self.progress_count = u64::MAX;
        } else {
            self.progress_count = self.progress_count + emitted;
        }
    }

    /// Retract the progress note: one backspace per keystroke it
    /// emitted, and reset the counter.
    #[verifier::loop_isolation(false)]
    pub fn progress_end(&mut self)
        ensures
            old(self).no_draw_progress ==> *final(self) == *old(self),
            !old(self).no_draw_progress ==> final(self).plan@ == old(self).plan@
                + sp_backspaces_plan(old(self).progress_count as int) && final(
                self).progress_count == 0,
            final(self).no_draw_progress == old(self).no_draw_progress,
    {
        if self.no_draw_progress {
            return ;
        }
        let total = self.progress_count;
        let mut j: u64 = 0;
        while j < total
            invariant
                j <= total,
                self.plan@ == old(self).plan@ + sp_backspaces_plan(j as int),
                self.progress_count == old(self).progress_count,
                self.no_draw_progress == old(self).no_draw_progress,
            decreases total - j,
        {
            let ghost mid = self.plan@;
            self.string_to_keypresses("\u{8}");
            proof {
                lemma_concat_assoc(
                    old(self).plan@,
                    sp_backspaces_plan(j as int),
                    sp_type_plan("\u{8}"@),
                );
                reveal_strlit("\u{8}");
                assert("\u{8}"@ =~= seq!['\u{8}']);
                assert(sp_backspaces_plan(j as int + 1) == sp_backspaces_plan(j as int)
                    + sp_type_plan(seq!['\u{8}']));
            }
            j += 1;
        }
        self.progress_count = 0;
    }
}

/// Count the characters of `s` that emit a keystroke.
#[verifier::loop_isolation(false)]
fn emitted_count(s: &str) -> (r: u64)
    ensures
        r as int == sp_emitted_count(s@),
{
    let n = s.unicode_len();
    let mut count: u64 = 0;
    let mut i: usize = 0;
    while i < n
        invariant
            i <= n,
            count as int == sp_emitted_count(s@.subrange(0, i as int)),
            count <= i,
        decreases n - i,
    {
        let c = s.get_char(i);
        proof {
            assert(s@.subrange(0, i as int + 1).drop_last() =~= s@.subrange(0, i as int));
        }
        if key_for_char(c).is_some() {
            count += 1;
        }
        i += 1;
    }
    proof {
        assert(s@.subrange(0, n as int) =~= s@);
    }
    count
}

} // verus!
