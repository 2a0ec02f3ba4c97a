//! The cyclic pool of marker glyphs that pairs a question on the
//! source page with its answer on the answer page. The index is
//! explicitly owned state, loaded once at startup and handed back for
//! persistence on every allocation; the glyphs themselves are circled
//! digits, rasterized elsewhere.

use vstd::prelude::*;

use crate::codecs;
use crate::image_ops;
use crate::strutil;

verus! {

/// How many glyphs the cycle holds.
pub const SYMBOL_COUNT: usize = 10;

/// The glyph at a cycle position.
pub open spec fn sp_symbol(i: int) -> Seq<char> {
    if i == 0 {
        "\u{2460}"@
    } else if i == 1 {
        "\u{2461}"@
    } else if i == 2 {
        "\u{2462}"@
    } else if i == 3 {
        "\u{2463}"@
    } else if i == 4 {
        "\u{2464}"@
    } else if i == 5 {
        "\u{2465}"@
    } else if i == 6 {
        "\u{2466}"@
    } else if i == 7 {
        "\u{2467}"@
    } else if i == 8 {
        "\u{2468}"@
    } else {
        "\u{2469}"@
    }
}

/// The glyph that the `m`-th allocation yields when the cycle starts
/// at `start`.
pub open spec fn sp_symbol_at(start: int, m: int) -> Seq<char> {
    sp_symbol((start + m) % (SYMBOL_COUNT as int))
}

/// Allocations repeat with the cycle: one full revolution later, the
/// same glyph sequence comes out again.
pub proof fn lemma_symbol_cycle(start: int, m: int)
    requires
        m >= 0,
    ensures
        sp_symbol_at(start, m + SYMBOL_COUNT as int) == sp_symbol_at(start, m),
{
    vstd::arithmetic::div_mod::lemma_mod_add_multiples_vanish(
        start + m,
        SYMBOL_COUNT as int,
    );
}

/// Pool of reference symbols for marking question-answer pairs.
pub struct SymbolPool {
    current_index: usize,
    symbols: Vec<String>,
}

impl SymbolPool {
    /// The pool always holds the full glyph table and a position
    /// inside it.
    pub closed spec fn wf(self) -> bool {
        &&& self.symbols@.len() == SYMBOL_COUNT
    &&& self.current_index < SYMBOL_COUNT
    &&& forall|i: int| 0 <= i < SYMBOL_COUNT ==> (#[trigger] self.symbols@[i])@ == sp_symbol(i)
    }

    /// Position of the glyph the next allocation will yield.
    pub closed spec fn spec_index(self) -> int {
        self.current_index as int
    }

    /// Create a pool positioned at the start of the cycle.
    pub fn new() -> (r: SymbolPool)
        ensures
            r.wf(),
            r.spec_index() == 0,
    {
        let mut symbols: Vec<String> = Vec::new();
        symbols.push(String::from_str("\u{2460}"));
        symbols.push(String::from_str("\u{2461}"));
        symbols.push(String::from_str("\u{2462}"));
        symbols.push(String::from_str("\u{2463}"));
        symbols.push(String::from_str("\u{2464}"));
        symbols.push(String::from_str("\u{2465}"));
        symbols.push(String::from_str("\u{2466}"));
        symbols.push(String::from_str("\u{2467}"));
        symbols.push(String::from_str("\u{2468}"));
        symbols.push(String::from_str("\u{2469}"));
        SymbolPool { current_index: 0, symbols }
    }

    /// Restore the cycle position from the persisted state file's
    /// content, `None` when the file is absent: absence means "start
    /// at zero", never an error, and so does unreadable content. Any
    /// unsigned decimal the machine can hold is honored, reduced into
    /// the cycle.
    pub fn load_from_content(&mut self, content: Option<&str>)
        requires
            old(self).wf(),
        ensures
            final(self).wf(),
            final(self).spec_index() == (match content {
                Some(text) => {
                    let t = strutil::sp_trim(text@);
                    if strutil::sp_is_int_literal(t) && t[0] != '-' && strutil::sp_int_val(t)
                        <= u64::MAX {
                        strutil::sp_int_val(t) % (SYMBOL_COUNT as int)
                    } else {
                        old(self).spec_index()
                    }
                },
                None => old(self).spec_index(),
            }),
    {
        if let Some(text) = content {
            let trimmed = strutil::trim_str(text);
            if let Some(v) = strutil::parse_u64_dec(trimmed.as_str()) {
                proof {
                    vstd::arithmetic::div_mod::lemma_mod_division_less_than_divisor(
                        v as int,
                        SYMBOL_COUNT as int,
                    );
                }
                self.current_index = (v % (SYMBOL_COUNT as u64)) as usize;
            }
        }
    }

    /// The decimal form of the cycle position, as it is persisted.
    pub fn persist_string(&self) -> (r: String)
        requires
            self.wf(),
        ensures
            r@.len() == 1,
            strutil::sp_all_digits(r@),
            strutil::sp_digits_val(r@) == self.spec_index(),
    {
        let digits = ["0", "1", "2", "3", "4", "5", "6", "7", "8", "9"];
        let s = String::from_str(digits[self.current_index]);
        proof {
            reveal_strlit("0");
            reveal_strlit("1");
            reveal_strlit("2");
            reveal_strlit("3");
            reveal_strlit("4");
            reveal_strlit("5");
            reveal_strlit("6");
            reveal_strlit("7");
            reveal_strlit("8");
            reveal_strlit("9");
            assert(s@.len() == 1);
            assert(s@.drop_last() =~= Seq::<char>::empty());
            assert(strutil::sp_digits_val(Seq::<char>::empty()) == 0);
            assert(strutil::sp_digits_val(s@) == strutil::sp_digit_val(s@[0]));
        }
        s
    }

    /// Yield the current glyph and advance the cycle by one. The
    /// caller persists `persist_string()` before drawing, so that a
    /// crash can waste a glyph but never replay one.
    pub fn next_symbol(&mut self) -> (r: String)
        requires
            old(self).wf(),
        ensures
            final(self).wf(),
            r@ == sp_symbol(old(self).spec_index()),
            final(self).spec_index() == (old(self).spec_index() + 1) % (SYMBOL_COUNT as int),
    {
        let symbol = self.symbols[self.current_index].clone();
        self.current_index = (self.current_index + 1) % SYMBOL_COUNT;
        symbol
    }

    /// The current glyph, without advancing.
    pub fn current_symbol(&self) -> (r: String)
        requires
            self.wf(),
        ensures
            r@ == sp_symbol(self.spec_index()),
    {
        let symbol = self.symbols[self.current_index].clone();
        symbol
    }
}

/// The bitmap thresholds a glyph's alpha raster: a pixel is set
/// exactly when its alpha exceeds half coverage.
pub open spec fn sp_thresholds(rows: Seq<Vec<bool>>, alphas: Seq<u8>, size: int) -> bool {
    forall|y: int, x: int|
        0 <= y < size && 0 <= x < size ==> #[trigger] rows[y]@[x] == (alphas[y * size + x] > 128)
}

/// The bitmap is the procedural ring.
pub open spec fn sp_is_ring(rows: Seq<Vec<bool>>, size: int) -> bool {
    forall|y: int, x: int|
        0 <= y < size && 0 <= x < size ==> #[trigger] rows[y]@[x] == image_ops::sp_ring_pixel(
            size,
            x,
            y,
        )
}

impl SymbolPool {
    /// Rasterize a glyph into a square bitmap through the vector
    /// renderer, thresholding its alpha channel; when rendering fails
    /// (a missing font, an unparsable image), fall back to the
    /// procedural ring, so a marker is always drawn and the function
    /// is total: the result either thresholds some rendered alpha
    /// raster of the right size, or is the ring.
    pub fn symbol_to_bitmap(symbol: &str, size: u32) -> (r: Vec<Vec<bool>>)
        requires
            1 <= size <= 10_000,
        ensures
            r@.len() == size,
            forall|y: int| 0 <= y < size ==> (#[trigger] r@[y])@.len() == size,
            (exists|alphas: Seq<u8>|
                alphas.len() == size * size && sp_thresholds(r@, alphas, size as int))
                || sp_is_ring(r@, size as int),
    {
        match codecs::render_glyph_alpha(symbol, size) {
            Ok(alphas) => {
                let bitmap = image_ops::alpha_to_bitmap(&alphas, size as usize);
                proof {
                    assert(alphas@.len() == size * size && sp_thresholds(
                        bitmap@,
                        alphas@,
                        size as int,
                    ));
                }
                bitmap
            },
            Err(_) => SymbolPool::fallback_circle_bitmap(size),
        }
    }

    /// The procedural ring used when glyph rendering fails.
    pub fn fallback_circle_bitmap(size: u32) -> (r: Vec<Vec<bool>>)
        requires
            size <= 10_000,
        ensures
            r@.len() == size,
            forall|y: int| 0 <= y < size ==> (#[trigger] r@[y])@.len() == size,
            forall|y: int, x: int|
                0 <= y < size && 0 <= x < size ==> #[trigger] r@[y]@[x] == image_ops::sp_ring_pixel(
                    size as int,
                    x,
                    y,
                ),
    {
        image_ops::fallback_circle_bitmap(size as usize)
    }
}

} // verus!
