//! The marker glyph cycle and its rasterization.

use reader_buddy::SymbolPool;

#[test]
fn glyph_sequence_repeats_after_one_full_cycle() {
    let mut pool = SymbolPool::new();
    let mut seen: Vec<String> = Vec::new();
    let mut i = 0;
    while i < 13 {
        seen.push(pool.next_symbol());
        i += 1;
    }
    // Calls 11..13 reproduce calls 1..3.
    assert_eq!(seen[10], seen[0]);
    assert_eq!(seen[11], seen[1]);
    assert_eq!(seen[12], seen[2]);
    assert_eq!(seen[0], "\u{2460}");
    assert_eq!(seen[9], "\u{2469}");
}

#[test]
fn load_restores_the_cycle_position() {
    let mut pool = SymbolPool::new();
    pool.load_from_content(Some(" 7 \n"));
    assert_eq!(pool.current_symbol(), "\u{2467}");
    pool.load_from_content(Some("17"));
    assert_eq!(pool.current_symbol(), "\u{2467}");
    pool.load_from_content(None);
    assert_eq!(pool.current_symbol(), "\u{2467}");
    pool.load_from_content(Some("not a number"));
    assert_eq!(pool.current_symbol(), "\u{2467}");
    pool.load_from_content(Some("-3"));
    assert_eq!(pool.current_symbol(), "\u{2467}");
    // Any machine-word decimal is honored, reduced into the cycle.
    pool.load_from_content(Some("12345678901234567895"));
    assert_eq!(pool.current_symbol(), "\u{2465}");
    pool.load_from_content(Some("+3"));
    assert_eq!(pool.current_symbol(), "\u{2463}");
}

#[test]
fn persist_string_is_the_next_position() {
    let mut pool = SymbolPool::new();
    assert_eq!(pool.persist_string(), "0");
    let _ = pool.next_symbol();
    assert_eq!(pool.persist_string(), "1");
}

#[test]
fn symbol_bitmap_has_requested_dimensions() {
    let bitmap = SymbolPool::symbol_to_bitmap("\u{2460}", 40);
    assert_eq!(bitmap.len(), 40);
    for row in &bitmap {
        assert_eq!(row.len(), 40);
    }
}

#[test]
fn fallback_ring_is_a_ring() {
    let bitmap = SymbolPool::fallback_circle_bitmap(20);
    assert_eq!(bitmap.len(), 20);
    // Radius is 8 around center (10, 10): on the ring at distance 8,
    // clear at the center and outside.
    assert!(bitmap[10][18]);
    assert!(bitmap[2][10]);
    assert!(!bitmap[10][10]);
    assert!(!bitmap[0][0]);
}
