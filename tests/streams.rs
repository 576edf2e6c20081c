use matrix_rain::fading_character::Lifetime;
use matrix_rain::hot_character::{HotChar, UNITS_PER_ROW};
use matrix_rain::random::{GLYPH_FIRST, GLYPH_LAST};
use std::cmp::Ordering;

#[test]
fn stream_reports_once_per_row_crossing() {
    // speed 0.3 rows per tick, tail length 2
    let mut s = HotChar::new_with_char(4, 300, 2, 'a');
    assert_eq!(s.tick_with('z'), None);
    assert_eq!(s.get_y(), 300);
    assert_eq!(s.tick_with('z'), None);
    assert_eq!(s.tick_with('z'), None);
    assert_eq!(s.tick_with('z'), Some((4, 0, Lifetime::new(2000, 300))));
    assert_eq!(s.get_y(), 1200);
    assert_eq!(s.get_row(), 1);
    assert_eq!(s.tick_with('z'), None);
    assert_eq!(s.tick_with('z'), None);
    assert_eq!(s.tick_with('z'), Some((4, 1, Lifetime::new(2000, 300))));
}

#[test]
fn random_tick_reports_same_events() {
    let mut s = HotChar::new(0, 300, 2);
    let c = s.get_char();
    assert!(GLYPH_FIRST <= c && c <= GLYPH_LAST);
    let events: Vec<_> = (0..4).map(|_| s.tick()).collect();
    assert_eq!(events, vec![None, None, None, Some((0, 0, Lifetime::new(2000, 300)))]);
}

#[test]
fn full_speed_crosses_every_tick() {
    let mut s = HotChar::new_with_char(1, UNITS_PER_ROW, 1, 'a');
    for row in 0..5u128 {
        assert_eq!(s.tick_with('z'), Some((1, row, Lifetime::new(1000, 1000))));
    }
}

#[test]
fn character_changes_every_sixth_tick() {
    let mut s = HotChar::new_with_char(0, 100, 1, 'a');
    for _ in 0..5 {
        s.tick_with('z');
        assert_eq!(s.get_char(), 'a');
    }
    s.tick_with('z');
    assert_eq!(s.get_char(), 'z');
    for _ in 0..5 {
        s.tick_with('y');
        assert_eq!(s.get_char(), 'z');
    }
    s.tick_with('y');
    assert_eq!(s.get_char(), 'y');
}

#[test]
fn stream_active_while_above_height() {
    let mut s = HotChar::new_with_char(0, 500, 1, 'a');
    assert!(s.smaller_than(1));
    assert!(!s.smaller_than(0));
    s.tick_with('a');
    assert!(s.smaller_than(1));
    s.tick_with('a');
    assert_eq!(s.get_y(), 1000);
    assert!(!s.smaller_than(1));
    assert!(s.smaller_than(2));
}

#[test]
fn streams_ordered_by_position_then_speed() {
    let mut a = HotChar::new_with_char(0, 100, 1, 'a');
    let b = HotChar::new_with_char(5, 200, 1, 'b');
    assert_eq!(a.cmp_position(&b), Ordering::Less);
    assert_eq!(b.cmp_position(&a), Ordering::Greater);
    assert_eq!(a.cmp_position(&a), Ordering::Equal);
    a.tick_with('a');
    assert_eq!(a.cmp_position(&b), Ordering::Greater);
}

#[test]
fn stream_getters() {
    let s = HotChar::new_with_char(7, 123, 9, 'q');
    assert_eq!(s.get_x(), 7);
    assert_eq!(s.get_y(), 0);
    assert_eq!(s.get_speed(), 123);
    assert_eq!(s.get_tail_len(), 9);
    assert_eq!(s.get_char(), 'q');
}
