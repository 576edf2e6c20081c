use matrix_rain::fading_character::{FadingChar, Lifetime, MAX_BRIGHTNESS};
use matrix_rain::random::{GLYPH_FIRST, GLYPH_LAST};

#[test]
fn brightness_never_rises_and_ends_dark() {
    let mut g = FadingChar::new_with_char('a', Lifetime::new(3000, 1000));
    let mut seen = vec![g.get_brightness()];
    while !g.has_faded() {
        g.tick_with(None);
        seen.push(g.get_brightness());
    }
    assert_eq!(seen, vec![255, 170, 85, 0, 0]);
    for pair in seen.windows(2) {
        assert!(pair[1] <= pair[0]);
    }
    assert_eq!(g.get_brightness(), 0);
}

#[test]
fn brightness_of_fresh_glyph_is_full() {
    let g = FadingChar::new_with_char('a', Lifetime::new(2000, 300));
    assert_eq!(g.get_brightness(), MAX_BRIGHTNESS);
}

#[test]
fn brightness_rounds_down() {
    // lifetime 20/3 ticks; after 1 tick 17/3 remain: 255 * 17 / 20 = 216.75
    let mut g = FadingChar::new_with_char('a', Lifetime::new(2000, 300));
    g.tick_with(None);
    assert_eq!(g.get_brightness(), 216);
}

#[test]
fn empty_lifetime_is_dark() {
    let g = FadingChar::new_with_char('a', Lifetime::new(0, 7));
    assert_eq!(g.get_brightness(), 0);
    assert!(!g.has_faded());
}

#[test]
fn glyph_fades_only_past_its_lifetime() {
    let mut g = FadingChar::new_with_char('a', Lifetime::new(1000, 1000));
    assert!(!g.has_faded());
    g.tick_with(None);
    assert_eq!(g.get_elapsed(), 1);
    assert!(!g.has_faded());
    g.tick_with(None);
    assert_eq!(g.get_elapsed(), 2);
    assert!(g.has_faded());
}

#[test]
fn fractional_lifetime_fades_after_rounding_up() {
    // 20/3 ticks: alive at 6, gone at 7
    let mut g = FadingChar::new_with_char('a', Lifetime::new(2000, 300));
    for _ in 0..6 {
        g.tick_with(None);
    }
    assert!(!g.has_faded());
    g.tick_with(None);
    assert!(g.has_faded());
}

#[test]
fn tick_with_change_replaces_character() {
    let mut g = FadingChar::new_with_char('a', Lifetime::new(5000, 1000));
    g.tick_with(Some('b'));
    assert_eq!(g.get_char(), 'b');
    g.tick_with(None);
    assert_eq!(g.get_char(), 'b');
    assert_eq!(g.get_lifetime(), Lifetime::new(5000, 1000));
}

#[test]
fn random_glyph_comes_from_alphabet() {
    for _ in 0..200 {
        let mut g = FadingChar::new(Lifetime::new(1000, 1));
        assert!(GLYPH_FIRST <= g.get_char() && g.get_char() <= GLYPH_LAST);
        assert_eq!(g.get_elapsed(), 0);
        let before = g.get_char();
        g.tick();
        assert_eq!(g.get_elapsed(), 1);
        let c = g.get_char();
        assert!(c == before || (GLYPH_FIRST <= c && c <= GLYPH_LAST));
    }
}
