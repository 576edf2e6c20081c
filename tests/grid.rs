use matrix_rain::app::{term_to_matrix_size, App};
use matrix_rain::fading_character::Lifetime;
use matrix_rain::hot_character::UNITS_PER_ROW;
use matrix_rain::matrix::{
    Matrix, Paint, StreamSeed, TickDraws, MAX_SPAWN_SPEED, MIN_SPAWN_SPEED,
};
use matrix_rain::random::{GLYPH_FIRST, GLYPH_LAST};

fn quiet_draws(m: &Matrix, spawn: Option<StreamSeed>) -> TickDraws {
    let n = m.streams().len();
    TickDraws {
        jitter: vec![None; m.width() * m.height()],
        heads: vec!['h'; n],
        trails: vec!['t'; n],
        spawn,
    }
}

/// A grid whose every cell holds a glyph: one full-speed stream per column
/// with a long tail, run down the whole grid.
fn filled(width: usize, height: usize) -> Matrix {
    let mut m = Matrix::new(width, height);
    for x in 0..width {
        m.spawn_stream(x, UNITS_PER_ROW, 1000, 'h');
    }
    for _ in 0..height {
        let d = quiet_draws(&m, None);
        m.tick_with(&d);
    }
    m
}

#[test]
fn new_grid_is_empty() {
    let m = Matrix::new(4, 3);
    assert_eq!(m.width(), 4);
    assert_eq!(m.height(), 3);
    assert!(m.streams().is_empty());
    for x in 0..4 {
        for y in 0..3 {
            assert_eq!(m.glyph(x, y), None);
        }
    }
}

#[test]
fn filled_grid_has_every_cell() {
    let m = filled(4, 3);
    assert!(m.streams().is_empty());
    for x in 0..4 {
        for y in 0..3 {
            let g = m.glyph(x, y).unwrap();
            assert_eq!(g.get_char(), 't');
            assert_eq!(g.get_elapsed(), (2 - y) as u128);
        }
    }
}

#[test]
fn resize_shrink_discards_outside_cells() {
    let mut m = filled(10, 10);
    let before: Vec<_> = (0..5).flat_map(|x| (0..5).map(move |y| (x, y))).map(|(x, y)| m.glyph(x, y)).collect();
    m.resize(5, 5);
    assert_eq!(m.width(), 5);
    assert_eq!(m.height(), 5);
    let after: Vec<_> = (0..5).flat_map(|x| (0..5).map(move |y| (x, y))).map(|(x, y)| m.glyph(x, y)).collect();
    assert_eq!(before, after);
    m.resize(10, 10);
    for x in 0..10 {
        for y in 0..10 {
            if x >= 5 || y >= 5 {
                assert_eq!(m.glyph(x, y), None);
            }
        }
    }
}

#[test]
fn resize_grow_keeps_cells_and_adds_empty_ones() {
    let mut m = filled(5, 5);
    let before: Vec<_> = (0..5).flat_map(|x| (0..5).map(move |y| (x, y))).map(|(x, y)| m.glyph(x, y)).collect();
    m.resize(10, 10);
    let mut kept = Vec::new();
    let mut empty = 0;
    for x in 0..10 {
        for y in 0..10 {
            if x < 5 && y < 5 {
                kept.push(m.glyph(x, y));
            } else {
                assert_eq!(m.glyph(x, y), None);
                empty += 1;
            }
        }
    }
    assert_eq!(kept, before);
    assert_eq!(empty, 75);
}

#[test]
fn resize_to_nothing() {
    let mut m = filled(3, 3);
    m.resize(0, 0);
    assert_eq!(m.width(), 0);
    assert!(m.render(2, 2).iter().all(|p| p.is_none()));
}

#[test]
fn single_stream_end_to_end() {
    let mut m = Matrix::new(3, 3);
    m.spawn_stream(1, UNITS_PER_ROW, 1, 'h');
    let d = quiet_draws(&m, None);
    m.tick_with(&d);
    let g = m.glyph(1, 0).unwrap();
    assert_eq!(g.get_lifetime(), Lifetime::new(1000, 1000));
    assert_eq!(g.get_elapsed(), 0);
    let d = quiet_draws(&m, None);
    m.tick_with(&d);
    let g = m.glyph(1, 0).unwrap();
    assert_eq!(g.get_elapsed(), 1);
    assert!(m.glyph(1, 1).is_some());
    let d = quiet_draws(&m, None);
    m.tick_with(&d);
    assert_eq!(m.glyph(1, 0), None);
    assert_eq!(m.glyph(1, 1).unwrap().get_elapsed(), 1);
    assert_eq!(m.glyph(1, 2).unwrap().get_elapsed(), 0);
    assert!(m.streams().is_empty());
    for x in [0, 2] {
        for y in 0..3 {
            assert_eq!(m.glyph(x, y), None);
        }
    }
}

#[test]
fn spawn_draw_adds_stream_after_aging() {
    let mut m = Matrix::new(3, 3);
    let seed = StreamSeed { x: 2, speed: 250, tail_len: 1, c: 's' };
    let d = quiet_draws(&m, Some(seed));
    m.tick_with(&d);
    assert_eq!(m.streams().len(), 1);
    let s = m.streams()[0];
    assert_eq!((s.get_x(), s.get_y(), s.get_speed(), s.get_char()), (2, 0, 250, 's'));
}

#[test]
fn spawn_in_zero_height_grid_is_removed() {
    let mut m = Matrix::new(3, 0);
    let seed = StreamSeed { x: 0, speed: 250, tail_len: 1, c: 's' };
    let d = quiet_draws(&m, Some(seed));
    m.tick_with(&d);
    assert!(m.streams().is_empty());
}

#[test]
fn jitter_changes_glyph_character() {
    let mut m = Matrix::new(2, 2);
    m.spawn_stream(0, UNITS_PER_ROW, 5, 'h');
    let d = quiet_draws(&m, None);
    m.tick_with(&d);
    let mut d = quiet_draws(&m, None);
    d.jitter[0] = Some('j');
    d.jitter[3] = Some('k');
    m.tick_with(&d);
    assert_eq!(m.glyph(0, 0).unwrap().get_char(), 'j');
    assert_eq!(m.glyph(1, 1), None);
}

#[test]
fn stream_out_of_columns_places_nothing() {
    let mut m = Matrix::new(2, 2);
    m.spawn_stream(5, UNITS_PER_ROW, 5, 'h');
    let d = quiet_draws(&m, None);
    m.tick_with(&d);
    for x in 0..2 {
        for y in 0..2 {
            assert_eq!(m.glyph(x, y), None);
        }
    }
    assert_eq!(m.streams().len(), 1);
}

#[test]
fn render_clips_to_frame() {
    let m = filled(10, 10);
    let frame = m.render(3, 2);
    assert_eq!(frame.len(), 6);
    for x in 0..3 {
        for y in 0..2 {
            let g = m.glyph(x, y).unwrap();
            let expected = Paint { ch: g.get_char(), red: 0, green: g.get_brightness(), blue: 0 };
            assert_eq!(frame[x * 2 + y], Some(expected));
        }
    }
}

#[test]
fn render_larger_frame_leaves_rest_empty() {
    let m = filled(2, 2);
    let frame = m.render(4, 3);
    assert_eq!(frame.len(), 12);
    for x in 0..4 {
        for y in 0..3 {
            assert_eq!(frame[x * 3 + y].is_some(), x < 2 && y < 2);
        }
    }
}

#[test]
fn render_head_covers_glyph() {
    let mut m = Matrix::new(3, 3);
    m.spawn_stream(1, UNITS_PER_ROW, 10, 'h');
    let d = quiet_draws(&m, None);
    m.tick_with(&d);
    // glyph at (1, 0); the head is now in row 1
    m.spawn_stream(1, 100, 1, 'x');
    let frame = m.render(3, 3);
    let white = |c| Some(Paint { ch: c, red: 255, green: 255, blue: 255 });
    assert_eq!(frame[3], white('x'));
    assert_eq!(frame[4], white('h'));
    let g = m.glyph(1, 0).unwrap();
    assert_eq!(g.get_brightness(), 255);
    assert_eq!(frame[0], None);
}

#[test]
fn random_ticks_keep_the_policy() {
    let mut m = Matrix::new(20, 30);
    for _ in 0..500 {
        m.tick();
        assert_eq!((m.width(), m.height()), (20, 30));
        for s in m.streams() {
            assert!(s.get_x() < 20);
            assert!(s.get_y() < 30 * UNITS_PER_ROW as u128);
            assert!(MIN_SPAWN_SPEED <= s.get_speed() && s.get_speed() < MAX_SPAWN_SPEED);
            assert!(1 <= s.get_tail_len() && s.get_tail_len() <= 23);
            assert!(GLYPH_FIRST <= s.get_char() && s.get_char() <= GLYPH_LAST);
        }
        for x in 0..20 {
            for y in 0..30 {
                if let Some(g) = m.glyph(x, y) {
                    assert!(!g.has_faded());
                    assert!(GLYPH_FIRST <= g.get_char() && g.get_char() <= GLYPH_LAST);
                }
            }
        }
    }
}

#[test]
fn random_ticks_on_empty_width_spawn_nothing() {
    let mut m = Matrix::new(0, 5);
    for _ in 0..200 {
        m.tick();
    }
    assert!(m.streams().is_empty());
}

#[test]
fn terminal_size_doubles() {
    assert_eq!(term_to_matrix_size(80, 24), (160, 48));
    assert_eq!(term_to_matrix_size(0, 0), (0, 0));
    assert_eq!(term_to_matrix_size(u16::MAX, 1), (131070, 2));
}

#[test]
fn app_lifecycle() {
    let mut app = App::new(3, 2);
    assert!(!app.should_quit());
    assert_eq!((app.get_matrix().width(), app.get_matrix().height()), (6, 4));
    app.tick();
    app.resize(5, 1);
    assert_eq!((app.get_matrix().width(), app.get_matrix().height()), (10, 2));
    app.quit();
    assert!(app.should_quit());
}
