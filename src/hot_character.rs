//! The bright head of a falling stream.
use crate::fading_character::Lifetime;
use crate::random::{is_glyph_char, random_glyph};
use std::cmp::Ordering;
use vstd::prelude::*;

verus! {

/// Positions and speeds are counted in units; one row is this many units.
pub const UNITS_PER_ROW: u64 = 1000;

/// A stream takes a new character every this many ticks.
pub const CHAR_CHANGE_TICKS: usize = 6;

/// The row that holds the position `y` (in units): `y` rounded down to rows.
pub open spec fn row_of(y: int) -> int {
    y / (UNITS_PER_ROW as int)
}

#[derive(Clone, Copy, Debug, PartialEq, Eq, Structural)]
pub struct HotChar {
    c: char,
    x: usize,
    /// position in units, growing downwards
    y: u128,
    /// units per tick
    speed: u64,
    tail_len: usize,
    ticks_since_last_char_change: usize,
}

impl HotChar {
    pub closed spec fn ch(self) -> char {
        self.c
    }

    /// The column the stream falls in.
    pub closed spec fn col(self) -> int {
        self.x as int
    }

    /// The position in units.
    pub closed spec fn pos(self) -> int {
        self.y as int
    }

    /// Units travelled per tick.
    pub closed spec fn speed(self) -> int {
        self.speed as int
    }

    pub closed spec fn tail_len(self) -> int {
        self.tail_len as int
    }

    /// Ticks since the character last changed.
    pub closed spec fn since_change(self) -> int {
        self.ticks_since_last_char_change as int
    }

    pub open spec fn wf(self) -> bool {
        self.speed() > 0 && 0 <= self.since_change() < CHAR_CHANGE_TICKS
    }

    /// The row the stream is in.
    pub open spec fn row(self) -> int {
        row_of(self.pos())
    }

    /// Whether the next tick carries the stream across a row boundary.
    pub open spec fn crosses(self) -> bool {
        row_of(self.pos()) != row_of(self.pos() + self.speed())
    }

    /// The lifetime of the glyphs the stream leaves: the ticks it takes to
    /// cross one row (`UNITS_PER_ROW / speed`) times its tail length.
    pub closed spec fn trail_lifetime(self) -> Lifetime {
        Lifetime { num: (self.tail_len * UNITS_PER_ROW) as u128, den: self.speed }
    }

    /// What the next tick reports: on crossing a row boundary, the column,
    /// the row that was left and the lifetime of the glyph to place there.
    pub open spec fn event(self) -> Option<(usize, u128, Lifetime)> {
        if self.crosses() {
            Some((self.col() as usize, self.row() as u128, self.trail_lifetime()))
        } else {
            None
        }
    }

    /// A stream in column `x` at the top, with the given speed, tail length
    /// and character.
    pub closed spec fn started(x: usize, speed: u64, tail_len: usize, c: char) -> HotChar {
        HotChar { c, x, y: 0, speed, tail_len, ticks_since_last_char_change: 0 }
    }

    /// The stream one tick later; `fresh` is the character it takes if its
    /// character is due to change.
    pub closed spec fn ticked(self, fresh: char) -> HotChar {
        let since = self.ticks_since_last_char_change + 1;
        HotChar {
            c: if since >= CHAR_CHANGE_TICKS { fresh } else { self.c },
            y: (self.y + self.speed) as u128,
            ticks_since_last_char_change: if since >= CHAR_CHANGE_TICKS { 0 } else { since as usize },
            ..self
        }
    }

    pub proof fn started_facts(x: usize, speed: u64, tail_len: usize, c: char)
        ensures
            Self::started(x, speed, tail_len, c).ch() == c,
            Self::started(x, speed, tail_len, c).col() == x,
            Self::started(x, speed, tail_len, c).pos() == 0,
            Self::started(x, speed, tail_len, c).speed() == speed,
            Self::started(x, speed, tail_len, c).tail_len() == tail_len,
            Self::started(x, speed, tail_len, c).since_change() == 0,
    {
    }

    pub proof fn range_facts(self)
        ensures
            0 <= self.col() <= usize::MAX,
            0 <= self.pos() <= u128::MAX,
            0 <= self.speed() <= u64::MAX,
            0 <= self.tail_len() <= usize::MAX,
    {
    }

    pub proof fn ticked_facts(self, fresh: char)
        requires
            self.wf(),
            self.pos() + self.speed() <= u128::MAX,
        ensures
            self.ticked(fresh).wf(),
            self.ticked(fresh).col() == self.col(),
            self.ticked(fresh).pos() == self.pos() + self.speed(),
            self.ticked(fresh).speed() == self.speed(),
            self.ticked(fresh).tail_len() == self.tail_len(),
            self.ticked(fresh).ch() == (if self.since_change() + 1 >= CHAR_CHANGE_TICKS {
                fresh
            } else {
                self.ch()
            }),
    {
    }

    pub proof fn trail_lifetime_facts(self)
        ensures
            self.trail_lifetime().num == self.tail_len() * UNITS_PER_ROW,
            self.trail_lifetime().den == self.speed(),
            self.speed() > 0 ==> self.trail_lifetime().wf(),
    {
    }

    /// A stream in column `x` at the top, falling `speed` units per tick, with
    /// a random character of the alphabet.
    pub fn new(x: usize, speed: u64, max_len: usize) -> (r: HotChar)
        requires
            speed > 0,
        ensures
            r.wf(),
            is_glyph_char(r.ch()),
            r == Self::started(x, speed, max_len, r.ch()),
    {
        let c = random_glyph();
        Self::new_with_char(x, speed, max_len, c)
    }

    /// A stream in column `x` at the top, falling `speed` units per tick,
    /// showing `c`.
    pub fn new_with_char(x: usize, speed: u64, max_len: usize, c: char) -> (r: HotChar)
        requires
            speed > 0,
        ensures
            r.wf(),
            r == Self::started(x, speed, max_len, c),
    {
        HotChar { c, x, y: 0, speed, tail_len: max_len, ticks_since_last_char_change: 0 }
    }

    /// Advances the stream by one tick, taking a random new character when
    /// one is due, and reports the glyph to leave behind on crossing a row
    /// boundary.
    pub fn tick(&mut self) -> (r: Option<(usize, u128, Lifetime)>)
        requires
            old(self).wf(),
            old(self).pos() + old(self).speed() <= u128::MAX,
        ensures
            r == old(self).event(),
            *final(self) == old(self).ticked(final(self).ch()),
            final(self).ch() == old(self).ch() || is_glyph_char(final(self).ch()),
            final(self).wf(),
    {
        let fresh = random_glyph();
        self.tick_with(fresh)
    }

    /// Advances the stream by one tick, taking `fresh` as its character when
    /// one is due, and reports the glyph to leave behind on crossing a row
    /// boundary.
    pub fn tick_with(&mut self, fresh: char) -> (r: Option<(usize, u128, Lifetime)>)
        requires
            old(self).wf(),
            old(self).pos() + old(self).speed() <= u128::MAX,
        ensures
            r == old(self).event(),
            *final(self) == old(self).ticked(fresh),
            final(self).wf(),
    {
        let old_y = self.y;
        let new_y = old_y + self.speed as u128;
        self.y = new_y;
        self.ticks_since_last_char_change = self.ticks_since_last_char_change + 1;
        if self.ticks_since_last_char_change >= CHAR_CHANGE_TICKS {
            self.c = fresh;
            self.ticks_since_last_char_change = 0;
        }
        let unit = UNITS_PER_ROW as u128;
        if old_y / unit != new_y / unit {
            let ticks_to_live = Lifetime::new(
                (self.tail_len as u128) * unit,
                self.speed,
            );
            return Some((self.x, old_y / unit, ticks_to_live));
        }
        None
    }

    /// Whether the stream is still above row `height`.
    pub fn smaller_than(&self, height: usize) -> (r: bool)
        ensures
            r == (self.pos() < height * UNITS_PER_ROW),
    {
        self.y < (height as u128) * (UNITS_PER_ROW as u128)
    }

    /// Orders streams by position, then by speed. Streams equal in both
    /// compare equal.
    pub fn cmp_position(&self, other: &HotChar) -> (r: Ordering)
        ensures
            r == (if self.pos() != other.pos() {
                if self.pos() < other.pos() {
                    Ordering::Less
                } else {
                    Ordering::Greater
                }
            } else if self.speed() < other.speed() {
                Ordering::Less
            } else if self.speed() > other.speed() {
                Ordering::Greater
            } else {
                Ordering::Equal
            }),
    {
        if self.y != other.y {
            if self.y < other.y {
                Ordering::Less
            } else {
                Ordering::Greater
            }
        } else if self.speed < other.speed {
            Ordering::Less
        } else if self.speed > other.speed {
            Ordering::Greater
        } else {
            Ordering::Equal
        }
    }

    pub fn get_x(&self) -> (r: usize)
        ensures
            r == self.col(),
    {
        self.x
    }

    /// The position in units.
    pub fn get_y(&self) -> (r: u128)
        ensures
            r == self.pos(),
    {
        self.y
    }

    /// The row the stream is in.
    pub fn get_row(&self) -> (r: u128)
        ensures
            r == self.row(),
    {
        self.y / (UNITS_PER_ROW as u128)
    }

    pub fn get_speed(&self) -> (r: u64)
        ensures
            r == self.speed(),
    {
        self.speed
    }

    pub fn get_tail_len(&self) -> (r: usize)
        ensures
            r == self.tail_len(),
    {
        self.tail_len
    }

    pub fn get_char(&self) -> (r: char)
        ensures
            r == self.ch(),
    {
        self.c
    }
}

} // verus!
