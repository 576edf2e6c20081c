//! A glyph left on the grid that dims over a fixed lifetime.
use crate::random::{chance, is_glyph_char, random_glyph};
use vstd::prelude::*;

verus! {

/// Largest numerator a lifetime may hold; keeps brightness arithmetic in `u128`.
pub const MAX_LIFETIME_NUM: u128 = 0x1_0000_0000_0000_0000_0000_0000;

/// The brightness of a glyph that has its whole lifetime ahead of it.
pub const MAX_BRIGHTNESS: u8 = 255;

/// A glyph changes its character on a tick with chance
/// `JITTER_NUMERATOR / JITTER_DENOMINATOR`.
pub const JITTER_NUMERATOR: u32 = 1;

pub const JITTER_DENOMINATOR: u32 = 500;

/// A lifetime of `num / den` ticks, held as an exact ratio.
#[derive(Clone, Copy, Debug, PartialEq, Eq, Structural)]
pub struct Lifetime {
    pub num: u128,
    pub den: u64,
}

impl Lifetime {
    pub open spec fn wf(self) -> bool {
        self.den > 0 && self.num <= MAX_LIFETIME_NUM
    }

    /// The lifetime of `num / den` ticks.
    pub fn new(num: u128, den: u64) -> (r: Lifetime)
        requires
            den > 0,
            num <= MAX_LIFETIME_NUM,
        ensures
            r == (Lifetime { num, den }),
            r.wf(),
    {
        Lifetime { num, den }
    }
}

/// Whether `elapsed` ticks exceed the lifetime `l`, that is `elapsed > l.num / l.den`
/// as real numbers.
pub open spec fn outlived(elapsed: int, l: Lifetime) -> bool {
    elapsed * l.den > l.num
}

/// The share of the lifetime `l` that remains after `elapsed` ticks, scaled to
/// `0..=MAX_BRIGHTNESS` and rounded down. A share below zero counts as zero,
/// and so does any share of an empty lifetime.
pub open spec fn brightness_of(elapsed: int, l: Lifetime) -> int {
    if l.num == 0 || l.num <= elapsed * l.den {
        0
    } else {
        (MAX_BRIGHTNESS as int) * (l.num - elapsed * l.den) / (l.num as int)
    }
}

#[derive(Clone, Copy, Debug, PartialEq, Eq, Structural)]
pub struct FadingChar {
    c: char,
    elapsed_ticks: u128,
    ticks_to_live: Lifetime,
}

impl FadingChar {
    /// The character shown.
    pub closed spec fn ch(self) -> char {
        self.c
    }

    /// Ticks since the glyph was placed.
    pub closed spec fn elapsed(self) -> int {
        self.elapsed_ticks as int
    }

    /// How many ticks the glyph lives.
    pub closed spec fn lifetime(self) -> Lifetime {
        self.ticks_to_live
    }

    pub open spec fn wf(self) -> bool {
        self.lifetime().wf()
    }

    /// Whether the glyph has outlived its lifetime and is due for removal.
    pub open spec fn faded(self) -> bool {
        outlived(self.elapsed(), self.lifetime())
    }

    pub open spec fn brightness(self) -> int {
        brightness_of(self.elapsed(), self.lifetime())
    }

    /// The glyph showing `c` that was just placed with lifetime `l`.
    pub closed spec fn placed(c: char, l: Lifetime) -> FadingChar {
        FadingChar { c, elapsed_ticks: 0, ticks_to_live: l }
    }

    /// The glyph one tick older, showing `change` instead when there is one.
    pub closed spec fn ticked(self, change: Option<char>) -> FadingChar {
        FadingChar {
            c: match change {
                Some(c) => c,
                None => self.c,
            },
            elapsed_ticks: (self.elapsed_ticks + 1) as u128,
            ticks_to_live: self.ticks_to_live,
        }
    }

    pub proof fn ticked_facts(self, change: Option<char>)
        requires
            self.elapsed() < u128::MAX,
        ensures
            self.ticked(change).ch() == (match change {
                Some(c) => c,
                None => self.ch(),
            }),
            self.ticked(change).elapsed() == self.elapsed() + 1,
            self.ticked(change).lifetime() == self.lifetime(),
    {
    }

    /// A glyph with a random character of the alphabet and lifetime `ticks_to_live`.
    pub fn new(ticks_to_live: Lifetime) -> (r: FadingChar)
        ensures
            is_glyph_char(r.ch()),
            r.elapsed() == 0,
            r.lifetime() == ticks_to_live,
            r == Self::placed(r.ch(), ticks_to_live),
    {
        let c = random_glyph();
        FadingChar { c, elapsed_ticks: 0, ticks_to_live }
    }

    /// A glyph showing `c` with lifetime `ticks_to_live`.
    pub fn new_with_char(c: char, ticks_to_live: Lifetime) -> (r: FadingChar)
        ensures
            r.ch() == c,
            r.elapsed() == 0,
            r.lifetime() == ticks_to_live,
            r == Self::placed(c, ticks_to_live),
    {
        FadingChar { c, elapsed_ticks: 0, ticks_to_live }
    }

    /// Ages the glyph by one tick; on rare ticks it takes a new random
    /// character of the alphabet.
    pub fn tick(&mut self)
        requires
            old(self).elapsed() < u128::MAX,
        ensures
            final(self).elapsed() == old(self).elapsed() + 1,
            final(self).lifetime() == old(self).lifetime(),
            final(self).ch() == old(self).ch() || is_glyph_char(final(self).ch()),
    {
        let change = if chance(JITTER_NUMERATOR, JITTER_DENOMINATOR) {
            Some(random_glyph())
        } else {
            None
        };
        self.tick_with(change);
    }

    /// Ages the glyph by one tick, showing `change` from now on when it is given.
    pub fn tick_with(&mut self, change: Option<char>)
        requires
            old(self).elapsed() < u128::MAX,
        ensures
            *final(self) == old(self).ticked(change),
            final(self).brightness() <= old(self).brightness(),
    {
        proof {
            lemma_brightness_non_increasing(self.elapsed(), self.elapsed() + 1, self.lifetime());
        }
        self.elapsed_ticks = self.elapsed_ticks + 1;
        if let Some(c) = change {
            self.c = c;
        }
    }

    pub fn get_char(&self) -> (r: char)
        ensures
            r == self.ch(),
    {
        self.c
    }

    pub fn get_elapsed(&self) -> (r: u128)
        ensures
            r == self.elapsed(),
    {
        self.elapsed_ticks
    }

    pub fn get_lifetime(&self) -> (r: Lifetime)
        ensures
            r == self.lifetime(),
    {
        self.ticks_to_live
    }

    /// Whether the glyph has outlived its lifetime.
    pub fn has_faded(&self) -> (r: bool)
        requires
            self.wf(),
        ensures
            r == self.faded(),
    {
        let l = self.ticks_to_live;
        proof {
            lemma_outlived_by_quotient(self.elapsed_ticks as int, l.num as int, l.den as int);
        }
        self.elapsed_ticks > l.num / (l.den as u128)
    }

    /// The green level of the glyph: the remaining share of its lifetime,
    /// scaled to `0..=MAX_BRIGHTNESS`.
    pub fn get_brightness(&self) -> (r: u8)
        requires
            self.wf(),
        ensures
            r == self.brightness(),
    {
        let l = self.ticks_to_live;
        let e = self.elapsed_ticks;
        proof {
            lemma_outlived_by_quotient(e as int, l.num as int, l.den as int);
        }
        if l.num == 0 || e > l.num / (l.den as u128) {
            return 0;
        }
        proof {
            assert(e * l.den <= l.num);
        }
        let left = l.num - e * (l.den as u128);
        if left == 0 {
            return 0;
        }
        proof {
            lemma_scaled_share(left as int, l.num as int);
        }
        (((MAX_BRIGHTNESS as u128) * left) / l.num) as u8
    }
}

/// `e > n / d` (rounded down) exactly when `e * d > n`.
proof fn lemma_outlived_by_quotient(e: int, n: int, d: int)
    requires
        e >= 0,
        n >= 0,
        d > 0,
    ensures
        (e > n / d) <==> (e * d > n),
{
    vstd::arithmetic::div_mod::lemma_fundamental_div_mod(n, d);
    vstd::arithmetic::div_mod::lemma_mod_pos_bound(n, d);
    let q = n / d;
    let m = n % d;
    assert((e > q) <==> (e * d > n)) by (nonlinear_arith)
        requires
            n == d * q + m,
            0 <= m < d,
            d > 0,
    ;
}

proof fn lemma_scaled_share(left: int, n: int)
    requires
        0 < left <= n,
    ensures
        0 <= (MAX_BRIGHTNESS as int) * left / n <= MAX_BRIGHTNESS,
{
    assert(0 <= 255 * left / n <= 255) by (nonlinear_arith)
        requires
            0 < left <= n,
    ;
}

/// Brightness never rises as a glyph ages: for elapsed counts `e1 <= e2`, the
/// glyph is at least as bright at `e1` as at `e2`.
pub proof fn lemma_brightness_non_increasing(e1: int, e2: int, l: Lifetime)
    requires
        0 <= e1 <= e2,
    ensures
        brightness_of(e2, l) <= brightness_of(e1, l),
{
    if l.num != 0 && l.num > e2 * l.den {
        assert(e1 * l.den <= e2 * l.den) by (nonlinear_arith)
            requires
                0 <= e1 <= e2,
                l.den >= 0,
        ;
        let a = l.num - e2 * l.den;
        let b = l.num - e1 * l.den;
        assert(255 * a / (l.num as int) <= 255 * b / (l.num as int)) by (nonlinear_arith)
            requires
                0 < a <= b,
                l.num > 0,
        ;
    }
}

/// A glyph that has not outlived its lifetime can age by another tick.
pub proof fn lemma_live_glyph_can_age(g: FadingChar)
    requires
        g.wf(),
        !g.faded(),
    ensures
        0 <= g.elapsed() < u128::MAX,
{
    let e = g.elapsed();
    let l = g.lifetime();
    assert(e <= l.num) by (nonlinear_arith)
        requires
            e * l.den <= l.num,
            l.den >= 1,
            e >= 0,
    ;
}

/// A glyph that was just placed is alive.
pub proof fn lemma_placed_is_live(c: char, l: Lifetime)
    requires
        l.wf(),
    ensures
        FadingChar::placed(c, l).wf(),
        !FadingChar::placed(c, l).faded(),
{
}

/// A glyph that is due for removal shows no brightness.
pub proof fn lemma_faded_is_dark(g: FadingChar)
    requires
        g.faded(),
    ensures
        g.brightness() == 0,
{
}

} // verus!
