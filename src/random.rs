//! Random draws from the thread-local generator of `rand`.
use rand::Rng;
use vstd::prelude::*;

verus! {

/// First character of the glyph alphabet (KATAKANA LETTER SMALL A).
pub const GLYPH_FIRST: char = '\u{30A1}';

/// Last character of the glyph alphabet (KATAKANA DIGRAPH KOTO).
pub const GLYPH_LAST: char = '\u{30FA}';

/// Whether `c` belongs to the glyph alphabet.
pub open spec fn is_glyph_char(c: char) -> bool {
    GLYPH_FIRST <= c && c <= GLYPH_LAST
}

/// Relies on `rand::Rng::gen_ratio` on `rand::thread_rng()`: a draw that is
/// true with probability `numerator / denominator`. It panics when
/// `denominator == 0` or `numerator > denominator`.
#[verifier::external_body]
pub(crate) fn chance(numerator: u32, denominator: u32) -> (r: bool)
    requires
        0 < denominator,
        numerator <= denominator,
{
    rand::thread_rng().gen_ratio(numerator, denominator)
}

/// Relies on `rand::Rng::gen_range` over `lo..hi` on `rand::thread_rng()`:
/// an integer of the half-open range. It panics on an empty range.
#[verifier::external_body]
pub(crate) fn random_below(lo: u64, hi: u64) -> (r: u64)
    requires
        lo < hi,
    ensures
        lo <= r < hi,
{
    rand::thread_rng().gen_range(lo..hi)
}

/// Relies on `rand::Rng::gen_range` over `lo..=hi` on `rand::thread_rng()`:
/// a character of the inclusive range. It panics on an empty range.
#[verifier::external_body]
fn random_char(lo: char, hi: char) -> (r: char)
    requires
        lo <= hi,
    ensures
        lo <= r <= hi,
{
    rand::thread_rng().gen_range(lo..=hi)
}

/// A random character of the glyph alphabet.
pub(crate) fn random_glyph() -> (r: char)
    ensures
        is_glyph_char(r),
{
    random_char(GLYPH_FIRST, GLYPH_LAST)
}

} // verus!
