//! The animation state: a grid of fading glyphs and the streams that fall
//! through it.
use crate::fading_character::{
    lemma_brightness_non_increasing, lemma_live_glyph_can_age, lemma_placed_is_live, outlived, FadingChar, JITTER_DENOMINATOR, JITTER_NUMERATOR,
};
use crate::hot_character::{HotChar, UNITS_PER_ROW};
use crate::random::{chance, is_glyph_char, random_below, random_glyph};
use vstd::prelude::*;

verus! {

/// Streams of a well-formed matrix stay below this position (in units).
pub const STREAM_POS_LIMIT: u128 = 0x1_0000_0000_0000_0000_0000;

/// A tick starts a new stream with chance `SPAWN_NUMERATOR / SPAWN_DENOMINATOR`.
pub const SPAWN_NUMERATOR: u32 = 1;

pub const SPAWN_DENOMINATOR: u32 = 10;

/// New streams fall at least this many units per tick.
pub const MIN_SPAWN_SPEED: u64 = 50;

/// New streams fall fewer than this many units per tick, so that they cross
/// at most one row boundary on a tick.
pub const MAX_SPAWN_SPEED: u64 = 500;

/// The rows near the bottom that a new stream's tail does not count on.
pub const TAIL_MARGIN: usize = 8;

/// The longest tail a new stream in a grid `height` rows high may have.
pub open spec fn max_tail(height: int) -> int {
    if height - TAIL_MARGIN > 1 {
        height - TAIL_MARGIN + 1
    } else {
        2
    }
}

/// Where cell `(x, y)` of a grid `height` rows high is stored: columns one
/// after another.
pub open spec fn cell_index(x: int, y: int, height: int) -> int {
    x * height + y
}

/// The cell `(x, y)` of the column-major sequence `cells`.
pub open spec fn cell_at<T>(cells: Seq<T>, x: int, y: int, height: int) -> T {
    cells[cell_index(x, y, height)]
}

/// Whether a stream at row `height` or below has left the grid.
pub open spec fn still_active(height: int) -> spec_fn(HotChar) -> bool {
    |s: HotChar| s.pos() < height * UNITS_PER_ROW
}

/// A cell after one tick of ageing: its glyph, if any, is one tick older and
/// shows `change` when one is given; it is gone once it has outlived its
/// lifetime.
pub open spec fn aged(cell: Option<FadingChar>, change: Option<char>) -> Option<FadingChar> {
    match cell {
        None => None,
        Some(g) => if g.ticked(change).faded() {
            None
        } else {
            Some(g.ticked(change))
        },
    }
}

/// A stream to start: its column, speed in units per tick, tail length and
/// character.
#[derive(Clone, Copy, Debug, PartialEq, Eq, Structural)]
pub struct StreamSeed {
    pub x: usize,
    pub speed: u64,
    pub tail_len: usize,
    pub c: char,
}

/// The random draws that one tick consumes.
#[derive(Debug)]
pub struct TickDraws {
    /// per cell, in storage order: the character the glyph there changes to, if any
    pub jitter: Vec<Option<char>>,
    /// per stream: the character it takes when its character is due to change
    pub heads: Vec<char>,
    /// per stream: the character of the glyph it leaves on crossing a row
    pub trails: Vec<char>,
    /// the stream to start, if any
    pub spawn: Option<StreamSeed>,
}

impl TickDraws {
    /// The draws have one entry for each cell and each stream of `s`.
    pub open spec fn fits(self, s: Scene) -> bool {
        &&& self.jitter@.len() == s.cells.len()
        &&& self.heads@.len() == s.streams.len()
        &&& self.trails@.len() == s.streams.len()
        &&& self.spawn matches Some(seed) ==> seed.speed > 0
    }
}

impl StreamSeed {
    /// The seed is one that a tick may draw for a grid `width` by `height`:
    /// a column of the grid, a speed of the spawn range, a tail of
    /// `1..=max_tail(height)` and a character of the alphabet.
    pub open spec fn follows_policy(self, width: int, height: int) -> bool {
        &&& self.x < width
        &&& MIN_SPAWN_SPEED <= self.speed < MAX_SPAWN_SPEED
        &&& 1 <= self.tail_len <= max_tail(height)
        &&& is_glyph_char(self.c)
    }
}

impl TickDraws {
    /// Every character drawn belongs to the alphabet and the spawned stream,
    /// if any, is one that a tick may draw for `s`.
    pub open spec fn follows_policy(self, s: Scene) -> bool {
        &&& forall|i: int|
            0 <= i < self.jitter@.len() && (#[trigger] self.jitter@[i]) is Some ==> is_glyph_char(
                self.jitter@[i]->0,
            )
        &&& forall|i: int| 0 <= i < self.heads@.len() ==> is_glyph_char(#[trigger] self.heads@[i])
        &&& forall|i: int| 0 <= i < self.trails@.len() ==> is_glyph_char(#[trigger] self.trails@[i])
        &&& self.spawn matches Some(seed) ==> seed.follows_policy(s.width, s.height)
    }
}

/// What a frame shows in one cell: a character and its foreground colour.
#[derive(Clone, Copy, Debug, PartialEq, Eq, Structural)]
pub struct Paint {
    pub ch: char,
    pub red: u8,
    pub green: u8,
    pub blue: u8,
}

/// The character of the last of `streams` whose head is at `(x, y)`.
pub open spec fn head_at(streams: Seq<HotChar>, x: int, y: int) -> Option<char>
    decreases streams.len(),
{
    if streams.len() == 0 {
        None
    } else if streams.last().col() == x && streams.last().row() == y {
        Some(streams.last().ch())
    } else {
        head_at(streams.drop_last(), x, y)
    }
}

/// A stream head: its character in white.
pub open spec fn head_paint(c: char) -> Paint {
    Paint { ch: c, red: 255, green: 255, blue: 255 }
}

/// The abstract state of a matrix.
pub struct Scene {
    pub width: int,
    pub height: int,
    /// `width * height` cells, column by column
    pub cells: Seq<Option<FadingChar>>,
    /// the falling streams, in order of creation
    pub streams: Seq<HotChar>,
}

impl Scene {
    pub open spec fn glyph_at(self, x: int, y: int) -> Option<FadingChar> {
        cell_at(self.cells, x, y, self.height)
    }

    /// The grid has its size and holds only glyphs that are still alive.
    pub open spec fn cells_ok(self) -> bool {
        &&& 0 <= self.width
        &&& 0 <= self.height
        &&& self.cells.len() == self.width * self.height
        &&& forall|i: int|
            0 <= i < self.cells.len() && (#[trigger] self.cells[i]) is Some ==> {
                &&& self.cells[i]->0.wf()
                &&& !self.cells[i]->0.faded()
            }
    }

    /// Every stream is well formed and above `bound` units.
    pub open spec fn streams_below(self, bound: int) -> bool {
        forall|i: int|
            0 <= i < self.streams.len() ==> {
                &&& (#[trigger] self.streams[i]).wf()
                &&& self.streams[i].pos() < bound
            }
    }

    pub open spec fn wf(self) -> bool {
        self.cells_ok() && self.streams_below(STREAM_POS_LIMIT as int)
    }

    /// Every glyph aged by one tick, with the changes of `jitter`.
    pub open spec fn aged_all(self, jitter: Seq<Option<char>>) -> Scene {
        Scene { cells: Seq::new(self.cells.len(), |i: int| aged(self.cells[i], jitter[i])), ..self }
    }

    /// The cells after the first `n` streams have left their glyphs, the
    /// glyph of stream `i` showing `trails[i]`: a stream that crosses a row
    /// boundary places a new glyph in the row it leaves when that cell is in
    /// the grid, over whatever was there.
    pub open spec fn trails_placed(self, trails: Seq<char>, n: int) -> Seq<Option<FadingChar>>
        decreases n,
    {
        if n <= 0 {
            self.cells
        } else {
            let prev = self.trails_placed(trails, n - 1);
            match self.streams[n - 1].event() {
                Some((x, row, l)) => if x < self.width && row < self.height {
                    prev.update(
                        cell_index(x as int, row as int, self.height),
                        Some(FadingChar::placed(trails[n - 1], l)),
                    )
                } else {
                    prev
                },
                None => prev,
            }
        }
    }

    /// Every stream advanced by one tick and its glyph placed.
    pub open spec fn streams_advanced(self, heads: Seq<char>, trails: Seq<char>) -> Scene {
        Scene {
            cells: self.trails_placed(trails, self.streams.len() as int),
            streams: Seq::new(self.streams.len(), |i: int| self.streams[i].ticked(heads[i])),
            ..self
        }
    }

    /// A new stream added after the others.
    pub open spec fn with_stream(self, seed: StreamSeed) -> Scene {
        Scene {
            streams: self.streams.push(HotChar::started(seed.x, seed.speed, seed.tail_len, seed.c)),
            ..self
        }
    }

    pub open spec fn spawned(self, spawn: Option<StreamSeed>) -> Scene {
        match spawn {
            Some(seed) => self.with_stream(seed),
            None => self,
        }
    }

    /// The streams that have left the grid removed.
    pub open spec fn pruned(self) -> Scene {
        Scene { streams: self.streams.filter(still_active(self.height)), ..self }
    }

    /// The glyph at `(x, y)`, if the grid has one there, in green of its
    /// brightness.
    pub open spec fn glyph_paint(self, x: int, y: int) -> Option<Paint> {
        if x < self.width && y < self.height {
            match self.glyph_at(x, y) {
                Some(g) => Some(Paint { ch: g.ch(), red: 0, green: g.brightness() as u8, blue: 0 }),
                None => None,
            }
        } else {
            None
        }
    }

    /// What a frame shows at `(x, y)`: the head of a stream there, which
    /// covers any glyph, else the glyph there, else nothing.
    pub open spec fn paint_at(self, x: int, y: int) -> Option<Paint> {
        match head_at(self.streams, x, y) {
            Some(c) => Some(head_paint(c)),
            None => self.glyph_paint(x, y),
        }
    }

    /// One tick: glyphs age and expire, streams advance and leave glyphs, a
    /// stream may start, and streams that left the grid are removed.
    pub open spec fn stepped(self, d: TickDraws) -> Scene {
        self.aged_all(d.jitter@).streams_advanced(d.heads@, d.trails@).spawned(d.spawn).pruned()
    }
}

/// A glyph leaves the grid on the tick that takes its elapsed ticks past its
/// lifetime, and on no other: once every glyph has aged, the cell of a glyph
/// is empty exactly when the glyph, one tick older, has outlived its
/// lifetime.
pub proof fn lemma_removed_iff_outlived(s: Scene, jitter: Seq<Option<char>>, x: int, y: int)
    requires
        s.cells_ok(),
        jitter.len() == s.cells.len(),
        0 <= x < s.width,
        0 <= y < s.height,
        s.glyph_at(x, y) is Some,
    ensures
        s.aged_all(jitter).glyph_at(x, y) is None <==> outlived(
            s.glyph_at(x, y)->0.elapsed() + 1,
            s.glyph_at(x, y)->0.lifetime(),
        ),
{
    lemma_index_in_bounds(x, y, s.width, s.height);
    let g = s.glyph_at(x, y)->0;
    lemma_live_glyph_can_age(g);
    g.ticked_facts(jitter[cell_index(x, y, s.height)]);
}

/// Glyphs only dim while they stay on the grid: a glyph that is still in its
/// cell after ageing was there before and is no brighter than it was.
pub proof fn lemma_aged_glyph_no_brighter(s: Scene, jitter: Seq<Option<char>>, x: int, y: int)
    requires
        s.cells_ok(),
        jitter.len() == s.cells.len(),
        0 <= x < s.width,
        0 <= y < s.height,
        s.aged_all(jitter).glyph_at(x, y) is Some,
    ensures
        s.glyph_at(x, y) is Some,
        s.aged_all(jitter).glyph_at(x, y)->0.brightness() <= s.glyph_at(x, y)->0.brightness(),
{
    lemma_index_in_bounds(x, y, s.width, s.height);
    let g = s.glyph_at(x, y)->0;
    lemma_live_glyph_can_age(g);
    g.ticked_facts(jitter[cell_index(x, y, s.height)]);
    lemma_brightness_non_increasing(g.elapsed(), g.elapsed() + 1, g.lifetime());
}

/// Encapsulates the state of the animation: the grid of fading glyphs and
/// the falling streams.
#[derive(Debug)]
pub struct Matrix {
    fading_chars: Vec<Option<FadingChar>>,
    hot_chars: Vec<HotChar>,
    width: usize,
    height: usize,
}

impl View for Matrix {
    type V = Scene;

    closed spec fn view(&self) -> Scene {
        Scene {
            width: self.width as int,
            height: self.height as int,
            cells: self.fading_chars@,
            streams: self.hot_chars@,
        }
    }
}

/// Cell `(x, y)` of a `width` by `height` grid lies within its storage, and
/// before the cells of later columns.
proof fn lemma_index_in_bounds(x: int, y: int, width: int, height: int)
    requires
        0 <= x < width,
        0 <= y < height,
    ensures
        0 <= cell_index(x, y, height) < width * height,
        x * height <= cell_index(x, y, height) < (x + 1) * height,
{
    assert(0 <= x * height + y < (x + 1) * height <= width * height) by (nonlinear_arith)
        requires
            0 <= x < width,
            0 <= y < height,
    ;
}

/// The columns before column `x + 1` end within the storage.
proof fn lemma_column_end(x: int, width: int, height: int)
    requires
        0 <= x < width,
        0 <= height,
    ensures
        x * height + height == (x + 1) * height,
        (x + 1) * height <= width * height,
{
    assert((x + 1) * height <= width * height) by (nonlinear_arith)
        requires
            0 <= x < width,
            0 <= height,
    ;
    assert(x * height + height == (x + 1) * height) by (nonlinear_arith);
}

/// Distinct cells are stored apart.
proof fn lemma_index_injective(x1: int, y1: int, x2: int, y2: int, height: int)
    requires
        0 <= x1,
        0 <= x2,
        0 <= y1 < height,
        0 <= y2 < height,
        cell_index(x1, y1, height) == cell_index(x2, y2, height),
    ensures
        x1 == x2,
        y1 == y2,
{
    if x1 < x2 {
        assert(x1 * height + y1 < x2 * height + y2) by (nonlinear_arith)
            requires
                x1 < x2,
                0 <= y1 < height,
                0 <= y2,
        ;
    } else if x2 < x1 {
        assert(x2 * height + y2 < x1 * height + y1) by (nonlinear_arith)
            requires
                x2 < x1,
                0 <= y2 < height,
                0 <= y1,
        ;
    }
}

impl Matrix {
    pub open spec fn wf(&self) -> bool {
        self@.wf()
    }

    /// An empty `width` by `height` grid with no streams.
    pub fn new(width: usize, height: usize) -> (r: Matrix)
        requires
            width * height <= usize::MAX,
        ensures
            r.wf(),
            r@.width == width,
            r@.height == height,
            r@.streams.len() == 0,
            forall|x: int, y: int|
                0 <= x < width && 0 <= y < height ==> #[trigger] r@.glyph_at(x, y) is None,
    {
        let n = width * height;
        let mut cells: Vec<Option<FadingChar>> = Vec::new();
        let mut i: usize = 0;
        while i < n
            invariant
                i <= n,
                cells@.len() == i,
                forall|j: int| 0 <= j < i ==> #[trigger] cells@[j] is None,
            decreases n - i,
        {
            cells.push(None);
            i = i + 1;
        }
        let r = Matrix { fading_chars: cells, hot_chars: Vec::new(), width, height };
        assert forall|x: int, y: int| 0 <= x < width && 0 <= y < height implies #[trigger] r@.glyph_at(
            x,
            y,
        ) is None by {
            lemma_index_in_bounds(x, y, width as int, height as int);
        }
        r
    }

    /// Changes the grid to `width` by `height`. Cells that stay within
    /// bounds keep their glyph; new cells start empty; the rest is dropped.
    /// The streams are left as they are.
    pub fn resize(&mut self, width: usize, height: usize)
        requires
            old(self).wf(),
            width * height <= usize::MAX,
        ensures
            final(self).wf(),
            final(self)@.width == width,
            final(self)@.height == height,
            final(self)@.streams == old(self)@.streams,
            forall|x: int, y: int|
                0 <= x < width && 0 <= y < height ==> #[trigger] final(self)@.glyph_at(x, y) == (
                if x < old(self)@.width && y < old(self)@.height {
                    old(self)@.glyph_at(x, y)
                } else {
                    None
                }),
    {
        let ghost pre = self@;
        let mut cells: Vec<Option<FadingChar>> = Vec::new();
        let mut x: usize = 0;
        while x < width
            invariant
                pre == self@,
                pre.wf(),
                width * height <= usize::MAX,
                x <= width,
                cells@.len() == x * height,
                forall|i: int|
                    0 <= i < cells@.len() && (#[trigger] cells@[i]) is Some ==> pre.cells.contains(
                        cells@[i],
                    ),
                forall|a: int, b: int|
                    0 <= a < x && 0 <= b < height ==> #[trigger] cell_at(cells@, a, b, height as int)
                        == (if a < pre.width && b < pre.height {
                        pre.glyph_at(a, b)
                    } else {
                        None
                    }),
            decreases width - x,
        {
            proof {
                lemma_column_end(x as int, width as int, height as int);
            }
            let mut y: usize = 0;
            while y < height
                invariant
                    pre == self@,
                    pre.wf(),
                    width * height <= usize::MAX,
                    x < width,
                    y <= height,
                    (x + 1) * height <= width * height,
                    cells@.len() == x * height + y,
                    forall|i: int|
                        0 <= i < cells@.len() && (#[trigger] cells@[i]) is Some
                            ==> pre.cells.contains(cells@[i]),
                    forall|a: int, b: int|
                        0 <= a < x && 0 <= b < height ==> #[trigger] cell_at(
                            cells@,
                            a,
                            b,
                            height as int,
                        ) == (if a < pre.width && b < pre.height {
                            pre.glyph_at(a, b)
                        } else {
                            None
                        }),
                    forall|b: int|
                        0 <= b < y ==> #[trigger] cell_at(cells@, x as int, b, height as int) == (
                        if x < pre.width && b < pre.height {
                            pre.glyph_at(x as int, b)
                        } else {
                            None
                        }),
                decreases height - y,
            {
                let kept = if x < self.width && y < self.height {
                    proof {
                        lemma_index_in_bounds(x as int, y as int, pre.width, pre.height);
                    }
                    let n = self.fading_chars.len();
                    assert(x * self.height + y < n);
                    self.fading_chars[x * self.height + y]
                } else {
                    None
                };
                let ghost before = cells@;
                cells.push(kept);
                proof {
                    assert forall|a: int, b: int|
                        0 <= a < x && 0 <= b < height implies #[trigger] cell_at(
                        cells@,
                        a,
                        b,
                        height as int,
                    ) == cell_at(before, a, b, height as int) by {
                        lemma_index_in_bounds(a, b, x as int, height as int);
                    }
                    assert forall|b: int| 0 <= b < y + 1 implies #[trigger] cell_at(
                        cells@,
                        x as int,
                        b,
                        height as int,
                    ) == (if x < pre.width && b < pre.height {
                        pre.glyph_at(x as int, b)
                    } else {
                        None
                    }) by {
                        if b < y {
                            assert(cell_at(cells@, x as int, b, height as int) == cell_at(
                                before,
                                x as int,
                                b,
                                height as int,
                            ));
                        }
                    }
                    assert forall|i: int|
                        0 <= i < cells@.len() && (#[trigger] cells@[i]) is Some implies pre.cells.contains(
                        cells@[i],
                    ) by {
                        if i < before.len() {
                            assert(cells@[i] == before[i]);
                        } else {
                            let k = x * pre.height + y;
                            assert(pre.cells[k] == cells@[i]);
                        }
                    }
                }
                y = y + 1;
            }
            x = x + 1;
        }
        self.fading_chars = cells;
        self.width = width;
        self.height = height;
        assert forall|i: int|
            0 <= i < self@.cells.len() && (#[trigger] self@.cells[i]) is Some implies {
            &&& self@.cells[i]->0.wf()
            &&& !self@.cells[i]->0.faded()
        } by {
            let k = choose|k: int| 0 <= k < pre.cells.len() && pre.cells[k] == self@.cells[i];
            assert(pre.cells[k] is Some);
        }
        assert(self@.cells.len() == self@.width * self@.height);
        assert(self@.streams == pre.streams);
        assert(self@.streams_below(STREAM_POS_LIMIT as int));
    }

    /// Ages every glyph by one tick and removes those that outlived their
    /// lifetime.
    fn age_glyphs(&mut self, jitter: &Vec<Option<char>>)
        requires
            old(self)@.cells_ok(),
            jitter@.len() == old(self)@.cells.len(),
        ensures
            final(self)@ == old(self)@.aged_all(jitter@),
            final(self)@.cells_ok(),
    {
        let ghost pre = self@;
        let n = self.fading_chars.len();
        let mut i: usize = 0;
        while i < n
            invariant
                pre.cells_ok(),
                jitter@.len() == n,
                n == pre.cells.len(),
                i <= n,
                self@.width == pre.width,
                self@.height == pre.height,
                self@.streams == pre.streams,
                self@.cells.len() == n,
                forall|j: int| 0 <= j < i ==> #[trigger] self@.cells[j] == aged(pre.cells[j], jitter@[j]),
                forall|j: int| i <= j < n ==> #[trigger] self@.cells[j] == pre.cells[j],
            decreases n - i,
        {
            if let Some(g) = self.fading_chars[i] {
                let mut g = g;
                proof {
                    assert(pre.cells[i as int] is Some);
                    lemma_live_glyph_can_age(g);
                    g.ticked_facts(jitter@[i as int]);
                }
                g.tick_with(jitter[i]);
                if g.has_faded() {
                    self.fading_chars.set(i, None);
                } else {
                    self.fading_chars.set(i, Some(g));
                }
            }
            i = i + 1;
        }
        assert(self@.cells =~= pre.aged_all(jitter@).cells);
        assert forall|j: int|
            0 <= j < self@.cells.len() && (#[trigger] self@.cells[j]) is Some implies {
            &&& self@.cells[j]->0.wf()
            &&& !self@.cells[j]->0.faded()
        } by {
            assert(pre.cells[j] is Some);
            lemma_live_glyph_can_age(pre.cells[j]->0);
            pre.cells[j]->0.ticked_facts(jitter@[j]);
        }
    }

    /// Advances every stream by one tick and places the glyphs they leave.
    fn advance_streams(&mut self, heads: &Vec<char>, trails: &Vec<char>)
        requires
            old(self)@.cells_ok(),
            old(self)@.streams_below(STREAM_POS_LIMIT as int),
            heads@.len() == old(self)@.streams.len(),
            trails@.len() == old(self)@.streams.len(),
        ensures
            final(self)@ == old(self)@.streams_advanced(heads@, trails@),
            final(self)@.cells_ok(),
            final(self)@.streams_below(STREAM_POS_LIMIT + u64::MAX + 1),
    {
        let ghost pre = self@;
        let n = self.hot_chars.len();
        let mut i: usize = 0;
        while i < n
            invariant
                pre.cells_ok(),
                pre.streams_below(STREAM_POS_LIMIT as int),
                heads@.len() == n,
                trails@.len() == n,
                n == pre.streams.len(),
                i <= n,
                self@.width == pre.width,
                self@.height == pre.height,
                self@.cells == pre.trails_placed(trails@, i as int),
                self@.cells_ok(),
                self@.streams.len() == n,
                forall|j: int|
                    0 <= j < i ==> #[trigger] self@.streams[j] == pre.streams[j].ticked(heads@[j]),
                forall|j: int| i <= j < n ==> #[trigger] self@.streams[j] == pre.streams[j],
            decreases n - i,
        {
            let mut s = self.hot_chars[i];
            proof {
                assert(pre.streams[i as int].wf());
                s.range_facts();
                s.trail_lifetime_facts();
            }
            let event = s.tick_with(heads[i]);
            self.hot_chars.set(i, s);
            if let Some((x, row, l)) = event {
                if x < self.width && row < self.height as u128 {
                    let y = row as usize;
                    proof {
                        lemma_index_in_bounds(x as int, y as int, pre.width, pre.height);
                        lemma_placed_is_live(trails@[i as int], l);
                    }
                    let cells_len = self.fading_chars.len();
                    assert(x * self.height + y < cells_len);
                    let g = FadingChar::new_with_char(trails[i], l);
                    self.fading_chars.set(x * self.height + y, Some(g));
                }
            }
            i = i + 1;
        }
        assert(self@.streams =~= pre.streams_advanced(heads@, trails@).streams);
        assert forall|j: int| 0 <= j < self@.streams.len() implies {
            &&& (#[trigger] self@.streams[j]).wf()
            &&& self@.streams[j].pos() < STREAM_POS_LIMIT + u64::MAX + 1
        } by {
            assert(pre.streams[j].wf());
            pre.streams[j].range_facts();
            pre.streams[j].ticked_facts(heads@[j]);
        }
    }

    /// Adds a stream after the others.
    fn push_stream(&mut self, seed: StreamSeed)
        requires
            seed.speed > 0,
        ensures
            final(self)@ == old(self)@.with_stream(seed),
    {
        let s = HotChar::new_with_char(seed.x, seed.speed, seed.tail_len, seed.c);
        self.hot_chars.push(s);
    }

    /// Starts a stream in column `x` at the top, falling `speed` units per
    /// tick, with tail length `tail_len` and character `c`.
    pub fn spawn_stream(&mut self, x: usize, speed: u64, tail_len: usize, c: char)
        requires
            old(self).wf(),
            speed > 0,
        ensures
            final(self).wf(),
            final(self)@ == old(self)@.with_stream((StreamSeed { x, speed, tail_len, c })),
    {
        let ghost pre = self@;
        self.push_stream(StreamSeed { x, speed, tail_len, c });
        proof {
            HotChar::started_facts(x, speed, tail_len, c);
            assert(self@.streams.last() == HotChar::started(x, speed, tail_len, c));
            assert forall|j: int| 0 <= j < self@.streams.len() implies {
                &&& (#[trigger] self@.streams[j]).wf()
                &&& self@.streams[j].pos() < STREAM_POS_LIMIT
            } by {
                if j < pre.streams.len() {
                    assert(self@.streams[j] == pre.streams[j]);
                }
            }
        }
    }

    /// Removes the streams that have left the grid.
    fn prune_streams(&mut self)
        requires
            old(self)@.cells_ok(),
            old(self)@.streams_below(STREAM_POS_LIMIT + u64::MAX + 1),
        ensures
            final(self)@ == old(self)@.pruned(),
            final(self).wf(),
    {
        let ghost pre = self@;
        let ghost active = still_active(pre.height);
        let n = self.hot_chars.len();
        let mut kept: Vec<HotChar> = Vec::new();
        let mut i: usize = 0;
        while i < n
            invariant
                pre == self@,
                pre.streams_below(STREAM_POS_LIMIT + u64::MAX + 1),
                active == still_active(pre.height),
                n == pre.streams.len(),
                i <= n,
                kept@ == pre.streams.take(i as int).filter(active),
                forall|k: int|
                    0 <= k < kept@.len() ==> (#[trigger] kept@[k]).wf() && kept@[k].pos()
                        < pre.height * UNITS_PER_ROW,
            decreases n - i,
        {
            let s = self.hot_chars[i];
            proof {
                reveal(Seq::filter);
                assert(pre.streams.take(i + 1).drop_last() =~= pre.streams.take(i as int));
                assert(pre.streams.take(i + 1).last() == s);
                assert(pre.streams[i as int].wf());
            }
            if s.smaller_than(self.height) {
                kept.push(s);
            }
            i = i + 1;
        }
        assert(pre.streams.take(n as int) =~= pre.streams);
        self.hot_chars = kept;
        assert(self@.cells == pre.cells);
        assert forall|j: int| 0 <= j < self@.streams.len() implies {
            &&& (#[trigger] self@.streams[j]).wf()
            &&& self@.streams[j].pos() < STREAM_POS_LIMIT
        } by {
            assert(kept@[j].pos() < pre.height * UNITS_PER_ROW);
            assert(pre.height * UNITS_PER_ROW <= usize::MAX * UNITS_PER_ROW) by (nonlinear_arith)
                requires
                    0 <= pre.height <= usize::MAX,
            ;
        }
    }

    /// Advances the animation by one tick, with the random draws given in
    /// `draws`: every glyph ages and those that outlived their lifetime go;
    /// every stream advances and, on crossing a row boundary, leaves a glyph
    /// in the row it left; the stream of `draws.spawn`, if any, starts; and
    /// the streams that have left the grid are removed.
    pub fn tick_with(&mut self, draws: &TickDraws)
        requires
            old(self).wf(),
            draws.fits(old(self)@),
        ensures
            final(self).wf(),
            final(self)@ == old(self)@.stepped(*draws),
    {
        self.age_glyphs(&draws.jitter);
        self.advance_streams(&draws.heads, &draws.trails);
        if let Some(seed) = draws.spawn {
            self.push_stream(seed);
            proof {
                HotChar::started_facts(seed.x, seed.speed, seed.tail_len, seed.c);
                assert(self@.streams.last().wf());
            }
        }
        self.prune_streams();
    }

    /// Advances the animation by one tick, drawing at random which glyphs
    /// change their character, the characters of streams and new glyphs,
    /// and whether and which stream starts.
    pub fn tick(&mut self)
        requires
            old(self).wf(),
        ensures
            final(self).wf(),
            exists|d: TickDraws|
                {
                    &&& d.fits(old(self)@)
                    &&& d.follows_policy(old(self)@)
                    &&& final(self)@ == #[trigger] old(self)@.stepped(d)
                },
    {
        let n = self.fading_chars.len();
        let mut jitter: Vec<Option<char>> = Vec::new();
        let mut i: usize = 0;
        while i < n
            invariant
                n == self.fading_chars@.len(),
                i <= n,
                jitter@.len() == i,
                forall|k: int|
                    0 <= k < i && (#[trigger] jitter@[k]) is Some ==> is_glyph_char(jitter@[k]->0),
            decreases n - i,
        {
            let change = if self.fading_chars[i].is_some() && chance(
                JITTER_NUMERATOR,
                JITTER_DENOMINATOR,
            ) {
                Some(random_glyph())
            } else {
                None
            };
            jitter.push(change);
            i = i + 1;
        }
        let m = self.hot_chars.len();
        let mut heads: Vec<char> = Vec::new();
        let mut trails: Vec<char> = Vec::new();
        let mut i: usize = 0;
        while i < m
            invariant
                i <= m,
                heads@.len() == i,
                trails@.len() == i,
                forall|k: int| 0 <= k < i ==> is_glyph_char(#[trigger] heads@[k]),
                forall|k: int| 0 <= k < i ==> is_glyph_char(#[trigger] trails@[k]),
            decreases m - i,
        {
            heads.push(random_glyph());
            trails.push(random_glyph());
            i = i + 1;
        }
        let spawn = if self.width > 0 && chance(SPAWN_NUMERATOR, SPAWN_DENOMINATOR) {
            let x = random_below(0, self.width as u64) as usize;
            let speed = random_below(MIN_SPAWN_SPEED, MAX_SPAWN_SPEED);
            let longest: usize = if self.height > TAIL_MARGIN + 1 {
                self.height - TAIL_MARGIN + 1
            } else {
                2
            };
            let tail_len = random_below(1, longest as u64 + 1) as usize;
            let c = random_glyph();
            Some(StreamSeed { x, speed, tail_len, c })
        } else {
            None
        };
        let draws = TickDraws { jitter, heads, trails, spawn };
        let ghost pre = self@;
        self.tick_with(&draws);
        assert(draws.fits(pre) && draws.follows_policy(pre) && self@ == pre.stepped(draws));
    }

    /// Renders the animation into a frame of `width` by `height` cells,
    /// stored column by column: cell `(x, y)` shows what `paint_at` gives.
    /// Grid cells and streams outside the frame are left out.
    pub fn render(&self, width: usize, height: usize) -> (r: Vec<Option<Paint>>)
        requires
            self.wf(),
            width * height <= usize::MAX,
        ensures
            r@.len() == width * height,
            forall|x: int, y: int|
                0 <= x < width && 0 <= y < height ==> #[trigger] cell_at(r@, x, y, height as int)
                    == self@.paint_at(x, y),
    {
        let ghost sc = self@;
        let mut frame: Vec<Option<Paint>> = Vec::new();
        let mut x: usize = 0;
        while x < width
            invariant
                sc == self@,
                sc.wf(),
                width * height <= usize::MAX,
                x <= width,
                frame@.len() == x * height,
                forall|a: int, b: int|
                    0 <= a < x && 0 <= b < height ==> #[trigger] cell_at(frame@, a, b, height as int)
                        == sc.glyph_paint(a, b),
            decreases width - x,
        {
            proof {
                lemma_column_end(x as int, width as int, height as int);
            }
            let mut y: usize = 0;
            while y < height
                invariant
                    sc == self@,
                    sc.wf(),
                    width * height <= usize::MAX,
                    x < width,
                    y <= height,
                    (x + 1) * height <= width * height,
                    frame@.len() == x * height + y,
                    forall|a: int, b: int|
                        0 <= a < x && 0 <= b < height ==> #[trigger] cell_at(
                            frame@,
                            a,
                            b,
                            height as int,
                        ) == sc.glyph_paint(a, b),
                    forall|b: int|
                        0 <= b < y ==> #[trigger] cell_at(frame@, x as int, b, height as int)
                            == sc.glyph_paint(x as int, b),
                decreases height - y,
            {
                let mut paint: Option<Paint> = None;
                if x < self.width && y < self.height {
                    proof {
                        lemma_index_in_bounds(x as int, y as int, sc.width, sc.height);
                    }
                    let cells_len = self.fading_chars.len();
                    assert(x * self.height + y < cells_len);
                    if let Some(g) = self.fading_chars[x * self.height + y] {
                        proof {
                            assert(sc.cells[x * sc.height + y] is Some);
                        }
                        paint = Some(Paint { ch: g.get_char(), red: 0, green: g.get_brightness(), blue: 0 });
                    }
                }
                let ghost before = frame@;
                frame.push(paint);
                proof {
                    assert forall|a: int, b: int|
                        0 <= a < x && 0 <= b < height implies #[trigger] cell_at(
                        frame@,
                        a,
                        b,
                        height as int,
                    ) == cell_at(before, a, b, height as int) by {
                        lemma_index_in_bounds(a, b, x as int, height as int);
                    }
                    assert forall|b: int| 0 <= b < y + 1 implies #[trigger] cell_at(
                        frame@,
                        x as int,
                        b,
                        height as int,
                    ) == sc.glyph_paint(x as int, b) by {
                        if b < y {
                            assert(cell_at(frame@, x as int, b, height as int) == cell_at(
                                before,
                                x as int,
                                b,
                                height as int,
                            ));
                        }
                    }
                }
                y = y + 1;
            }
            x = x + 1;
        }
        let n = self.hot_chars.len();
        let mut i: usize = 0;
        while i < n
            invariant
                sc == self@,
                n == sc.streams.len(),
                i <= n,
                width * height <= usize::MAX,
                frame@.len() == width * height,
                forall|a: int, b: int|
                    0 <= a < width && 0 <= b < height ==> #[trigger] cell_at(
                        frame@,
                        a,
                        b,
                        height as int,
                    ) == match head_at(sc.streams.take(i as int), a, b) {
                        Some(c) => Some(head_paint(c)),
                        None => sc.glyph_paint(a, b),
                    },
            decreases n - i,
        {
            let s = self.hot_chars[i];
            let sx = s.get_x();
            let row = s.get_row();
            let ghost before = frame@;
            proof {
                assert(sc.streams.take(i + 1).drop_last() =~= sc.streams.take(i as int));
                assert(sc.streams.take(i + 1).last() == s);
            }
            if sx < width && row < height as u128 {
                let sy = row as usize;
                proof {
                    lemma_index_in_bounds(sx as int, sy as int, width as int, height as int);
                }
                frame.set(sx * height + sy, Some(Paint { ch: s.get_char(), red: 255, green: 255, blue: 255 }));
                proof {
                    assert forall|a: int, b: int|
                        0 <= a < width && 0 <= b < height && (a != sx || b != sy) implies #[trigger] cell_at(
                        frame@,
                        a,
                        b,
                        height as int,
                    ) == cell_at(before, a, b, height as int) by {
                        lemma_index_in_bounds(a, b, width as int, height as int);
                        if cell_index(a, b, height as int) == cell_index(sx as int, sy as int, height as int) {
                            lemma_index_injective(a, b, sx as int, sy as int, height as int);
                        }
                    }
                }
            }
            i = i + 1;
        }
        assert(sc.streams.take(n as int) =~= sc.streams);
        frame
    }

    /// The width of the grid.
    pub fn width(&self) -> (r: usize)
        ensures
            r == self@.width,
    {
        self.width
    }

    /// The height of the grid.
    pub fn height(&self) -> (r: usize)
        ensures
            r == self@.height,
    {
        self.height
    }

    /// The glyph at `(x, y)`.
    pub fn glyph(&self, x: usize, y: usize) -> (r: Option<FadingChar>)
        requires
            self.wf(),
            x < self@.width,
            y < self@.height,
        ensures
            r == self@.glyph_at(x as int, y as int),
    {
        proof {
            lemma_index_in_bounds(x as int, y as int, self@.width, self@.height);
        }
        let n = self.fading_chars.len();
        assert(x * self.height + y < n);
        self.fading_chars[x * self.height + y]
    }

    /// The falling streams, in order of creation.
    pub fn streams(&self) -> (r: &Vec<HotChar>)
        ensures
            r@ == self@.streams,
    {
        &self.hot_chars
    }
}

} // verus!
