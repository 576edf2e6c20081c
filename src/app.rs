//! The application state around the animation: the matrix and whether the
//! user asked to quit.
use crate::matrix::{Matrix, Scene, TickDraws};
use vstd::prelude::*;

verus! {

/// The grid size for a terminal of `width` by `height` cells: twice as many
/// columns and rows, so that motion can be smoothed below one cell.
pub fn term_to_matrix_size(width: u16, height: u16) -> (r: (usize, usize))
    ensures
        r.0 == 2 * width,
        r.1 == 2 * height,
{
    let extra_width = width as usize * 2;
    let extra_height = height as usize * 2;
    (extra_width, extra_height)
}

#[derive(Debug)]
pub struct App {
    matrix: Matrix,
    should_quit: bool,
}

impl App {
    /// The state of the animation.
    pub closed spec fn scene(self) -> Scene {
        self.matrix@
    }

    /// Whether the user asked to quit.
    pub closed spec fn quitting(self) -> bool {
        self.should_quit
    }

    pub closed spec fn wf(self) -> bool {
        self.matrix.wf()
    }

    /// An application for a terminal of `width` by `height` cells, with an
    /// empty grid of the size `term_to_matrix_size` gives.
    pub fn new(width: u16, height: u16) -> (r: App)
        requires
            4 * width * height <= usize::MAX,
        ensures
            r.wf(),
            !r.quitting(),
            r.scene().width == 2 * width,
            r.scene().height == 2 * height,
            r.scene().streams.len() == 0,
            forall|x: int, y: int|
                0 <= x < 2 * width && 0 <= y < 2 * height ==> #[trigger] r.scene().glyph_at(x, y) is None,
    {
        let (w, h) = term_to_matrix_size(width, height);
        assert(w * h == 4 * width * height) by (nonlinear_arith)
            requires
                w == 2 * width,
                h == 2 * height,
        ;
        App { matrix: Matrix::new(w, h), should_quit: false }
    }

    /// Advances the animation by one tick.
    pub fn tick(&mut self)
        requires
            old(self).wf(),
        ensures
            final(self).wf(),
            final(self).quitting() == old(self).quitting(),
            exists|d: TickDraws|
                {
                    &&& d.fits(old(self).scene())
                    &&& d.follows_policy(old(self).scene())
                    &&& final(self).scene() == #[trigger] old(self).scene().stepped(d)
                },
    {
        let ghost pre = self.matrix@;
        self.matrix.tick();
        proof {
            let d = choose|d: TickDraws|
                {
                    &&& d.fits(pre)
                    &&& d.follows_policy(pre)
                    &&& self.matrix@ == #[trigger] pre.stepped(d)
                };
            assert(old(self).scene() == pre);
            assert(d.fits(old(self).scene()) && d.follows_policy(old(self).scene()) && self.scene()
                == old(self).scene().stepped(d));
        }
    }

    /// Resizes the grid for a terminal of `width` by `height` cells.
    pub fn resize(&mut self, width: u16, height: u16)
        requires
            old(self).wf(),
            4 * width * height <= usize::MAX,
        ensures
            final(self).wf(),
            final(self).quitting() == old(self).quitting(),
            final(self).scene().width == 2 * width,
            final(self).scene().height == 2 * height,
            final(self).scene().streams == old(self).scene().streams,
            forall|x: int, y: int|
                0 <= x < 2 * width && 0 <= y < 2 * height ==> #[trigger] final(self).scene().glyph_at(
                    x,
                    y,
                ) == (if x < old(self).scene().width && y < old(self).scene().height {
                    old(self).scene().glyph_at(x, y)
                } else {
                    None
                }),
    {
        let (w, h) = term_to_matrix_size(width, height);
        assert(w * h == 4 * width * height) by (nonlinear_arith)
            requires
                w == 2 * width,
                h == 2 * height,
        ;
        self.matrix.resize(w, h);
    }

    /// Asks the application to stop.
    pub fn quit(&mut self)
        ensures
            final(self).quitting(),
            final(self).scene() == old(self).scene(),
            final(self).wf() == old(self).wf(),
    {
        self.should_quit = true;
    }

    pub fn should_quit(&self) -> (r: bool)
        ensures
            r == self.quitting(),
    {
        self.should_quit
    }

    pub fn get_matrix(&self) -> (r: &Matrix)
        ensures
            r@ == self.scene(),
            self.wf() ==> r.wf(),
    {
        &self.matrix
    }
}

} // verus!
