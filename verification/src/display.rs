use vstd::prelude::*;

use crate::Chip8Error;
use crate::DISPLAY_HEIGHT;
use crate::DISPLAY_WIDTH;

verus! {

/// Interface a host renderer can implement to mirror the framebuffer.
pub trait Screen {
    fn draw(&mut self, x: usize, y: usize, draw: bool);

    fn clear(&mut self);
}

/// Fixed 64 by 32 grid of pixel states, addressed row-major as
/// `x + y * DISPLAY_WIDTH`. Pixels are toggled by XOR, never set directly.
pub struct Display {
    inner: Vec<bool>,
}

impl View for Display {
    type V = Seq<bool>;

    closed spec fn view(&self) -> Seq<bool> {
        self.inner@
    }
}

impl Display {
    /// The grid always holds exactly one state per pixel.
    pub open spec fn wf(&self) -> bool {
        self@.len() == DISPLAY_WIDTH * DISPLAY_HEIGHT
    }

    /// A fresh display, every pixel off.
    pub fn new() -> (d: Display)
        ensures
            d.wf(),
            d@ == Seq::new((DISPLAY_WIDTH * DISPLAY_HEIGHT) as nat, |i: int| false),
    {
        let area = DISPLAY_WIDTH * DISPLAY_HEIGHT;
        let mut inner: Vec<bool> = Vec::new();
        let mut i: usize = 0;
        while i < area
            invariant
                i <= area,
                area == DISPLAY_WIDTH * DISPLAY_HEIGHT,
                inner@.len() == i,
                forall|j: int| 0 <= j < i ==> inner@[j] == false,
            decreases area - i,
        {
            inner.push(false);
            i = i + 1;
        }
        proof {
            assert(inner@ =~= Seq::new((DISPLAY_WIDTH * DISPLAY_HEIGHT) as nat, |i: int| false));
        }
        Display { inner }
    }

    /// The pixel states, row-major, as a read-only slice.
    pub fn pixels(&self) -> (r: &[bool])
        ensures
            r@ == self@,
    {
        self.inner.as_slice()
    }

    /// XOR-toggles the pixel at linear index `x + y * DISPLAY_WIDTH` with
    /// `flip` and reports whether the toggle turned an on pixel off (the
    /// collision signal); fails if the index lies outside the grid.
    pub fn draw(&mut self, x: usize, y: usize, flip: bool) -> (r: Result<bool, Chip8Error>)
        requires
            old(self).wf(),
        ensures
            final(self).wf(),
            x + y * DISPLAY_WIDTH < DISPLAY_WIDTH * DISPLAY_HEIGHT ==> {
                &&& r == Ok::<bool, Chip8Error>(
                    old(self)@[x + y * DISPLAY_WIDTH] && flip,
                )
                &&& final(self)@ == old(self)@.update(
                    x + y * DISPLAY_WIDTH,
                    old(self)@[x + y * DISPLAY_WIDTH] != flip,
                )
            },
            x + y * DISPLAY_WIDTH >= DISPLAY_WIDTH * DISPLAY_HEIGHT ==> {
                &&& r == Err::<bool, Chip8Error>(Chip8Error::OutOfBounds)
                &&& final(self)@ == old(self)@
            },
    {
        if y >= DISPLAY_HEIGHT || x >= DISPLAY_WIDTH * DISPLAY_HEIGHT {
            return Err(Chip8Error::OutOfBounds);
        }
        let pos = x + y * DISPLAY_WIDTH;
        if pos >= DISPLAY_WIDTH * DISPLAY_HEIGHT {
            return Err(Chip8Error::OutOfBounds);
        }
        let old_pixel = self.inner[pos];
        self.inner[pos] = old_pixel != flip;
        Ok(old_pixel && flip)
    }

    /// Turns every pixel off.
    pub fn clear(&mut self)
        requires
            old(self).wf(),
        ensures
            final(self).wf(),
            final(self)@ == Seq::new((DISPLAY_WIDTH * DISPLAY_HEIGHT) as nat, |i: int| false),
    {
        let area = DISPLAY_WIDTH * DISPLAY_HEIGHT;
        let mut i: usize = 0;
        while i < area
            invariant
                i <= area,
                area == DISPLAY_WIDTH * DISPLAY_HEIGHT,
                self.inner@.len() == area,
                forall|j: int| 0 <= j < i ==> self.inner@[j] == false,
            decreases area - i,
        {
            self.inner[i] = false;
            i = i + 1;
        }
        proof {
            assert(self.inner@ =~= Seq::new(
                (DISPLAY_WIDTH * DISPLAY_HEIGHT) as nat,
                |i: int| false,
            ));
        }
    }
}

} // verus!
