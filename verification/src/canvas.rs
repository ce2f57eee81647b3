use vstd::prelude::*;

verus! {

/// The side of the square canvas, in pixels.
pub const CANVAS_SIDE: usize = 1024;

/// The canvas held in memory: the colour index of every pixel, row `x` holding the pixels
/// (x, 0) to (x, 1023).
#[derive(Debug)]
pub struct CacheArr {
    pub canvas: Vec<Vec<u8>>,
}

impl CacheArr {
    /// The canvas is square, `CANVAS_SIDE` rows of `CANVAS_SIDE` pixels.
    pub open spec fn wf(&self) -> bool {
        &&& self.canvas.len() == CANVAS_SIDE
        &&& forall|x: int| 0 <= x < CANVAS_SIDE ==> (#[trigger] self.canvas[x]).len() == CANVAS_SIDE
    }

    /// The colour index of the pixel (x, y).
    pub open spec fn cell(&self, x: int, y: int) -> u8 {
        self.canvas[x][y]
    }

    /// Sets the pixel (x, y) to `color` and leaves every other pixel as it was.
    pub fn place(&mut self, x: usize, y: usize, color: u8)
        requires
            old(self).wf(),
            x < CANVAS_SIDE,
            y < CANVAS_SIDE,
        ensures
            final(self).wf(),
            final(self).cell(x as int, y as int) == color,
            forall|i: int, j: int|
                0 <= i < CANVAS_SIDE && 0 <= j < CANVAS_SIDE && (i != x || j != y)
                    ==> #[trigger] final(self).cell(i, j) == old(self).cell(i, j),
    {
        self.canvas[x][y] = color;
    }
}

impl Default for CacheArr {
    /// A canvas of `CANVAS_SIDE` by `CANVAS_SIDE` pixels, all of colour index 0.
    fn default() -> (r: CacheArr)
        ensures
            r.wf(),
            forall|x: int, y: int|
                0 <= x < CANVAS_SIDE && 0 <= y < CANVAS_SIDE ==> #[trigger] r.cell(x, y) == 0,
    {
        let mut canvas: Vec<Vec<u8>> = Vec::new();
        let mut i: usize = 0;
        while i < CANVAS_SIDE
            invariant
                i <= CANVAS_SIDE,
                canvas.len() == i,
                forall|x: int| 0 <= x < i ==> (#[trigger] canvas[x]).len() == CANVAS_SIDE,
                forall|x: int, y: int| 0 <= x < i && 0 <= y < CANVAS_SIDE ==> #[trigger] canvas[x][y] == 0,
            decreases CANVAS_SIDE - i,
        {
            let row: Vec<u8> = vec![0u8; 1024];
            assert forall|y: int| 0 <= y < CANVAS_SIDE implies row[y] == 0 by {
                assert(cloned(0u8, row@[y]));
            }
            canvas.push(row);
            i = i + 1;
        }
        CacheArr { canvas }
    }
}

} // verus!
