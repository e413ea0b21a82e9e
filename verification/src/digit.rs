//! A labeled digit sample: a fixed-size grid of pixel characters read off a
//! block of ASCII art, flattened to a binary feature vector for the network.

use vstd::prelude::*;
use vstd::string::StrSliceExecFns;

use crate::generic_lib::{
    char_is_white, grid_of, is_white, HasPixels, PixelSizes, DIGIT_HEIGHT, DIGIT_LENGTH,
};

verus! {

/// One digit sample: `DIGIT_HEIGHT` rows of `DIGIT_LENGTH` pixel characters.
#[derive(Clone)]
pub struct Digit {
    pub pixels: Vec<Vec<char>>,
    pub label: Option<usize>,
}

impl Digit {
    /// The grid has exactly `DIGIT_HEIGHT` rows of `DIGIT_LENGTH` characters.
    pub open spec fn wf(&self) -> bool {
        &&& self.pixels@.len() == DIGIT_HEIGHT
        &&& forall|y: int| 0 <= y < DIGIT_HEIGHT ==> (#[trigger] self.pixels@[y])@.len()
            == DIGIT_LENGTH
    }

    /// The pixel grid, row by row.
    pub open spec fn pixel_grid(&self) -> Seq<Seq<char>> {
        self.pixels@.map_values(|row: Vec<char>| row@)
    }

    /// The character at grid position (`y`, `x`).
    pub open spec fn spec_pixel(&self, y: int, x: int) -> char {
        self.pixels@[y]@[x]
    }

    /// Reads a sample out of a character stream: position (`y`, `x`) of the
    /// grid takes the character at stream index `y * DIGIT_LENGTH + x`. The
    /// stream must hold at least one character per grid cell.
    pub fn new(input: String) -> (d: Digit)
        requires
            input@.len() >= DIGIT_HEIGHT * DIGIT_LENGTH,
        ensures
            d.wf(),
            forall|y: int, x: int|
                0 <= y < DIGIT_HEIGHT && 0 <= x < DIGIT_LENGTH ==> #[trigger] d.spec_pixel(y, x)
                    == input@[y * DIGIT_LENGTH + x],
    {
        let mut pixels: Vec<Vec<char>> = Vec::new();
        let mut y: usize = 0;
        while y < DIGIT_HEIGHT
            invariant
                y <= DIGIT_HEIGHT,
                pixels@.len() == y,
                input@.len() >= DIGIT_HEIGHT * DIGIT_LENGTH,
                forall|yy: int| 0 <= yy < y ==> (#[trigger] pixels@[yy])@.len() == DIGIT_LENGTH,
                forall|yy: int, xx: int| #![trigger pixels@[yy]@[xx]]
                    0 <= yy < y && 0 <= xx < DIGIT_LENGTH ==> pixels@[yy]@[xx]
                        == input@[yy * DIGIT_LENGTH + xx],
            decreases DIGIT_HEIGHT - y,
        {
            let mut row: Vec<char> = Vec::new();
            let mut x: usize = 0;
            while x < DIGIT_LENGTH
                invariant
                    x <= DIGIT_LENGTH,
                    y < DIGIT_HEIGHT,
                    row@.len() == x,
                    input@.len() >= DIGIT_HEIGHT * DIGIT_LENGTH,
                    forall|xx: int|
                        0 <= xx < x ==> #[trigger] row@[xx] == input@[y * DIGIT_LENGTH + xx],
                decreases DIGIT_LENGTH - x,
            {
                let index = y * DIGIT_LENGTH + x;
                assert(index < DIGIT_HEIGHT * DIGIT_LENGTH) by (nonlinear_arith)
                    requires
                        y < DIGIT_HEIGHT,
                        x < DIGIT_LENGTH,
                        index == y * DIGIT_LENGTH + x,
                ;
                let c = input.as_str().get_char(index);
                row.push(c);
                x = x + 1;
            }
            pixels.push(row);
            y = y + 1;
        }
        Digit { pixels, label: None }
    }
}

impl HasPixels for Digit {
    open spec fn valid(&self) -> bool {
        self.wf()
    }

    open spec fn spec_size(&self) -> nat {
        (DIGIT_LENGTH * DIGIT_HEIGHT) as nat
    }

    open spec fn spec_num_output(&self) -> nat {
        10
    }

    open spec fn spec_features(&self) -> Seq<u8> {
        Seq::new(
            (DIGIT_LENGTH * DIGIT_HEIGHT) as nat,
            |i: int|
                if is_white(self.spec_pixel(i / DIGIT_LENGTH as int, i % DIGIT_LENGTH as int)) {
                    0u8
                } else {
                    1u8
                },
        )
    }

    fn get_pixels(&self) -> (p: PixelSizes)
        ensures
            grid_of(p) == self.pixel_grid(),
    {
        let p = PixelSizes::PixelWrapper(self.pixels.clone());
        proof {
            assert(grid_of(p) =~= self.pixel_grid());
        }
        p
    }

    fn get_size(&self) -> (n: usize)
        ensures
            n as nat == self.spec_size(),
    {
        DIGIT_LENGTH * DIGIT_HEIGHT
    }

    fn get_num_output(&self) -> (n: usize)
        ensures
            n as nat == self.spec_num_output(),
    {
        10
    }

    /// Row-major flattening: grid cell (`y`, `x`) becomes feature
    /// `y * DIGIT_LENGTH + x`, 0 for a blank pixel and 1 otherwise.
    fn flatten(&self) -> (v: Vec<u8>)
        ensures
            v@ == self.spec_features(),
            v@.len() == self.spec_size(),
    {
        let mut result: Vec<u8> = Vec::new();
        let mut y: usize = 0;
        while y < DIGIT_HEIGHT
            invariant
                self.wf(),
                y <= DIGIT_HEIGHT,
                result@.len() == y * DIGIT_LENGTH,
                forall|i: int|
                    0 <= i < result@.len() ==> #[trigger] result@[i] == if is_white(
                        self.spec_pixel(i / DIGIT_LENGTH as int, i % DIGIT_LENGTH as int),
                    ) {
                        0u8
                    } else {
                        1u8
                    },
            decreases DIGIT_HEIGHT - y,
        {
            let row = &self.pixels[y];
            let mut x: usize = 0;
            while x < DIGIT_LENGTH
                invariant
                    self.wf(),
                    y < DIGIT_HEIGHT,
                    x <= DIGIT_LENGTH,
                    result@.len() == y * DIGIT_LENGTH + x,
                    row@ == self.pixels@[y as int]@,
                    forall|i: int|
                        0 <= i < result@.len() ==> #[trigger] result@[i] == if is_white(
                            self.spec_pixel(i / DIGIT_LENGTH as int, i % DIGIT_LENGTH as int),
                        ) {
                            0u8
                        } else {
                            1u8
                        },
                decreases DIGIT_LENGTH - x,
            {
                proof {
                    assert(y * DIGIT_LENGTH + x < DIGIT_HEIGHT * DIGIT_LENGTH) by (nonlinear_arith)
                        requires
                            y < DIGIT_HEIGHT,
                            x < DIGIT_LENGTH,
                    ;
                    assert((y * DIGIT_LENGTH + x) / DIGIT_LENGTH as int == y as int
                        && (y * DIGIT_LENGTH + x) % DIGIT_LENGTH as int == x as int)
                        by (nonlinear_arith)
                        requires
                            x < DIGIT_LENGTH,
                            0 <= y,
                            DIGIT_LENGTH > 0,
                    ;
                }
                if char_is_white(row[x]) {
                    result.push(0);
                } else {
                    result.push(1);
                }
                x = x + 1;
            }
            y = y + 1;
        }
        proof {
            assert(result@ =~= self.spec_features());
        }
        result
    }
}

} // verus!
