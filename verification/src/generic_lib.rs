//! The sample abstraction: what a type must provide to be consumed by the
//! network, and the fixed pixel-grid dimensions of the digit samples.

use vstd::prelude::*;

verus! {

/// Width of a digit pixel grid, in characters.
pub const DIGIT_LENGTH: usize = 28;

/// Height of a digit pixel grid, in lines.
pub const DIGIT_HEIGHT: usize = 28;

/// The Unicode `White_Space` code points. A pixel holding such a character is
/// "off" (feature value 0); any other character is "on" (feature value 1).
pub open spec fn is_white(c: char) -> bool {
    let u = c as u32;
    u == 0x20 || (0x09 <= u && u <= 0x0D) || u == 0x85 || u == 0xA0 || u == 0x1680
        || (0x2000 <= u && u <= 0x200A) || u == 0x2028 || u == 0x2029 || u == 0x202F
        || u == 0x205F || u == 0x3000
}

/// Decides whether a pixel character counts as blank (Unicode white space).
pub fn char_is_white(c: char) -> (r: bool)
    ensures
        r == is_white(c),
{
    let u = c as u32;
    u == 0x20 || (0x09 <= u && u <= 0x0D) || u == 0x85 || u == 0xA0 || u == 0x1680
        || (0x2000 <= u && u <= 0x200A) || u == 0x2028 || u == 0x2029 || u == 0x202F
        || u == 0x205F || u == 0x3000
}

/// A pixel grid handed out by a sample, at the fixed digit dimensions.
pub enum PixelSizes {
    PixelWrapper(Vec<Vec<char>>),
}

/// The rows of a wrapped pixel grid, each row as a sequence of characters.
pub open spec fn grid_of(p: PixelSizes) -> Seq<Seq<char>> {
    match p {
        PixelSizes::PixelWrapper(g) => g@.map_values(|row: Vec<char>| row@),
    }
}

/// Capability contract a sample type must satisfy to be consumed by the
/// network: a well-formedness predicate, a fixed feature count, a fixed
/// output-class count, and a deterministic flattening to a dense feature
/// vector of 0/1 entries whose length is the feature count.
pub trait HasPixels {
    /// Structural well-formedness of the sample.
    spec fn valid(&self) -> bool;

    /// Number of features the sample flattens to.
    spec fn spec_size(&self) -> nat;

    /// Number of output classes the sample can be labeled with.
    spec fn spec_num_output(&self) -> nat;

    /// The flattened feature vector, each entry 0 (off) or 1 (on).
    spec fn spec_features(&self) -> Seq<u8>;

    /// The raw pixel grid of the sample.
    fn get_pixels(&self) -> PixelSizes
        requires
            self.valid(),
    ;

    /// Feature count, as a machine integer.
    fn get_size(&self) -> (n: usize)
        requires
            self.valid(),
        ensures
            n as nat == self.spec_size(),
    ;

    /// Output-class count, as a machine integer.
    fn get_num_output(&self) -> (n: usize)
        requires
            self.valid(),
        ensures
            n as nat == self.spec_num_output(),
    ;

    /// Deterministic flattening to the dense feature vector.
    fn flatten(&self) -> (v: Vec<u8>)
        requires
            self.valid(),
        ensures
            v@ == self.spec_features(),
            v@.len() == self.spec_size(),
    ;
}

} // verus!
