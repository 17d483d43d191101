use vstd::prelude::*;

use itertools::Itertools;

verus! {

/// The five discrete brush sizes, mapping to half-widths 0 through 4.
#[derive(Clone, Copy, Debug, PartialEq, Eq, Structural)]
pub enum BrushSize {
    Small,
    Medium,
    Large,
    XLarge,
    XXLarge,
}

/// The currently selected brush size.
pub struct Brush(pub BrushSize);

/// Half-width of the square of cells a brush covers.
pub open spec fn spec_brush_delta(s: BrushSize) -> int {
    match s {
        BrushSize::Small => 0,
        BrushSize::Medium => 1,
        BrushSize::Large => 2,
        BrushSize::XLarge => 3,
        BrushSize::XXLarge => 4,
    }
}

impl BrushSize {
    pub open spec fn spec_increased(self) -> BrushSize {
        match self {
            BrushSize::Small => BrushSize::Medium,
            BrushSize::Medium => BrushSize::Large,
            BrushSize::Large => BrushSize::XLarge,
            BrushSize::XLarge => BrushSize::XXLarge,
            BrushSize::XXLarge => BrushSize::XXLarge,
        }
    }

    pub open spec fn spec_decreased(self) -> BrushSize {
        match self {
            BrushSize::Small => BrushSize::Small,
            BrushSize::Medium => BrushSize::Small,
            BrushSize::Large => BrushSize::Medium,
            BrushSize::XLarge => BrushSize::Large,
            BrushSize::XXLarge => BrushSize::XLarge,
        }
    }

    /// The next size up; the largest size is its own successor.
    pub fn increased(self) -> (r: BrushSize)
        ensures
            r == self.spec_increased(),
    {
        match self {
            BrushSize::Small => BrushSize::Medium,
            BrushSize::Medium => BrushSize::Large,
            BrushSize::Large => BrushSize::XLarge,
            BrushSize::XLarge => BrushSize::XXLarge,
            BrushSize::XXLarge => BrushSize::XXLarge,
        }
    }

    /// The next size down; the smallest size is its own predecessor.
    pub fn decreased(self) -> (r: BrushSize)
        ensures
            r == self.spec_decreased(),
    {
        match self {
            BrushSize::Small => BrushSize::Small,
            BrushSize::Medium => BrushSize::Small,
            BrushSize::Large => BrushSize::Medium,
            BrushSize::XLarge => BrushSize::Large,
            BrushSize::XXLarge => BrushSize::XLarge,
        }
    }

    pub fn delta(&self) -> (d: i32)
        ensures
            d == spec_brush_delta(*self),
    {
        match self {
            BrushSize::Small => 0,
            BrushSize::Medium => 1,
            BrushSize::Large => 2,
            BrushSize::XLarge => 3,
            BrushSize::XXLarge => 4,
        }
    }
}

/// Relies on itertools::Itertools::cartesian_product: it pairs each value
/// of the first range, in order, with each value of the second range, in
/// order. The ranges are kept small so collecting the product always
/// returns.
#[verifier::external_body]
fn coordinate_square(x_lo: i32, x_hi: i32, y_lo: i32, y_hi: i32) -> (r: Vec<(i32, i32)>)
    requires
        x_lo <= x_hi,
        y_lo <= y_hi,
        x_hi - x_lo < 16,
        y_hi - y_lo < 16,
    ensures
        r@.len() == (x_hi - x_lo + 1) * (y_hi - y_lo + 1),
        forall|i: int|
            0 <= i < r@.len() ==> (#[trigger] r@[i]).0 == x_lo + i / (y_hi - y_lo + 1)
                && r@[i].1 == y_lo + i % (y_hi - y_lo + 1),
{
    (x_lo..=x_hi).cartesian_product(y_lo..=y_hi).collect()
}

/// The coordinates a brush covers around a centre: the full Cartesian
/// square of half-width `spec_brush_delta(size)`, one row of x after the
/// other. It does not filter by world boundary or occupancy; that is the
/// caller's job.
pub fn get_brush_locations(cx: i32, cy: i32, brush: &BrushSize) -> (r: Vec<(i32, i32)>)
    requires
        i32::MIN + 4 <= cx <= i32::MAX - 4,
        i32::MIN + 4 <= cy <= i32::MAX - 4,
    ensures
        ({
            let d = spec_brush_delta(*brush);
            &&& r@.len() == (2 * d + 1) * (2 * d + 1)
            &&& forall|i: int|
                0 <= i < r@.len() ==> (#[trigger] r@[i]).0 == cx - d + i / (2 * d + 1)
                    && r@[i].1 == cy - d + i % (2 * d + 1)
        }),
{
    let delta = brush.delta();
    coordinate_square(cx - delta, cx + delta, cy - delta, cy + delta)
}

} // verus!
