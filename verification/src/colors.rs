//! The colours that chart series are drawn in.

use vstd::prelude::*;
use vstd::string::StringExecFns;

verus! {

/// The number of colours in the palette.
pub const PALETTE_SIZE: usize = 6;

/// The colour at position `k` of the palette: teal, pink, blue, yellow,
/// purple, orange.
pub open spec fn palette_color(k: int) -> Seq<char> {
    if k == 0 {
        "rgba(75, 192, 192, 0.8)"@
    } else if k == 1 {
        "rgba(255, 99, 132, 0.8)"@
    } else if k == 2 {
        "rgba(54, 162, 235, 0.8)"@
    } else if k == 3 {
        "rgba(255, 206, 86, 0.8)"@
    } else if k == 4 {
        "rgba(153, 102, 255, 0.8)"@
    } else {
        "rgba(255, 159, 64, 0.8)"@
    }
}

/// The colour at position `k` of the palette.
fn palette_entry(k: usize) -> (r: &'static str)
    requires
        k < PALETTE_SIZE,
    ensures
        r@ == palette_color(k as int),
{
    if k == 0 {
        "rgba(75, 192, 192, 0.8)"
    } else if k == 1 {
        "rgba(255, 99, 132, 0.8)"
    } else if k == 2 {
        "rgba(54, 162, 235, 0.8)"
    } else if k == 3 {
        "rgba(255, 206, 86, 0.8)"
    } else if k == 4 {
        "rgba(153, 102, 255, 0.8)"
    } else {
        "rgba(255, 159, 64, 0.8)"
    }
}

/// `count` colours for the series of a chart: the palette in its order,
/// started again from the first colour whenever it runs out.
pub fn generate_colors(count: usize) -> (r: Vec<String>)
    ensures
        r@.len() == count,
        forall|i: int| 0 <= i < count ==> (#[trigger] r@[i])@ == palette_color(i % 6),
{
    let mut colors: Vec<String> = Vec::new();
    let mut i: usize = 0;
    while i < count
        invariant
            0 <= i <= count,
            colors@.len() == i,
            forall|j: int| 0 <= j < i ==> (#[trigger] colors@[j])@ == palette_color(j % 6),
        decreases count - i,
    {
        colors.push(String::from_str(palette_entry(i % PALETTE_SIZE)));
        i += 1;
    }
    colors
}

} // verus!
