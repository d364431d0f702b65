//! The progress bar shown beside the package being updated. How long an
//! update takes is not known in advance, so the bar fills at a steady pace
//! and holds short of the end until the update finishes.
use vstd::prelude::*;

use crate::text::string_of;

verus! {

/// The number of cells in a bar.
pub const CELLS: u32 = 10;

/// The share of a bar, in thousandths, that holds once an update has run
/// for a while: one cell short of full.
pub const HOLD: u32 = 900;

/// How far along an update of unknown length looks after `ms`
/// milliseconds, in thousandths: a tenth every two seconds, up to `HOLD`.
pub open spec fn working_of(ms: nat) -> nat {
    if ms / 20 < HOLD {
        ms / 20
    } else {
        HOLD as nat
    }
}

pub fn working(elapsed_ms: u64) -> (p: u32)
    ensures
        p == working_of(elapsed_ms as nat),
        p <= HOLD,
{
    let steps = elapsed_ms / 20;
    if steps < 900 {
        steps as u32
    } else {
        HOLD
    }
}

/// How many cells of a bar are filled at `permille` thousandths.
pub open spec fn filled(permille: nat) -> nat {
    if permille >= 1000 {
        CELLS as nat
    } else {
        permille / 100
    }
}

/// The bar for `permille` thousandths: filled cells, then empty ones.
pub open spec fn bar_of(permille: nat) -> Seq<char> {
    Seq::new(CELLS as nat, |i: int| if i < filled(permille) { '█' } else { '░' })
}

pub fn bar(permille: u32) -> (s: String)
    ensures
        s@ == bar_of(permille as nat),
{
    let full: u32 = if permille >= 1000 {
        CELLS
    } else {
        permille / 100
    };
    let mut v: Vec<char> = Vec::new();
    let mut i: u32 = 0;
    while i < CELLS
        invariant
            i <= CELLS,
            full == filled(permille as nat),
            v@ == bar_of(permille as nat).take(i as int),
        decreases CELLS - i,
    {
        assert(bar_of(permille as nat).take(i + 1) == bar_of(permille as nat).take(i as int).push(
            bar_of(permille as nat)[i as int],
        ));
        if i < full {
            v.push('█');
        } else {
            v.push('░');
        }
        i = i + 1;
    }
    assert(bar_of(permille as nat).take(CELLS as int) == bar_of(permille as nat));
    string_of(&v)
}

} // verus!
