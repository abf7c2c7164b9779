//! The palette shared by tab color bands and pane background tints.

use vstd::prelude::*;

verus! {

/// How many entries the palette has. Entry 0 is "none", the off state.
pub const PALETTE_LEN: usize = 7;

/// The name of palette entry `idx`.
pub open spec fn color_name(idx: int) -> Seq<char> {
    if idx == 1 {
        "red"@
    } else if idx == 2 {
        "yellow"@
    } else if idx == 3 {
        "green"@
    } else if idx == 4 {
        "blue"@
    } else if idx == 5 {
        "magenta"@
    } else if idx == 6 {
        "cyan"@
    } else {
        "none"@
    }
}

/// Human-readable name for the palette entry, used in the menu item. Out of
/// range falls back to "none".
pub fn palette_name(idx: u8) -> (name: &'static str)
    ensures
        name@ == color_name(idx as int),
{
    match idx {
        1 => "red",
        2 => "yellow",
        3 => "green",
        4 => "blue",
        5 => "magenta",
        6 => "cyan",
        _ => "none",
    }
}

/// Cycle the palette index forward by one, wrapping.
pub fn next_color_idx(idx: u8) -> (r: u8)
    ensures
        r == (idx + 1) % (PALETTE_LEN as int),
{
    ((idx as usize + 1) % PALETTE_LEN) as u8
}

/// One step of the palette cycle.
pub open spec fn cycled(idx: int) -> int {
    (idx + 1) % (PALETTE_LEN as int)
}

/// Cycling a color as often as the palette is long comes back to it.
pub proof fn law_cycle_returns(idx: int)
    requires
        0 <= idx < PALETTE_LEN,
    ensures
        cycled(cycled(cycled(cycled(cycled(cycled(cycled(idx))))))) == idx,
{
}

/// How many scale presets the pane menu cycles through.
pub const SCALE_PRESETS: usize = 5;

/// The preset that follows the one a pane is at; a pane at none of them counts
/// as being at the first.
pub fn next_scale_preset(at: Option<usize>) -> (next: usize)
    requires
        at matches Some(i) ==> i < SCALE_PRESETS,
    ensures
        next == (match at {
            Some(i) => i + 1,
            None => 1int,
        }) % (SCALE_PRESETS as int),
{
    match at {
        Some(i) => (i + 1) % SCALE_PRESETS,
        None => 1,
    }
}

} // verus!
