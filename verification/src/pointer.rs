//! Translation of pointer positions from screen coordinates to
//! window-local (framebuffer) coordinates.

use vstd::prelude::*;

verus! {

/// Height of the screen in points, fixed at build time; pointer translation
/// subtracts the screen-space y coordinate from it to flip the vertical axis.
pub const SCREEN_HEIGHT: isize = 1280;

/// Screen point `(sx, sy)` translated into the window whose origin has
/// screen x-coordinate `ox`.
pub open spec fn spec_translate(sx: int, sy: int, ox: int) -> (int, int) {
    (sx - ox, SCREEN_HEIGHT - sy)
}

/// The inverse translation: window-local point `(tx, ty)` back to screen
/// coordinates, for a window whose origin has screen x-coordinate `ox`.
pub open spec fn spec_untranslate(tx: int, ty: int, ox: int) -> (int, int) {
    (tx + ox, SCREEN_HEIGHT - ty)
}

/// Translating a screen point into window-local coordinates and back with
/// the same window origin and screen height recovers the original point.
pub proof fn lemma_translate_round_trip(sx: int, sy: int, ox: int)
    ensures
        spec_untranslate(spec_translate(sx, sy, ox).0, spec_translate(sx, sy, ox).1, ox) == (
        sx,
        sy,
        ),
{
}

/// Translate a pointer position from screen coordinates to window-local
/// coordinates, given the window origin's screen x-coordinate.
pub fn to_window_local(sx: isize, sy: isize, ox: isize) -> (r: (isize, isize))
    requires
        isize::MIN <= sx - ox <= isize::MAX,
        isize::MIN <= SCREEN_HEIGHT - sy <= isize::MAX,
    ensures
        (r.0 as int, r.1 as int) == spec_translate(sx as int, sy as int, ox as int),
{
    (sx - ox, SCREEN_HEIGHT - sy)
}

} // verus!
