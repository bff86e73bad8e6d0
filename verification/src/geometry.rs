//! Integer screen geometry: hit rectangles, pointer-relative panel
//! placement, and the debounce interior test.
//!
//! Everything works in whole device pixels (hit testing, placement) or in
//! thousandths of a panel's extent (debounce), so the state machine never
//! touches floating point; the host rounds its own coordinates on the way
//! in.

use vstd::prelude::*;

verus! {

/// Offset in pixels between the pointer and the spawned panel's near corner.
pub const TOOLTIP_POINTER_OFFSET: i64 = 8;

/// Half-width, in thousandths of the panel's extent measured from its
/// centre, of the region that counts as "sufficiently inside" for debounce.
/// A normalized pointer position spans -500..=500 across the panel.
pub const DEBOUNCE_DIST_MILLI: i64 = 480;

/// A closed axis-aligned rectangle in screen space, in whole pixels.
#[derive(Clone, Copy, Debug, PartialEq, Eq, Structural)]
pub struct HitRect {
    pub min_x: i64,
    pub min_y: i64,
    pub max_x: i64,
    pub max_y: i64,
}

impl HitRect {
    /// The point lies inside the rectangle, borders included.
    pub open spec fn spec_contains(self, x: int, y: int) -> bool {
        self.min_x <= x <= self.max_x && self.min_y <= y <= self.max_y
    }

    pub fn contains(&self, x: i64, y: i64) -> (r: bool)
        ensures
            r == self.spec_contains(x as int, y as int),
    {
        self.min_x <= x && x <= self.max_x && self.min_y <= y && y <= self.max_y
    }
}

/// Which window edge the panel's horizontal position is measured from, and
/// the distance to it in pixels.
#[derive(Clone, Copy, Debug, PartialEq, Eq, Structural)]
pub enum HorizontalAnchor {
    FromLeft(i64),
    FromRight(i64),
}

/// Which window edge the panel's vertical position is measured from, and
/// the distance to it in pixels.
#[derive(Clone, Copy, Debug, PartialEq, Eq, Structural)]
pub enum VerticalAnchor {
    FromTop(i64),
    FromBottom(i64),
}

/// Where a panel is anchored. The anchored corner is the one nearest the
/// pointer, so the panel grows away from the window edge the pointer is
/// closest to and never extends past it on that side.
#[derive(Clone, Copy, Debug, PartialEq, Eq, Structural)]
pub struct TooltipPlacement {
    pub horizontal: HorizontalAnchor,
    pub vertical: VerticalAnchor,
}

impl Default for TooltipPlacement {
    /// The placement used when no pointer position is available: flush with
    /// the window's top-left corner.
    fn default() -> (r: TooltipPlacement)
        ensures
            r == (TooltipPlacement {
                horizontal: HorizontalAnchor::FromLeft(0),
                vertical: VerticalAnchor::FromTop(0),
            }),
    {
        TooltipPlacement {
            horizontal: HorizontalAnchor::FromLeft(0),
            vertical: VerticalAnchor::FromTop(0),
        }
    }
}

/// The placement `position_tooltip` computes: the panel sits
/// `TOOLTIP_POINTER_OFFSET` pixels from the pointer, anchored toward the
/// window quadrant the pointer is in.
pub open spec fn spec_position(window_w: int, window_h: int, cx: int, cy: int) -> TooltipPlacement {
    TooltipPlacement {
        horizontal: if cx > window_w / 2 {
            HorizontalAnchor::FromRight((window_w - cx + TOOLTIP_POINTER_OFFSET) as i64)
        } else {
            HorizontalAnchor::FromLeft((cx + TOOLTIP_POINTER_OFFSET) as i64)
        },
        vertical: if cy > window_h / 2 {
            VerticalAnchor::FromBottom((window_h - cy + TOOLTIP_POINTER_OFFSET) as i64)
        } else {
            VerticalAnchor::FromTop((cy + TOOLTIP_POINTER_OFFSET) as i64)
        },
    }
}

/// Positions a panel next to the pointer: the screen quadrant of the
/// pointer relative to the window's centre picks which corner to anchor,
/// flipping horizontally and vertically so the panel never extends past the
/// window edge on the pointer's side.
pub fn position_tooltip(window_w: u32, window_h: u32, cursor_x: u32, cursor_y: u32) -> (p:
    TooltipPlacement)
    ensures
        p == spec_position(window_w as int, window_h as int, cursor_x as int, cursor_y as int),
{
    let w: i64 = window_w as i64;
    let h: i64 = window_h as i64;
    let cx: i64 = cursor_x as i64;
    let cy: i64 = cursor_y as i64;
    let horizontal = if cx > w / 2 {
        HorizontalAnchor::FromRight(w - cx + TOOLTIP_POINTER_OFFSET)
    } else {
        HorizontalAnchor::FromLeft(cx + TOOLTIP_POINTER_OFFSET)
    };
    let vertical = if cy > h / 2 {
        VerticalAnchor::FromBottom(h - cy + TOOLTIP_POINTER_OFFSET)
    } else {
        VerticalAnchor::FromTop(cy + TOOLTIP_POINTER_OFFSET)
    };
    TooltipPlacement { horizontal, vertical }
}

/// A pointer position normalized within a panel, in thousandths of the
/// panel's extent per axis: 0 is the centre, -500 and 500 are the edges.
/// The pointer counts as settled inside once both axes are within
/// `DEBOUNCE_DIST_MILLI` of the centre, that is, away from the hit-testable
/// border.
pub open spec fn spec_debounce_inside(nx: int, ny: int) -> bool {
    -DEBOUNCE_DIST_MILLI <= nx <= DEBOUNCE_DIST_MILLI && -DEBOUNCE_DIST_MILLI <= ny
        <= DEBOUNCE_DIST_MILLI
}

pub fn debounce_inside(nx: i64, ny: i64) -> (r: bool)
    ensures
        r == spec_debounce_inside(nx as int, ny as int),
{
    -DEBOUNCE_DIST_MILLI <= nx && nx <= DEBOUNCE_DIST_MILLI && -DEBOUNCE_DIST_MILLI <= ny && ny
        <= DEBOUNCE_DIST_MILLI
}

} // verus!
