//! Where the legend floats: along the bottom of the display area, as wide as
//! the display area without its margins.

use vstd::prelude::*;
use vstd::string::*;
use zellij_tile::prelude::FloatingPaneCoordinates;
use zellij_utils::input::layout::SplitSize;
use crate::text::{decimal_string, is_numeral, lemma_decimal_round_trip, numeral_value};

verus! {

/// A length or an offset of a floating pane.
#[derive(Clone, Copy, Debug, PartialEq, Eq, Structural)]
pub enum Extent {
    /// A share of the display area, in percent.
    Percent(usize),
    /// A number of rows or columns.
    Fixed(usize),
}

/// The placement of a floating pane. What is `None` is left to the host.
#[derive(Clone, Copy, Debug, PartialEq, Eq, Structural)]
pub struct Placement {
    pub x: Option<Extent>,
    pub y: Option<Extent>,
    pub width: Option<Extent>,
    pub height: Option<Extent>,
    pub pinned: Option<bool>,
}

/// The columns left free on the left of the legend.
pub const LEFT_MARGIN: usize = 2;

/// The columns left free on the right of the legend.
pub const RIGHT_MARGIN: usize = 2;

/// The rows that the legend takes.
pub const OVERLAY_HEIGHT: usize = 14;

/// The columns of the display area where the host has not reported them.
pub const FALLBACK_COLUMNS: usize = 255;

/// The rows of the display area where the host has not reported them.
pub const FALLBACK_ROWS: usize = 70;

/// True of a text of digits whose value a `usize` can hold.
pub open spec fn is_usize_numeral(s: Seq<char>) -> bool {
    is_numeral(s) && numeral_value(s) <= usize::MAX
}

/// A pinned placement given in rows and columns.
pub open spec fn fixed_placement(
    x: nat,
    y: nat,
    width: nat,
    height: nat,
    pinned: bool,
) -> Placement {
    Placement {
        x: Some(Extent::Fixed(x as usize)),
        y: Some(Extent::Fixed(y as usize)),
        width: Some(Extent::Fixed(width as usize)),
        height: Some(Extent::Fixed(height as usize)),
        pinned: Some(pinned),
    }
}

impl Default for Placement {
    /// The placement that leaves everything to the host.
    fn default() -> (placement: Placement)
        ensures
            placement.x is None,
            placement.y is None,
            placement.width is None,
            placement.height is None,
            placement.pinned is None,
    {
        Placement { x: None, y: None, width: None, height: None, pinned: None }
    }
}

/// `a - b`, or zero where `b` is the larger.
pub open spec fn minus_or_zero(a: usize, b: usize) -> usize {
    if a >= b {
        (a - b) as usize
    } else {
        0
    }
}

/// The placement of the legend in a display area of the given size; a size of
/// zero stands for one that the host has not reported. The legend starts
/// behind the left margin, ends before the right margin, has its fixed height
/// and ends on the last row. Where the display area is smaller than the margins
/// or the height, the width and the row are zero.
pub open spec fn overlay_placement(
    display_area_rows: usize,
    display_area_cols: usize,
) -> Placement {
    let cols = if display_area_cols > 0 {
        display_area_cols
    } else {
        FALLBACK_COLUMNS
    };
    let rows = if display_area_rows > 0 {
        display_area_rows
    } else {
        FALLBACK_ROWS
    };
    fixed_placement(
        LEFT_MARGIN as nat,
        minus_or_zero(rows, OVERLAY_HEIGHT) as nat,
        minus_or_zero(cols, (LEFT_MARGIN + RIGHT_MARGIN) as usize) as nat,
        OVERLAY_HEIGHT as nat,
        true,
    )
}

/// `FloatingPaneCoordinates::new` of `zellij_tile`, on four texts and a flag
/// that are all given. The crate reads a text that does not end in `%` as a
/// number of rows or columns, with `usize::from_str_radix` in base ten, and
/// returns the coordinates whenever one of the five is there. So for four
/// texts of digits that fit a `usize` it returns the four numbers as fixed
/// extents, and the flag.
#[verifier::external_body]
fn floating_coordinates(x: String, y: String, width: String, height: String, pinned: bool) -> (r:
    Option<Placement>)
    requires
        is_usize_numeral(x@),
        is_usize_numeral(y@),
        is_usize_numeral(width@),
        is_usize_numeral(height@),
    ensures
        r == Some(
            fixed_placement(
                numeral_value(x@),
                numeral_value(y@),
                numeral_value(width@),
                numeral_value(height@),
                pinned,
            ),
        ),
{
    let extent = |size: SplitSize|
        match size {
            SplitSize::Percent(share) => Extent::Percent(share),
            SplitSize::Fixed(cells) => Extent::Fixed(cells),
        };
    FloatingPaneCoordinates::new(Some(x), Some(y), Some(width), Some(height), Some(pinned)).map(
        |c| Placement {
            x: c.x.map(extent),
            y: c.y.map(extent),
            width: c.width.map(extent),
            height: c.height.map(extent),
            pinned: c.pinned,
        },
    )
}

/// The placement of the legend in a display area of the given size, as the
/// host reads it from the four numbers written out in decimal.
pub fn calculate_coordinates(display_area_rows: usize, display_area_cols: usize) -> (placement:
    Placement)
    ensures
        placement == overlay_placement(display_area_rows, display_area_cols),
{
    let terminal_cols: usize = if display_area_cols > 0 {
        display_area_cols
    } else {
        FALLBACK_COLUMNS
    };
    let terminal_rows: usize = if display_area_rows > 0 {
        display_area_rows
    } else {
        FALLBACK_ROWS
    };
    let width: usize = terminal_cols.saturating_sub(LEFT_MARGIN + RIGHT_MARGIN);
    let height: usize = OVERLAY_HEIGHT;
    let x_position: usize = LEFT_MARGIN;
    let y_position: usize = terminal_rows.saturating_sub(height);
    proof {
        lemma_decimal_round_trip(x_position as nat);
        lemma_decimal_round_trip(y_position as nat);
        lemma_decimal_round_trip(width as nat);
        lemma_decimal_round_trip(height as nat);
    }
    let coordinates = floating_coordinates(
        decimal_string(x_position as u64),
        decimal_string(y_position as u64),
        decimal_string(width as u64),
        decimal_string(height as u64),
        true,
    );
    match coordinates {
        Some(placement) => placement,
        None => Placement::default(),
    }
}

} // verus!
