//! The keyword attributes of `marker` elements.

use vstd::prelude::*;
use crate::filter_input::opt_str_view;
use crate::primitives::is_word;
use crate::text::str_eq;

verus! {

/// The coordinate system of a marker's contents: `markerUnits`.
#[derive(Clone, Copy, PartialEq, Eq, Debug, Structural)]
pub enum MarkerUnits {
    StrokeWidth,
    UserSpaceOnUse,
}

/// Reads the `markerUnits` attribute; `strokeWidth` by default.
pub fn convert_units(attr: Option<&str>) -> (r: MarkerUnits)
    ensures
        r == (if is_word(opt_str_view(attr), "userSpaceOnUse"@) {
            MarkerUnits::UserSpaceOnUse
        } else {
            MarkerUnits::StrokeWidth
        }),
{
    match attr {
        Some(s) => if str_eq(s, "userSpaceOnUse") {
            MarkerUnits::UserSpaceOnUse
        } else {
            MarkerUnits::StrokeWidth
        },
        None => MarkerUnits::StrokeWidth,
    }
}

/// The `overflow` property.
#[derive(Clone, Copy, PartialEq, Eq, Debug, Structural)]
pub enum Overflow {
    Visible,
    Hidden,
    Scroll,
    Auto,
}

/// The overflow that an `overflow` value denotes.
pub open spec fn spec_overflow(attr: Option<Seq<char>>) -> Overflow {
    if is_word(attr, "visible"@) {
        Overflow::Visible
    } else if is_word(attr, "scroll"@) {
        Overflow::Scroll
    } else if is_word(attr, "auto"@) {
        Overflow::Auto
    } else {
        Overflow::Hidden
    }
}

/// Reads the `overflow` attribute of a marker; `hidden` by default.
pub fn convert_overflow(attr: Option<&str>) -> (r: Overflow)
    ensures
        r == spec_overflow(opt_str_view(attr)),
{
    match attr {
        Some(s) => if str_eq(s, "visible") {
            Overflow::Visible
        } else if str_eq(s, "scroll") {
            Overflow::Scroll
        } else if str_eq(s, "auto") {
            Overflow::Auto
        } else {
            Overflow::Hidden
        },
        None => Overflow::Hidden,
    }
}

} // verus!
