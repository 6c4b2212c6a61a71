//! Resolving `inherit` and `currentColor` attribute values from the
//! element's ancestors.

use vstd::prelude::*;
use crate::tree::Color;

verus! {

/// Finds the element an `inherit` value is taken from.
///
/// `has_attribute` tells, for the element's ancestors from its parent up,
/// whether each one has the attribute. An inheritable attribute comes from
/// the nearest ancestor that has it; any other attribute only from the
/// parent. `None` means that the attribute's default applies (or, without
/// a default, that the attribute goes).
pub fn inherit_source(inheritable: bool, has_attribute: &[bool]) -> (r: Option<usize>)
    ensures
        inheritable ==> match r {
            Some(i) => i < has_attribute@.len() && has_attribute@[i as int] && forall|j: int|
                0 <= j < i ==> !#[trigger] has_attribute@[j],
            None => forall|j: int| 0 <= j < has_attribute@.len() ==> !#[trigger] has_attribute@[j],
        },
        !inheritable ==> r == (if has_attribute@.len() > 0 && has_attribute@[0] {
            Some(0usize)
        } else {
            None
        }),
{
    if !inheritable {
        if has_attribute.len() > 0 && has_attribute[0] {
            return Some(0);
        }
        return None;
    }
    let mut i: usize = 0;
    while i < has_attribute.len()
        invariant
            inheritable,
            i <= has_attribute@.len(),
            forall|j: int| 0 <= j < i ==> !#[trigger] has_attribute@[j],
        decreases has_attribute.len() - i,
    {
        if has_attribute[i] {
            return Some(i);
        }
        i = i + 1;
    }
    None
}

/// An attribute whose value can be `currentColor`.
#[derive(Clone, Copy, PartialEq, Eq, Debug, Structural)]
pub enum ColorAttribute {
    Fill,
    Stroke,
    FloodColor,
    StopColor,
    LightingColor,
    /// Any other attribute.
    Other,
}

/// The value of a `color` attribute.
#[derive(Clone, Copy, PartialEq, Eq, Debug, Structural)]
pub enum ColorValue {
    /// A color.
    Color(Color),
    /// A value that is not a color.
    NotAColor,
}

/// The color that `currentColor` stands for in the attribute `aid` of an
/// element, given the `color` attributes of the element and its ancestors,
/// nearest first (`None` where an element has none).
pub open spec fn spec_current_color(colors: Seq<Option<ColorValue>>, aid: ColorAttribute) -> Option<Color>
    decreases colors.len(),
{
    if colors.len() == 0 {
        if aid == ColorAttribute::Other {
            None
        } else {
            Some(Color { red: 0, green: 0, blue: 0 })
        }
    } else {
        match colors[0] {
            Some(ColorValue::Color(c)) => Some(c),
            Some(ColorValue::NotAColor) => None,
            None => spec_current_color(colors.drop_first(), aid),
        }
    }
}

/// Resolves `currentColor` in the attribute `aid`: the `color` of the
/// nearest element, the element itself first, that has one; black for a
/// fill, stroke, flood, stop or lighting color when none has one. `None`
/// means that the attribute is removed.
pub fn resolve_color(colors: &[Option<ColorValue>], aid: ColorAttribute) -> (r: Option<Color>)
    ensures
        r == spec_current_color(colors@, aid),
{
    let mut i: usize = 0;
    assert(colors@.subrange(0, colors@.len() as int) =~= colors@);
    while i < colors.len()
        invariant
            i <= colors@.len(),
            spec_current_color(colors@, aid) == spec_current_color(colors@.subrange(i as int, colors@.len() as int), aid),
        decreases colors.len() - i,
    {
        let ghost rest = colors@.subrange(i as int, colors@.len() as int);
        assert(rest[0] == colors@[i as int]);
        match colors[i] {
            Some(ColorValue::Color(c)) => return Some(c),
            Some(ColorValue::NotAColor) => return None,
            None => {},
        }
        assert(rest.drop_first() =~= colors@.subrange(i + 1, colors@.len() as int));
        i = i + 1;
    }
    assert(colors@.subrange(i as int, colors@.len() as int) =~= Seq::<Option<ColorValue>>::empty());
    match aid {
        ColorAttribute::Other => None,
        _ => Some(Color::black()),
    }
}

} // verus!
