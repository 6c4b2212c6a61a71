//! What a fill or stroke that references a paint server resolves to.

use vstd::prelude::*;
use crate::tree::{Color, SpreadMethod, Units};
use crate::text::str_eq;
use crate::filter_input::opt_str_view;
use crate::primitives::is_word;
use crate::href::{HrefLink, find_link_with_children, is_first_with_children};
use crate::links::Paint;

verus! {

/// A paint server reference, or the plain color that a degenerate paint
/// server stands for. `O` is the type of an opacity.
#[derive(Clone, Debug)]
pub enum ServerOrColor<O> {
    Server { id: String, units: Units },
    Color { color: Color, opacity: O },
}

/// A gradient stop. `O` is the type of an offset and of an opacity.
#[derive(Clone, Copy, Debug)]
pub struct Stop<O> {
    pub offset: O,
    pub color: Color,
    pub opacity: O,
}

/// The paint of a gradient that is drawn as a single color: the color and
/// opacity of its first stop, or nothing when it has no stops.
pub fn stops_to_color<O: Copy>(stops: &[Stop<O>]) -> (r: Option<ServerOrColor<O>>)
    ensures
        stops@.len() == 0 ==> r is None,
        stops@.len() > 0 ==> r == Some(
            ServerOrColor::Color { color: stops@[0].color, opacity: stops@[0].opacity },
        ),
{
    if stops.len() == 0 {
        None
    } else {
        Some(ServerOrColor::Color { color: stops[0].color, opacity: stops[0].opacity })
    }
}

/// The fallback of a paint that references a paint server.
#[derive(Clone, Copy, PartialEq, Eq, Debug, Structural)]
pub enum PaintFallback {
    /// `none`.
    Nothing,
    /// `currentColor`.
    CurrentColor,
    /// A color.
    Color(Color),
}

/// The black used when no `color` is inherited.
pub open spec fn black() -> Color {
    Color { red: 0, green: 0, blue: 0 }
}

/// The color that `currentColor` stands for: the inherited `color`
/// (`current`), or black.
pub open spec fn current_or_black(current: Option<Color>) -> Color {
    match current {
        Some(c) => c,
        None => black(),
    }
}

/// The paint of a fallback.
pub open spec fn spec_from_fallback(fallback: Option<PaintFallback>, current: Option<Color>) -> Option<Color> {
    match fallback {
        None => None,
        Some(PaintFallback::Nothing) => None,
        Some(PaintFallback::CurrentColor) => Some(current_or_black(current)),
        Some(PaintFallback::Color(c)) => Some(c),
    }
}

fn current_color(current: Option<Color>) -> (r: Color)
    ensures
        r == current_or_black(current),
{
    match current {
        Some(c) => c,
        None => Color::black(),
    }
}

/// Paints with the fallback of a paint whose server cannot be used: no
/// paint for `none` or no fallback, the inherited `color` (black without
/// one) for `currentColor`, or the fallback color.
pub fn from_fallback(fallback: Option<PaintFallback>, current: Option<Color>) -> (r: Option<Paint>)
    ensures
        paints_fallback(r, fallback, current),
{
    match fallback {
        None => None,
        Some(PaintFallback::Nothing) => None,
        Some(PaintFallback::CurrentColor) => Some(Paint::Color(current_color(current))),
        Some(PaintFallback::Color(c)) => Some(Paint::Color(c)),
    }
}

/// What a paint attribute holds, with its paint server already looked up
/// and converted. `O` is the type of an opacity.
#[derive(Clone, Debug)]
pub enum PaintValue<O> {
    /// `currentColor`.
    CurrentColor,
    /// A color.
    Color(Color),
    /// A reference whose target does not exist, with the fallback.
    MissingLink { fallback: Option<PaintFallback> },
    /// A reference to an element that is not a paint server.
    NotAServer,
    /// A reference to a paint server, with the result of converting it
    /// (`None` when it cannot be converted) and the fallback.
    Server { converted: Option<ServerOrColor<O>>, fallback: Option<PaintFallback> },
    /// Any other value.
    Other,
}

/// `p` paints with the color `c`.
pub open spec fn paints_color(p: Option<Paint>, c: Color) -> bool {
    p matches Some(Paint::Color(x)) && x == c
}

/// `p` paints with the paint server `id`.
pub open spec fn paints_link(p: Option<Paint>, id: Seq<char>) -> bool {
    p matches Some(Paint::Link(l)) && l@ == id
}

/// `p` is the paint of the fallback.
pub open spec fn paints_fallback(p: Option<Paint>, fallback: Option<PaintFallback>, current: Option<Color>) -> bool {
    match spec_from_fallback(fallback, current) {
        Some(c) => paints_color(p, c),
        None => p is None,
    }
}

/// Resolves a fill or stroke paint.
///
/// `has_bbox` tells whether the painted shape has a bounding box, which a
/// paint server in object bounding box units needs; `current` is the
/// inherited `color`. Returns the paint and, when the paint server stands
/// for a plain color, the opacity that replaces the paint's own.
pub fn convert_paint<O>(value: PaintValue<O>, has_bbox: bool, current: Option<Color>) -> (r: (
    Option<Paint>,
    Option<O>,
))
    ensures
        match value {
            PaintValue::CurrentColor => r.1 is None && paints_color(r.0, current_or_black(current)),
            PaintValue::Color(c) => r.1 is None && paints_color(r.0, c),
            PaintValue::MissingLink { fallback } => r.1 is None && paints_fallback(r.0, fallback, current),
            PaintValue::NotAServer => r.0 is None && r.1 is None,
            PaintValue::Server { converted, fallback } => match converted {
                Some(ServerOrColor::Server { id, units }) => r.1 is None && if !has_bbox && units
                    == Units::ObjectBoundingBox {
                    paints_fallback(r.0, fallback, current)
                } else {
                    paints_link(r.0, id@)
                },
                Some(ServerOrColor::Color { color, opacity }) => r.1 == Some(opacity) && paints_color(r.0, color),
                None => r.1 is None && paints_fallback(r.0, fallback, current),
            },
            PaintValue::Other => r.0 is None && r.1 is None,
        },
{
    match value {
        PaintValue::CurrentColor => (Some(Paint::Color(current_color(current))), None),
        PaintValue::Color(c) => (Some(Paint::Color(c)), None),
        PaintValue::MissingLink { fallback } => (from_fallback(fallback, current), None),
        PaintValue::NotAServer => (None, None),
        PaintValue::Server { converted, fallback } => match converted {
            Some(ServerOrColor::Server { id, units }) => {
                if !has_bbox && units == Units::ObjectBoundingBox {
                    (from_fallback(fallback, current), None)
                } else {
                    (Some(Paint::Link(id)), None)
                }
            },
            Some(ServerOrColor::Color { color, opacity }) => (Some(Paint::Color(color)), Some(opacity)),
            None => (from_fallback(fallback, current), None),
        },
        PaintValue::Other => (None, None),
    }
}

fn attr_is(attr: Option<&str>, word: &str) -> (r: bool)
    ensures
        r == is_word(opt_str_view(attr), word@),
{
    match attr {
        Some(s) => str_eq(s, word),
        None => false,
    }
}

/// The spread method that a `spreadMethod` value names.
pub open spec fn spec_spread_method(attr: Option<Seq<char>>) -> SpreadMethod {
    if is_word(attr, "reflect"@) {
        SpreadMethod::Reflect
    } else if is_word(attr, "repeat"@) {
        SpreadMethod::Repeat
    } else {
        SpreadMethod::Pad
    }
}

/// Reads `spreadMethod` of a gradient (`attr`, as found along its
/// `xlink:href` chain): `reflect` and `repeat` name themselves, anything else
/// or nothing is `pad`.
pub fn convert_spread_method(attr: Option<&str>) -> (r: SpreadMethod)
    ensures
        r == spec_spread_method(opt_str_view(attr)),
{
    if attr_is(attr, "reflect") {
        SpreadMethod::Reflect
    } else if attr_is(attr, "repeat") {
        SpreadMethod::Repeat
    } else {
        SpreadMethod::Pad
    }
}

/// The units that a units attribute value names, `def` for anything else.
pub open spec fn spec_element_units(attr: Option<Seq<char>>, def: Units) -> Units {
    if is_word(attr, "userSpaceOnUse"@) {
        Units::UserSpaceOnUse
    } else if is_word(attr, "objectBoundingBox"@) {
        Units::ObjectBoundingBox
    } else {
        def
    }
}

/// Reads a units attribute (`gradientUnits`, `patternUnits`,
/// `clipPathUnits`, `maskUnits` and the like): `userSpaceOnUse` and
/// `objectBoundingBox` name themselves, anything else or nothing gives the
/// attribute's default `def`.
pub fn convert_element_units(attr: Option<&str>, def: Units) -> (r: Units)
    ensures
        r == spec_element_units(opt_str_view(attr), def),
{
    if attr_is(attr, "userSpaceOnUse") {
        Units::UserSpaceOnUse
    } else if attr_is(attr, "objectBoundingBox") {
        Units::ObjectBoundingBox
    } else {
        def
    }
}

/// Finds, along the `xlink:href` chain of a gradient, the first element with
/// `stop` children. Every element up to it must be a gradient
/// (`kind_matches`); a reference to another kind of element, or a chain
/// without stops, gives `None`.
pub fn find_gradient_with_stops(chain: &[HrefLink]) -> (r: Option<usize>)
    ensures
        is_first_with_children(chain@, r),
{
    find_link_with_children(chain)
}

/// Finds, along the `xlink:href` chain of a pattern, the first element with
/// children. Every element up to it must be a pattern (`kind_matches`); a
/// reference to another kind of element, or a chain without children, gives
/// `None`.
pub fn find_pattern_with_children(chain: &[HrefLink]) -> (r: Option<usize>)
    ensures
        is_first_with_children(chain@, r),
{
    find_link_with_children(chain)
}

/// The kind of an element of an `xlink:href` chain, as far as inheriting
/// attributes goes.
#[derive(Clone, Copy, PartialEq, Eq, Debug, Structural)]
pub enum ServerKind {
    LinearGradient,
    RadialGradient,
    Pattern,
    Filter,
    /// Any other SVG element.
    Other,
}

/// An attribute that a paint server or filter can take from the elements
/// its `xlink:href` chain references.
#[derive(Clone, Copy, PartialEq, Eq, Debug, Structural)]
pub enum ServerAttr {
    X1,
    Y1,
    X2,
    Y2,
    Cx,
    Cy,
    R,
    Fx,
    Fy,
    GradientUnits,
    SpreadMethod,
    GradientTransform,
    /// Any other attribute.
    Other,
}

/// An element of an `xlink:href` chain: its kind (`None` for a node that is
/// not an SVG element) and whether it has the attribute looked for.
#[derive(Clone, Copy, PartialEq, Eq, Debug, Structural)]
pub struct ChainElement {
    pub kind: Option<ServerKind>,
    pub has_attr: bool,
}

/// The attributes that every gradient shares.
pub open spec fn is_shared_gradient_attr(attr: ServerAttr) -> bool {
    attr == ServerAttr::GradientUnits || attr == ServerAttr::SpreadMethod || attr == ServerAttr::GradientTransform
}

/// An element of kind `kind` can give the attribute `attr` to an element of
/// kind `root`: gradient coordinates come only from a gradient of the same
/// type, the other gradient attributes from any gradient; a pattern takes
/// attributes only from patterns and a filter only from filters.
pub open spec fn can_give(root: ServerKind, attr: ServerAttr, kind: Option<ServerKind>) -> bool {
    match kind {
        None => false,
        Some(k) => match root {
            ServerKind::LinearGradient => (k == ServerKind::LinearGradient && (attr == ServerAttr::X1 || attr
                == ServerAttr::Y1 || attr == ServerAttr::X2 || attr == ServerAttr::Y2)) || ((k
                == ServerKind::LinearGradient || k == ServerKind::RadialGradient) && is_shared_gradient_attr(attr)),
            ServerKind::RadialGradient => (k == ServerKind::RadialGradient && (attr == ServerAttr::Cx || attr
                == ServerAttr::Cy || attr == ServerAttr::R || attr == ServerAttr::Fx || attr == ServerAttr::Fy))
                || ((k == ServerKind::LinearGradient || k == ServerKind::RadialGradient) && is_shared_gradient_attr(
                attr,
            )),
            ServerKind::Pattern => k == ServerKind::Pattern,
            ServerKind::Filter => k == ServerKind::Filter,
            ServerKind::Other => false,
        },
    }
}

fn gives(root: ServerKind, attr: ServerAttr, kind: Option<ServerKind>) -> (r: bool)
    ensures
        r == can_give(root, attr, kind),
{
    match kind {
        None => false,
        Some(k) => {
            let is_gradient = k == ServerKind::LinearGradient || k == ServerKind::RadialGradient;
            let shared = attr == ServerAttr::GradientUnits || attr == ServerAttr::SpreadMethod || attr
                == ServerAttr::GradientTransform;
            match root {
                ServerKind::LinearGradient => (k == ServerKind::LinearGradient && (attr == ServerAttr::X1 || attr
                    == ServerAttr::Y1 || attr == ServerAttr::X2 || attr == ServerAttr::Y2)) || (is_gradient && shared),
                ServerKind::RadialGradient => (k == ServerKind::RadialGradient && (attr == ServerAttr::Cx || attr
                    == ServerAttr::Cy || attr == ServerAttr::R || attr == ServerAttr::Fx || attr == ServerAttr::Fy))
                    || (is_gradient && shared),
                ServerKind::Pattern => k == ServerKind::Pattern,
                ServerKind::Filter => k == ServerKind::Filter,
                ServerKind::Other => false,
            }
        },
    }
}

/// The chain seen as a search for the attribute: an element may be passed
/// when it can give the attribute to the first one.
pub open spec fn attr_links(chain: Seq<ChainElement>, attr: ServerAttr) -> Seq<HrefLink> {
    Seq::new(
        chain.len(),
        |i: int| mk_href_link(can_give(root_kind(chain), attr, chain[i].kind), chain[i].has_attr),
    )
}

/// The link with these fields.
pub open spec fn mk_href_link(kind_matches: bool, has_children: bool) -> HrefLink {
    HrefLink { kind_matches, has_children }
}

/// The kind of the first element of a chain.
pub open spec fn root_kind(chain: Seq<ChainElement>) -> ServerKind {
    match chain[0].kind {
        Some(k) => k,
        None => ServerKind::Other,
    }
}

/// Finds the element of an `xlink:href` chain (`chain`, the element itself
/// first) that an attribute is read from: the element itself when it has
/// the attribute; else the first element along the chain that has it, as
/// long as every element up to it can give the attribute to the first one;
/// else the element itself (index 0).
pub fn resolve_attr(chain: &[ChainElement], attr: ServerAttr) -> (r: usize)
    requires
        chain@.len() > 0,
    ensures
        r < chain@.len(),
        chain@[0].has_attr ==> r == 0,
        !chain@[0].has_attr ==> is_first_with_children(attr_links(chain@, attr), Some(r)) || (r == 0
            && is_first_with_children(attr_links(chain@, attr), None)),
{
    if chain[0].has_attr {
        return 0;
    }
    let root = match chain[0].kind {
        Some(k) => k,
        None => ServerKind::Other,
    };
    let mut links: Vec<HrefLink> = Vec::new();
    let mut i: usize = 0;
    while i < chain.len()
        invariant
            i <= chain@.len(),
            root == root_kind(chain@),
            links@ == attr_links(chain@, attr).take(i as int),
        decreases chain.len() - i,
    {
        let e = chain[i];
        links.push(HrefLink { kind_matches: gives(root, attr, e.kind), has_children: e.has_attr });
        i = i + 1;
        proof {
            assert(links@ =~= attr_links(chain@, attr).take(i as int));
        }
    }
    proof {
        assert(links@ =~= attr_links(chain@, attr));
    }
    let found = find_link_with_children(links.as_slice());
    match found {
        Some(j) => j,
        None => 0,
    }
}

/// One step along an `xlink:href` chain: when the first element lacks the
/// attribute and the element it references has it, the attribute is read
/// from that element exactly when the SVG rules let it give the attribute.
/// A linear gradient takes `x1`, `y1`, `x2` and `y2` from a linear gradient,
/// a radial gradient takes `cx`, `cy`, `r`, `fx` and `fy` from a radial
/// gradient, both take `gradientUnits`, `spreadMethod` and
/// `gradientTransform` from either kind of gradient, a pattern takes
/// attributes from a pattern and a filter from a filter; otherwise the
/// element itself is used. `r` is any result that [`resolve_attr`] may give.
pub proof fn lemma_resolve_attr_one_step(
    chain: Seq<ChainElement>,
    attr: ServerAttr,
    root: ServerKind,
    next: ServerKind,
    r: usize,
)
    requires
        chain.len() >= 2,
        chain[0].kind == Some(root),
        !chain[0].has_attr,
        chain[1].kind == Some(next),
        chain[1].has_attr,
        r < chain.len(),
        is_first_with_children(attr_links(chain, attr), Some(r)) || (r == 0 && is_first_with_children(
            attr_links(chain, attr),
            None,
        )),
    ensures
        r == (if root == ServerKind::LinearGradient {
            if ((attr == ServerAttr::X1 || attr == ServerAttr::Y1 || attr == ServerAttr::X2 || attr
                == ServerAttr::Y2) && next == ServerKind::LinearGradient) || ((attr == ServerAttr::GradientUnits
                || attr == ServerAttr::SpreadMethod || attr == ServerAttr::GradientTransform) && (next
                == ServerKind::LinearGradient || next == ServerKind::RadialGradient)) {
                1usize
            } else {
                0usize
            }
        } else if root == ServerKind::RadialGradient {
            if ((attr == ServerAttr::Cx || attr == ServerAttr::Cy || attr == ServerAttr::R || attr == ServerAttr::Fx
                || attr == ServerAttr::Fy) && next == ServerKind::RadialGradient) || ((attr
                == ServerAttr::GradientUnits || attr == ServerAttr::SpreadMethod || attr
                == ServerAttr::GradientTransform) && (next == ServerKind::LinearGradient || next
                == ServerKind::RadialGradient)) {
                1usize
            } else {
                0usize
            }
        } else if root == ServerKind::Pattern {
            if next == ServerKind::Pattern {
                1usize
            } else {
                0usize
            }
        } else if root == ServerKind::Filter {
            if next == ServerKind::Filter {
                1usize
            } else {
                0usize
            }
        } else {
            0usize
        }),
{
    let l = attr_links(chain, attr);
    assert(root_kind(chain) == root);
    assert(l[0] == mk_href_link(can_give(root, attr, Some(root)), false));
    assert(l[1] == mk_href_link(can_give(root, attr, Some(next)), true));
    if l[0].kind_matches && l[1].kind_matches {
        assert(r == 1);
    } else {
        assert(r == 0);
    }
}

} // verus!
