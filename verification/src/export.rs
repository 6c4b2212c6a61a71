//! Attribute values written when a tree is saved as SVG.
//!
//! A value equal to the attribute's default is not written: the functions
//! return `None` for it.

use vstd::prelude::*;
use crate::tree::{
    shape_rendering_from_name, shape_rendering_name, BlendMode, FillRule, LineCap, LineJoin,
    IsDefault, ShapeRendering, SpreadMethod, Units, Visibility,
};

verus! {

/// The keyword of a units value.
pub open spec fn units_name(units: Units) -> Seq<char> {
    match units {
        Units::UserSpaceOnUse => "userSpaceOnUse"@,
        Units::ObjectBoundingBox => "objectBoundingBox"@,
    }
}

/// The value written for a units attribute whose default is `def`.
pub fn units_attribute(units: Units, def: Units) -> (r: Option<&'static str>)
    ensures
        units == def ==> r is None,
        units != def ==> (r matches Some(v) && v@ == units_name(units)),
{
    if units != def {
        Some(
            match units {
                Units::UserSpaceOnUse => "userSpaceOnUse",
                Units::ObjectBoundingBox => "objectBoundingBox",
            },
        )
    } else {
        None
    }
}

/// The value written for the `visibility` attribute.
pub fn visibility_attribute(value: Visibility) -> (r: Option<&'static str>)
    ensures
        match value {
            Visibility::Visible => r is None,
            Visibility::Hidden => r matches Some(v) && v@ == "hidden"@,
            Visibility::Collapse => r matches Some(v) && v@ == "collapse"@,
        },
{
    match value {
        Visibility::Visible => None,
        Visibility::Hidden => Some("hidden"),
        Visibility::Collapse => Some("collapse"),
    }
}

/// The value written for the `shape-rendering` attribute.
pub fn shape_rendering_attribute(mode: ShapeRendering) -> (r: Option<&'static str>)
    ensures
        mode == ShapeRendering::GeometricPrecision ==> r is None,
        mode != ShapeRendering::GeometricPrecision ==> (r matches Some(v) && v@ == shape_rendering_name(
            mode,
        )),
{
    match mode {
        ShapeRendering::OptimizeSpeed => Some("optimizeSpeed"),
        ShapeRendering::CrispEdges => Some("crispEdges"),
        ShapeRendering::GeometricPrecision => None,
    }
}

/// A written `shape-rendering` value reads back as the same mode, and an
/// omitted one as the default mode.
pub proof fn lemma_shape_rendering_attribute_round_trip(mode: ShapeRendering, written: Option<Seq<char>>)
    requires
        mode == ShapeRendering::GeometricPrecision ==> written is None,
        mode != ShapeRendering::GeometricPrecision ==> written == Some(shape_rendering_name(mode)),
    ensures
        match written {
            Some(v) => shape_rendering_from_name(v) == Some(mode),
            None => mode == ShapeRendering::GeometricPrecision,
        },
{
    crate::tree::lemma_shape_rendering_name_round_trip(mode);
}

/// The value written for the `spreadMethod` attribute.
pub fn spread_method_attribute(method: SpreadMethod) -> (r: Option<&'static str>)
    ensures
        match method {
            SpreadMethod::Pad => r is None,
            SpreadMethod::Reflect => r matches Some(v) && v@ == "reflect"@,
            SpreadMethod::Repeat => r matches Some(v) && v@ == "repeat"@,
        },
{
    match method {
        SpreadMethod::Pad => None,
        SpreadMethod::Reflect => Some("reflect"),
        SpreadMethod::Repeat => Some("repeat"),
    }
}

/// The value written for the `stroke-linecap` attribute.
pub fn linecap_attribute(cap: LineCap) -> (r: Option<&'static str>)
    ensures
        match cap {
            LineCap::Butt => r is None,
            LineCap::Round => r matches Some(v) && v@ == "round"@,
            LineCap::Square => r matches Some(v) && v@ == "square"@,
        },
{
    match cap {
        LineCap::Butt => None,
        LineCap::Round => Some("round"),
        LineCap::Square => Some("square"),
    }
}

/// The value written for the `stroke-linejoin` attribute.
pub fn linejoin_attribute(join: LineJoin) -> (r: Option<&'static str>)
    ensures
        match join {
            LineJoin::Miter => r is None,
            LineJoin::Round => r matches Some(v) && v@ == "round"@,
            LineJoin::Bevel => r matches Some(v) && v@ == "bevel"@,
        },
{
    match join {
        LineJoin::Miter => None,
        LineJoin::Round => Some("round"),
        LineJoin::Bevel => Some("bevel"),
    }
}

/// The value written for the `fill-rule` (or, in a clip path, `clip-rule`)
/// attribute.
pub fn fill_rule_attribute(rule: FillRule) -> (r: Option<&'static str>)
    ensures
        match rule {
            FillRule::NonZero => r is None,
            FillRule::EvenOdd => r matches Some(v) && v@ == "evenodd"@,
        },
{
    match rule {
        FillRule::NonZero => None,
        FillRule::EvenOdd => Some("evenodd"),
    }
}

/// The keyword of a blending mode.
pub open spec fn blend_mode_name(mode: BlendMode) -> Seq<char> {
    match mode {
        BlendMode::Normal => "normal"@,
        BlendMode::Multiply => "multiply"@,
        BlendMode::Screen => "screen"@,
        BlendMode::Overlay => "overlay"@,
        BlendMode::Darken => "darken"@,
        BlendMode::Lighten => "lighten"@,
        BlendMode::ColorDodge => "color-dodge"@,
        BlendMode::ColorBurn => "color-burn"@,
        BlendMode::HardLight => "hard-light"@,
        BlendMode::SoftLight => "soft-light"@,
        BlendMode::Difference => "difference"@,
        BlendMode::Exclusion => "exclusion"@,
        BlendMode::Hue => "hue"@,
        BlendMode::Saturation => "saturation"@,
        BlendMode::Color => "color"@,
        BlendMode::Luminosity => "luminosity"@,
    }
}

/// The value written for the `mode` attribute of `feBlend`.
pub fn blend_mode_attribute(mode: BlendMode) -> (r: &'static str)
    ensures
        r@ == blend_mode_name(mode),
{
    match mode {
        BlendMode::Normal => "normal",
        BlendMode::Multiply => "multiply",
        BlendMode::Screen => "screen",
        BlendMode::Overlay => "overlay",
        BlendMode::Darken => "darken",
        BlendMode::Lighten => "lighten",
        BlendMode::ColorDodge => "color-dodge",
        BlendMode::ColorBurn => "color-burn",
        BlendMode::HardLight => "hard-light",
        BlendMode::SoftLight => "soft-light",
        BlendMode::Difference => "difference",
        BlendMode::Exclusion => "exclusion",
        BlendMode::Hue => "hue",
        BlendMode::Saturation => "saturation",
        BlendMode::Color => "color",
        BlendMode::Luminosity => "luminosity",
    }
}

/// The view of an optional prefix; an absent prefix is empty.
pub open spec fn prefix_view(prefix: Option<&str>) -> Seq<char> {
    match prefix {
        Some(p) => p@,
        None => Seq::empty(),
    }
}

/// The value written for an `id` attribute, with the optional prefix of
/// the writing options.
pub fn id_attribute(prefix: Option<&str>, id: &str) -> (r: String)
    ensures
        r@ == prefix_view(prefix) + id@,
{
    let mut value = String::new();
    if let Some(p) = prefix {
        value.append(p);
    }
    value.append(id);
    assert(value@ =~= prefix_view(prefix) + id@);
    value
}

/// The `url(#...)` value that references the element `id`, with the
/// optional prefix of the writing options.
pub fn func_iri(prefix: Option<&str>, id: &str) -> (r: String)
    ensures
        r@ == "url(#"@ + prefix_view(prefix) + id@ + ")"@,
{
    let mut value = String::new();
    value.append("url(#");
    if let Some(p) = prefix {
        value.append(p);
    }
    value.append(id);
    value.append(")");
    assert(value@ =~= "url(#"@ + prefix_view(prefix) + id@ + ")"@);
    value
}

/// An alignment of `preserveAspectRatio`.
#[derive(Clone, Copy, PartialEq, Eq, Debug, Structural)]
pub enum Align {
    /// `none`: the content is scaled non-uniformly to fill the viewport.
    NonUniform,
    XMinYMin,
    XMidYMin,
    XMaxYMin,
    XMinYMid,
    XMidYMid,
    XMaxYMid,
    XMinYMax,
    XMidYMax,
    XMaxYMax,
}

/// A `preserveAspectRatio` value.
#[derive(Clone, Copy, PartialEq, Eq, Debug, Structural)]
pub struct AspectRatio {
    pub defer: bool,
    pub align: Align,
    pub slice: bool,
}

/// The keyword of an alignment.
pub open spec fn align_name(align: Align) -> Seq<char> {
    match align {
        Align::NonUniform => "none"@,
        Align::XMinYMin => "xMinYMin"@,
        Align::XMidYMin => "xMidYMin"@,
        Align::XMaxYMin => "xMaxYMin"@,
        Align::XMinYMid => "xMinYMid"@,
        Align::XMidYMid => "xMidYMid"@,
        Align::XMaxYMid => "xMaxYMid"@,
        Align::XMinYMax => "xMinYMax"@,
        Align::XMidYMax => "xMidYMax"@,
        Align::XMaxYMax => "xMaxYMax"@,
    }
}

/// The value written for a `preserveAspectRatio` attribute.
pub open spec fn aspect_ratio_text(aspect: AspectRatio) -> Seq<char> {
    (if aspect.defer { "defer "@ } else { Seq::empty() }) + align_name(aspect.align) + (if aspect.slice {
        " slice"@
    } else {
        Seq::empty()
    })
}

/// Writes a `preserveAspectRatio` value: `defer` when set, the alignment,
/// and `slice` when set.
pub fn aspect_ratio_attribute(aspect: AspectRatio) -> (r: String)
    ensures
        r@ == aspect_ratio_text(aspect),
{
    let mut value = String::new();
    if aspect.defer {
        value.append("defer ");
    }
    let align = match aspect.align {
        Align::NonUniform => "none",
        Align::XMinYMin => "xMinYMin",
        Align::XMidYMin => "xMidYMin",
        Align::XMaxYMin => "xMaxYMin",
        Align::XMinYMid => "xMinYMid",
        Align::XMidYMid => "xMidYMid",
        Align::XMaxYMid => "xMaxYMid",
        Align::XMinYMax => "xMinYMax",
        Align::XMidYMax => "xMidYMax",
        Align::XMaxYMax => "xMaxYMax",
    };
    value.append(align);
    if aspect.slice {
        value.append(" slice");
    }
    assert(value@ =~= aspect_ratio_text(aspect));
    value
}

impl Default for AspectRatio {
    fn default() -> (r: Self)
        ensures
            r == (AspectRatio { defer: false, align: Align::XMidYMid, slice: false }),
    {
        AspectRatio { defer: false, align: Align::XMidYMid, slice: false }
    }
}

impl IsDefault for AspectRatio {
    fn is_default(&self) -> (r: bool)
        ensures
            r == (*self == (AspectRatio { defer: false, align: Align::XMidYMid, slice: false })),
    {
        !self.defer && self.align == Align::XMidYMid && !self.slice
    }
}

/// What a node of a converted tree tells about the `xlink` namespace: an
/// image, a filter with, for each primitive, whether it is an `feImage`, or
/// any other node.
#[derive(Clone, Debug)]
pub enum XlinkNode {
    Image,
    Filter { primitive_is_image: Vec<bool> },
    Other,
}

/// The node is written with an `xlink:href` attribute somewhere in it.
pub open spec fn needs_xlink(n: XlinkNode) -> bool {
    match n {
        XlinkNode::Image => true,
        XlinkNode::Filter { primitive_is_image } => exists|i: int|
            0 <= i < primitive_is_image@.len() && #[trigger] primitive_is_image@[i],
        XlinkNode::Other => false,
    }
}

fn any_true(flags: &Vec<bool>) -> (r: bool)
    ensures
        r == exists|i: int| 0 <= i < flags@.len() && #[trigger] flags@[i],
{
    let mut j: usize = 0;
    while j < flags.len()
        invariant
            j <= flags@.len(),
            forall|k: int| 0 <= k < j ==> !#[trigger] flags@[k],
        decreases flags.len() - j,
    {
        if flags[j] {
            return true;
        }
        j = j + 1;
    }
    false
}

/// Whether the written document needs the `xlink` namespace: some node
/// (`nodes`, every node of the tree) is an image or a filter with an
/// `feImage` primitive.
pub fn has_xlink(nodes: &[XlinkNode]) -> (r: bool)
    ensures
        r == exists|i: int| 0 <= i < nodes@.len() && needs_xlink(#[trigger] nodes@[i]),
{
    let mut i: usize = 0;
    while i < nodes.len()
        invariant
            i <= nodes@.len(),
            forall|k: int| 0 <= k < i ==> !needs_xlink(#[trigger] nodes@[k]),
        decreases nodes.len() - i,
    {
        match &nodes[i] {
            XlinkNode::Image => {
                return true;
            },
            XlinkNode::Filter { primitive_is_image } => {
                if any_true(primitive_is_image) {
                    return true;
                }
            },
            XlinkNode::Other => {},
        }
        i = i + 1;
    }
    false
}

} // verus!
