//! Presentation attribute values of the simplified SVG tree.

use vstd::prelude::*;
use crate::text::str_eq;

verus! {

/// An element units.
#[derive(Clone, Copy, PartialEq, Eq, Debug, Structural)]
pub enum Units {
    UserSpaceOnUse,
    ObjectBoundingBox,
}

/// A visibility property.
///
/// `visibility` attribute in the SVG.
#[derive(Clone, Copy, PartialEq, Eq, Debug, Structural)]
pub enum Visibility {
    Visible,
    Hidden,
    Collapse,
}

impl Default for Visibility {
    fn default() -> (r: Self)
        ensures
            r == Visibility::Visible,
    {
        Visibility::Visible
    }
}

/// A shape rendering method.
///
/// `shape-rendering` attribute in the SVG.
#[derive(Clone, Copy, PartialEq, Eq, Debug, Structural)]
pub enum ShapeRendering {
    OptimizeSpeed,
    CrispEdges,
    GeometricPrecision,
}

/// The SVG keyword of a `shape-rendering` value.
pub open spec fn shape_rendering_name(v: ShapeRendering) -> Seq<char> {
    match v {
        ShapeRendering::OptimizeSpeed => "optimizeSpeed"@,
        ShapeRendering::CrispEdges => "crispEdges"@,
        ShapeRendering::GeometricPrecision => "geometricPrecision"@,
    }
}

/// The `shape-rendering` value whose keyword is `s`, if any.
pub open spec fn shape_rendering_from_name(s: Seq<char>) -> Option<ShapeRendering> {
    if s == "optimizeSpeed"@ {
        Some(ShapeRendering::OptimizeSpeed)
    } else if s == "crispEdges"@ {
        Some(ShapeRendering::CrispEdges)
    } else if s == "geometricPrecision"@ {
        Some(ShapeRendering::GeometricPrecision)
    } else {
        None
    }
}

impl ShapeRendering {
    /// Checks if anti-aliasing should be enabled.
    pub fn use_shape_antialiasing(self) -> (r: bool)
        ensures
            r == (self == ShapeRendering::GeometricPrecision),
    {
        match self {
            ShapeRendering::OptimizeSpeed => false,
            ShapeRendering::CrispEdges => false,
            ShapeRendering::GeometricPrecision => true,
        }
    }

    /// Parses an SVG keyword.
    pub fn from_str(s: &str) -> (r: Result<Self, &'static str>)
        ensures
            match shape_rendering_from_name(s@) {
                Some(v) => r == Ok::<Self, &'static str>(v),
                None => r is Err && r->Err_0@ == "invalid"@,
            },
    {
        if str_eq(s, "optimizeSpeed") {
            Ok(ShapeRendering::OptimizeSpeed)
        } else if str_eq(s, "crispEdges") {
            Ok(ShapeRendering::CrispEdges)
        } else if str_eq(s, "geometricPrecision") {
            Ok(ShapeRendering::GeometricPrecision)
        } else {
            Err("invalid")
        }
    }
}

impl Default for ShapeRendering {
    fn default() -> (r: Self)
        ensures
            r == ShapeRendering::GeometricPrecision,
    {
        ShapeRendering::GeometricPrecision
    }
}

/// Every `shape-rendering` keyword parses back to its value.
pub proof fn lemma_shape_rendering_name_round_trip(v: ShapeRendering)
    ensures
        shape_rendering_from_name(shape_rendering_name(v)) == Some(v),
{
    reveal_strlit("optimizeSpeed");
    reveal_strlit("crispEdges");
    reveal_strlit("geometricPrecision");
    assert("optimizeSpeed"@.len() == 13);
    assert("crispEdges"@.len() == 10);
    assert("geometricPrecision"@.len() == 18);
}


/// A text rendering method.
///
/// `text-rendering` attribute in the SVG.
#[derive(Clone, Copy, PartialEq, Eq, Debug, Structural)]
pub enum TextRendering {
    OptimizeSpeed,
    OptimizeLegibility,
    GeometricPrecision,
}

impl Default for TextRendering {
    fn default() -> (r: Self)
        ensures
            r == TextRendering::OptimizeLegibility,
    {
        TextRendering::OptimizeLegibility
    }
}

/// The SVG keyword of a `text-rendering` value.
pub open spec fn text_rendering_name(v: TextRendering) -> Seq<char> {
    match v {
        TextRendering::OptimizeSpeed => "optimizeSpeed"@,
        TextRendering::OptimizeLegibility => "optimizeLegibility"@,
        TextRendering::GeometricPrecision => "geometricPrecision"@,
    }
}

/// The `text-rendering` value whose keyword is `s`, if any.
pub open spec fn text_rendering_from_name(s: Seq<char>) -> Option<TextRendering> {
    if s == "optimizeSpeed"@ {
        Some(TextRendering::OptimizeSpeed)
    } else if s == "optimizeLegibility"@ {
        Some(TextRendering::OptimizeLegibility)
    } else if s == "geometricPrecision"@ {
        Some(TextRendering::GeometricPrecision)
    } else {
        None
    }
}

impl TextRendering {
    /// Parses an SVG keyword.
    pub fn from_str(s: &str) -> (r: Result<Self, &'static str>)
        ensures
            match text_rendering_from_name(s@) {
                Some(v) => r == Ok::<Self, &'static str>(v),
                None => r is Err && r->Err_0@ == "invalid"@,
            },
    {
        if str_eq(s, "optimizeSpeed") {
            Ok(TextRendering::OptimizeSpeed)
        } else if str_eq(s, "optimizeLegibility") {
            Ok(TextRendering::OptimizeLegibility)
        } else if str_eq(s, "geometricPrecision") {
            Ok(TextRendering::GeometricPrecision)
        } else {
            Err("invalid")
        }
    }
}

/// Every `text-rendering` keyword parses back to its value.
pub proof fn lemma_text_rendering_name_round_trip(v: TextRendering)
    ensures
        text_rendering_from_name(text_rendering_name(v)) == Some(v),
{
    reveal_strlit("optimizeSpeed");
    reveal_strlit("optimizeLegibility");
    reveal_strlit("geometricPrecision");
    assert("optimizeSpeed"@.len() == 13);
    assert("optimizeLegibility"@.len() == 18);
    assert("geometricPrecision"@.len() == 18);
    assert("optimizeLegibility"@[0] != "geometricPrecision"@[0]);
}

/// An image rendering method.
///
/// `image-rendering` attribute in the SVG.
#[derive(Clone, Copy, PartialEq, Eq, Debug, Structural)]
pub enum ImageRendering {
    OptimizeQuality,
    OptimizeSpeed,
}

impl Default for ImageRendering {
    fn default() -> (r: Self)
        ensures
            r == ImageRendering::OptimizeQuality,
    {
        ImageRendering::OptimizeQuality
    }
}

/// The SVG keyword of an `image-rendering` value.
pub open spec fn image_rendering_name(v: ImageRendering) -> Seq<char> {
    match v {
        ImageRendering::OptimizeQuality => "optimizeQuality"@,
        ImageRendering::OptimizeSpeed => "optimizeSpeed"@,
    }
}

/// The `image-rendering` value whose keyword is `s`, if any.
pub open spec fn image_rendering_from_name(s: Seq<char>) -> Option<ImageRendering> {
    if s == "optimizeQuality"@ {
        Some(ImageRendering::OptimizeQuality)
    } else if s == "optimizeSpeed"@ {
        Some(ImageRendering::OptimizeSpeed)
    } else {
        None
    }
}

impl ImageRendering {
    /// Parses an SVG keyword.
    pub fn from_str(s: &str) -> (r: Result<Self, &'static str>)
        ensures
            match image_rendering_from_name(s@) {
                Some(v) => r == Ok::<Self, &'static str>(v),
                None => r is Err && r->Err_0@ == "invalid"@,
            },
    {
        if str_eq(s, "optimizeQuality") {
            Ok(ImageRendering::OptimizeQuality)
        } else if str_eq(s, "optimizeSpeed") {
            Ok(ImageRendering::OptimizeSpeed)
        } else {
            Err("invalid")
        }
    }
}

/// Every `image-rendering` keyword parses back to its value.
pub proof fn lemma_image_rendering_name_round_trip(v: ImageRendering)
    ensures
        image_rendering_from_name(image_rendering_name(v)) == Some(v),
{
    reveal_strlit("optimizeQuality");
    reveal_strlit("optimizeSpeed");
    assert("optimizeQuality"@.len() == 15);
    assert("optimizeSpeed"@.len() == 13);
}

/// A blending mode property.
///
/// `mix-blend-mode` attribute in the SVG.
#[derive(Clone, Copy, PartialEq, Eq, Debug, Structural)]
pub enum BlendMode {
    Normal,
    Multiply,
    Screen,
    Overlay,
    Darken,
    Lighten,
    ColorDodge,
    ColorBurn,
    HardLight,
    SoftLight,
    Difference,
    Exclusion,
    Hue,
    Saturation,
    Color,
    Luminosity,
}

impl Default for BlendMode {
    fn default() -> (r: Self)
        ensures
            r == BlendMode::Normal,
    {
        BlendMode::Normal
    }
}

/// A spread method.
///
/// `spreadMethod` attribute in the SVG.
#[derive(Clone, Copy, PartialEq, Eq, Debug, Structural)]
pub enum SpreadMethod {
    Pad,
    Reflect,
    Repeat,
}

impl Default for SpreadMethod {
    fn default() -> (r: Self)
        ensures
            r == SpreadMethod::Pad,
    {
        SpreadMethod::Pad
    }
}

/// A line cap.
///
/// `stroke-linecap` attribute in the SVG.
#[derive(Clone, Copy, PartialEq, Eq, Debug, Structural)]
pub enum LineCap {
    Butt,
    Round,
    Square,
}

impl Default for LineCap {
    fn default() -> (r: Self)
        ensures
            r == LineCap::Butt,
    {
        LineCap::Butt
    }
}

/// A line join.
///
/// `stroke-linejoin` attribute in the SVG.
#[derive(Clone, Copy, PartialEq, Eq, Debug, Structural)]
pub enum LineJoin {
    Miter,
    Round,
    Bevel,
}

impl Default for LineJoin {
    fn default() -> (r: Self)
        ensures
            r == LineJoin::Miter,
    {
        LineJoin::Miter
    }
}

/// A fill rule.
///
/// `fill-rule` attribute in the SVG.
#[derive(Clone, Copy, PartialEq, Eq, Debug, Structural)]
pub enum FillRule {
    NonZero,
    EvenOdd,
}

impl Default for FillRule {
    fn default() -> (r: Self)
        ensures
            r == FillRule::NonZero,
    {
        FillRule::NonZero
    }
}

/// A 8-bit RGB color.
#[derive(Clone, Copy, PartialEq, Eq, Debug, Structural)]
pub struct Color {
    pub red: u8,
    pub green: u8,
    pub blue: u8,
}

impl Color {
    /// Constructs a new `Color` from RGB values.
    pub fn new_rgb(red: u8, green: u8, blue: u8) -> (r: Color)
        ensures
            r.red == red,
            r.green == green,
            r.blue == blue,
    {
        Color { red, green, blue }
    }

    /// Constructs a new `Color` set to black.
    pub fn black() -> (r: Color)
        ensures
            r.red == 0 && r.green == 0 && r.blue == 0,
    {
        Color::new_rgb(0, 0, 0)
    }

    /// Constructs a new `Color` set to white.
    pub fn white() -> (r: Color)
        ensures
            r.red == 255 && r.green == 255 && r.blue == 255,
    {
        Color::new_rgb(255, 255, 255)
    }
}

/// A mask type.
#[derive(Clone, Copy, PartialEq, Eq, Debug, Structural)]
pub enum MaskType {
    /// Indicates that the luminance values of the mask should be used.
    Luminance,
    /// Indicates that the alpha values of the mask should be used.
    Alpha,
}

impl Default for MaskType {
    fn default() -> (r: Self)
        ensures
            r == MaskType::Luminance,
    {
        MaskType::Luminance
    }
}

/// Representation of the `paint-order` property.
///
/// Markers are handled automatically, therefore only the `fill` and
/// `stroke` orders exist.
#[derive(Clone, Copy, PartialEq, Eq, Debug, Structural)]
pub enum PaintOrder {
    FillAndStroke,
    StrokeAndFill,
}

impl Default for PaintOrder {
    fn default() -> (r: Self)
        ensures
            r == PaintOrder::FillAndStroke,
    {
        PaintOrder::FillAndStroke
    }
}

/// One of the three parts that a `paint-order` value lists.
#[derive(Clone, Copy, PartialEq, Eq, Debug, Structural)]
pub enum PaintOrderKind {
    Fill,
    Stroke,
    Markers,
}

/// The fill and stroke order of a `paint-order` whose first two parts are
/// `first` and `second`.
pub open spec fn spec_paint_order(first: PaintOrderKind, second: PaintOrderKind) -> PaintOrder {
    if first == PaintOrderKind::Stroke || (first == PaintOrderKind::Markers && second
        == PaintOrderKind::Stroke) {
        PaintOrder::StrokeAndFill
    } else {
        PaintOrder::FillAndStroke
    }
}

/// Reduces a parsed `paint-order` (its three parts, in drawing order) to the
/// order of fill and stroke; where markers go is decided separately.
pub fn svg_paint_order_to_usvg(order: [PaintOrderKind; 3]) -> (r: PaintOrder)
    ensures
        r == spec_paint_order(order@[0], order@[1]),
{
    match (order[0], order[1]) {
        (PaintOrderKind::Stroke, _) => PaintOrder::StrokeAndFill,
        (PaintOrderKind::Markers, PaintOrderKind::Stroke) => PaintOrder::StrokeAndFill,
        _ => PaintOrder::FillAndStroke,
    }
}

/// `order` lists each of the three parts once.
pub open spec fn is_paint_order_listing(order: Seq<PaintOrderKind>) -> bool {
    &&& order.len() == 3
    &&& order[0] != order[1]
    &&& order[0] != order[2]
    &&& order[1] != order[2]
}

/// The stroke is painted first exactly when the listing names it before the
/// fill.
pub proof fn lemma_paint_order_follows_listing(order: Seq<PaintOrderKind>)
    requires
        is_paint_order_listing(order),
    ensures
        (spec_paint_order(order[0], order[1]) == PaintOrder::StrokeAndFill) <==> exists|i: int, j: int|
            0 <= i < j < 3 && #[trigger] order[i] == PaintOrderKind::Stroke && #[trigger] order[j]
                == PaintOrderKind::Fill,
{
    if spec_paint_order(order[0], order[1]) == PaintOrder::StrokeAndFill {
        if order[0] == PaintOrderKind::Stroke {
            if order[1] == PaintOrderKind::Fill {
                assert(order[0] == PaintOrderKind::Stroke && order[1] == PaintOrderKind::Fill);
            } else {
                assert(order[0] == PaintOrderKind::Stroke && order[2] == PaintOrderKind::Fill);
            }
        } else {
            assert(order[1] == PaintOrderKind::Stroke && order[2] == PaintOrderKind::Fill);
        }
    }
}

/// What decides whether a group is drawn on a layer of its own: its
/// `isolation` flag, whether it is fully opaque, whether it has a clip path
/// or a mask, how many filters it has, and its blend mode.
#[derive(Clone, Copy, PartialEq, Eq, Debug, Structural)]
pub struct GroupIsolation {
    pub isolate: bool,
    pub opaque: bool,
    pub has_clip_path: bool,
    pub has_mask: bool,
    pub filter_count: usize,
    pub blend_mode: BlendMode,
}

impl GroupIsolation {
    /// A group is isolated when it asks to be, is not fully opaque, is
    /// clipped, masked or filtered, or blends other than normally.
    pub fn should_isolate(&self) -> (r: bool)
        ensures
            r == (self.isolate || !self.opaque || self.has_clip_path || self.has_mask
                || self.filter_count > 0 || self.blend_mode != BlendMode::Normal),
    {
        self.isolate || !self.opaque || self.has_clip_path || self.has_mask || self.filter_count
            != 0 || self.blend_mode != BlendMode::Normal
    }
}

/// The shape rendering mode used for the paths a text is converted into.
pub open spec fn spec_resolve_rendering_mode(mode: TextRendering) -> ShapeRendering {
    match mode {
        TextRendering::OptimizeSpeed => ShapeRendering::CrispEdges,
        TextRendering::OptimizeLegibility => ShapeRendering::GeometricPrecision,
        TextRendering::GeometricPrecision => ShapeRendering::GeometricPrecision,
    }
}

/// Picks the shape rendering mode of the paths that a text with the
/// `text-rendering` value `mode` is converted into.
pub fn resolve_rendering_mode(mode: TextRendering) -> (r: ShapeRendering)
    ensures
        r == spec_resolve_rendering_mode(mode),
{
    match mode {
        TextRendering::OptimizeSpeed => ShapeRendering::CrispEdges,
        TextRendering::OptimizeLegibility => ShapeRendering::GeometricPrecision,
        TextRendering::GeometricPrecision => ShapeRendering::GeometricPrecision,
    }
}

/// Text converted to paths is anti-aliased unless it asked for speed.
pub proof fn lemma_text_antialiasing(mode: TextRendering)
    ensures
        (spec_resolve_rendering_mode(mode) == ShapeRendering::GeometricPrecision)
            <==> mode != TextRendering::OptimizeSpeed,
{
}

/// Checks that a value is its type's default, the value an SVG writer can
/// leave out.
pub trait IsDefault {
    /// Checks that the value is the type's default.
    fn is_default(&self) -> bool;
}

impl IsDefault for Visibility {
    fn is_default(&self) -> (r: bool)
        ensures
            r == (*self == Visibility::Visible),
    {
        *self == Visibility::Visible
    }
}

impl IsDefault for ShapeRendering {
    fn is_default(&self) -> (r: bool)
        ensures
            r == (*self == ShapeRendering::GeometricPrecision),
    {
        *self == ShapeRendering::GeometricPrecision
    }
}

impl IsDefault for TextRendering {
    fn is_default(&self) -> (r: bool)
        ensures
            r == (*self == TextRendering::OptimizeLegibility),
    {
        *self == TextRendering::OptimizeLegibility
    }
}

impl IsDefault for ImageRendering {
    fn is_default(&self) -> (r: bool)
        ensures
            r == (*self == ImageRendering::OptimizeQuality),
    {
        *self == ImageRendering::OptimizeQuality
    }
}

impl IsDefault for BlendMode {
    fn is_default(&self) -> (r: bool)
        ensures
            r == (*self == BlendMode::Normal),
    {
        *self == BlendMode::Normal
    }
}

impl IsDefault for SpreadMethod {
    fn is_default(&self) -> (r: bool)
        ensures
            r == (*self == SpreadMethod::Pad),
    {
        *self == SpreadMethod::Pad
    }
}

impl IsDefault for LineCap {
    fn is_default(&self) -> (r: bool)
        ensures
            r == (*self == LineCap::Butt),
    {
        *self == LineCap::Butt
    }
}

impl IsDefault for LineJoin {
    fn is_default(&self) -> (r: bool)
        ensures
            r == (*self == LineJoin::Miter),
    {
        *self == LineJoin::Miter
    }
}

impl IsDefault for FillRule {
    fn is_default(&self) -> (r: bool)
        ensures
            r == (*self == FillRule::NonZero),
    {
        *self == FillRule::NonZero
    }
}

impl IsDefault for MaskType {
    fn is_default(&self) -> (r: bool)
        ensures
            r == (*self == MaskType::Luminance),
    {
        *self == MaskType::Luminance
    }
}

impl IsDefault for PaintOrder {
    fn is_default(&self) -> (r: bool)
        ensures
            r == (*self == PaintOrder::FillAndStroke),
    {
        *self == PaintOrder::FillAndStroke
    }
}

} // verus!
