//! The keyword attributes of filter primitives, read as the conversion of
//! a document reads them: an absent or unknown value falls back to the
//! default of the attribute.

use vstd::prelude::*;
use crate::text::str_eq;
use crate::convolve::EdgeMode;
use crate::tree::Color;
use crate::filter_input::{FilterInput, opt_str_view, resolve_input, spec_resolve_input, views};
use crate::href::{HrefLink, find_link_with_children, is_first_with_children};

verus! {

/// `attr` is present and equal to `word`.
pub open spec fn is_word(attr: Option<Seq<char>>, word: Seq<char>) -> bool {
    attr == Some(word)
}

fn attr_is(attr: Option<&str>, word: &str) -> (r: bool)
    ensures
        r == is_word(opt_str_view(attr), word@),
{
    match attr {
        Some(s) => str_eq(s, word),
        None => false,
    }
}

/// A blending mode of `feBlend`.
#[derive(Clone, Copy, PartialEq, Eq, Debug, Structural)]
pub enum FeBlendMode {
    Normal,
    Multiply,
    Screen,
    Darken,
    Lighten,
}

/// The blending mode that the `mode` attribute denotes.
pub open spec fn spec_blend_mode(attr: Option<Seq<char>>) -> FeBlendMode {
    if is_word(attr, "multiply"@) {
        FeBlendMode::Multiply
    } else if is_word(attr, "screen"@) {
        FeBlendMode::Screen
    } else if is_word(attr, "darken"@) {
        FeBlendMode::Darken
    } else if is_word(attr, "lighten"@) {
        FeBlendMode::Lighten
    } else {
        FeBlendMode::Normal
    }
}

/// Reads the `mode` attribute of `feBlend`; `normal` by default.
pub fn blend_mode(attr: Option<&str>) -> (r: FeBlendMode)
    ensures
        r == spec_blend_mode(opt_str_view(attr)),
{
    if attr_is(attr, "multiply") {
        FeBlendMode::Multiply
    } else if attr_is(attr, "screen") {
        FeBlendMode::Screen
    } else if attr_is(attr, "darken") {
        FeBlendMode::Darken
    } else if attr_is(attr, "lighten") {
        FeBlendMode::Lighten
    } else {
        FeBlendMode::Normal
    }
}

/// An `feBlend` primitive.
#[derive(Clone, Debug)]
pub struct FeBlend {
    pub mode: FeBlendMode,
    pub input1: FilterInput,
    pub input2: FilterInput,
}

/// Converts an `feBlend` element from its `mode`, `in` and `in2`
/// attributes, given the `result` names of the preceding primitives.
pub fn convert_fe_blend(
    mode: Option<&str>,
    in1: Option<&str>,
    in2: Option<&str>,
    results: &Vec<String>,
) -> (r: FeBlend)
    ensures
        r.mode == spec_blend_mode(opt_str_view(mode)),
        r.input1@ == spec_resolve_input(opt_str_view(in1), views(results@)),
        r.input2@ == spec_resolve_input(opt_str_view(in2), views(results@)),
{
    FeBlend {
        mode: blend_mode(mode),
        input1: resolve_input(in1, results),
        input2: resolve_input(in2, results),
    }
}

/// A compositing operator of `feComposite`, with the coefficients of the
/// `arithmetic` operator.
#[derive(Clone, Copy, Debug)]
pub enum FeCompositeOperator<T> {
    Over,
    In,
    Out,
    Atop,
    Xor,
    Arithmetic { k1: T, k2: T, k3: T, k4: T },
}

/// The operator that the `operator` attribute denotes, with the coefficients
/// `k` when it is `arithmetic`.
pub open spec fn spec_composite_operator<T>(attr: Option<Seq<char>>, k: (T, T, T, T)) -> FeCompositeOperator<T> {
    if is_word(attr, "in"@) {
        FeCompositeOperator::In
    } else if is_word(attr, "out"@) {
        FeCompositeOperator::Out
    } else if is_word(attr, "atop"@) {
        FeCompositeOperator::Atop
    } else if is_word(attr, "xor"@) {
        FeCompositeOperator::Xor
    } else if is_word(attr, "arithmetic"@) {
        FeCompositeOperator::Arithmetic { k1: k.0, k2: k.1, k3: k.2, k4: k.3 }
    } else {
        FeCompositeOperator::Over
    }
}

/// Reads the `operator` attribute of `feComposite`; `over` by default.
/// `k` holds the values of `k1` to `k4`, each zero when absent.
pub fn composite_operator<T: Copy>(attr: Option<&str>, k: (T, T, T, T)) -> (r: FeCompositeOperator<T>)
    ensures
        r == spec_composite_operator(opt_str_view(attr), k),
{
    if attr_is(attr, "in") {
        FeCompositeOperator::In
    } else if attr_is(attr, "out") {
        FeCompositeOperator::Out
    } else if attr_is(attr, "atop") {
        FeCompositeOperator::Atop
    } else if attr_is(attr, "xor") {
        FeCompositeOperator::Xor
    } else if attr_is(attr, "arithmetic") {
        FeCompositeOperator::Arithmetic { k1: k.0, k2: k.1, k3: k.2, k4: k.3 }
    } else {
        FeCompositeOperator::Over
    }
}

/// An `feComposite` primitive.
#[derive(Clone, Debug)]
pub struct FeComposite<T> {
    pub operator: FeCompositeOperator<T>,
    pub input1: FilterInput,
    pub input2: FilterInput,
}

/// Converts an `feComposite` element from its `operator`, `k1` to `k4`,
/// `in` and `in2` attributes, given the `result` names of the preceding
/// primitives.
pub fn convert_fe_composite<T: Copy>(
    operator: Option<&str>,
    k: (T, T, T, T),
    in1: Option<&str>,
    in2: Option<&str>,
    results: &Vec<String>,
) -> (r: FeComposite<T>)
    ensures
        r.operator == spec_composite_operator(opt_str_view(operator), k),
        r.input1@ == spec_resolve_input(opt_str_view(in1), views(results@)),
        r.input2@ == spec_resolve_input(opt_str_view(in2), views(results@)),
{
    FeComposite {
        operator: composite_operator(operator, k),
        input1: resolve_input(in1, results),
        input2: resolve_input(in2, results),
    }
}

/// The edge mode that the `edgeMode` attribute denotes.
pub open spec fn spec_edge_mode(attr: Option<Seq<char>>) -> EdgeMode {
    if is_word(attr, "none"@) {
        EdgeMode::Zero
    } else if is_word(attr, "wrap"@) {
        EdgeMode::Wrap
    } else {
        EdgeMode::Duplicate
    }
}

/// Reads the `edgeMode` attribute of `feConvolveMatrix`; `duplicate` by
/// default.
pub fn edge_mode(attr: Option<&str>) -> (r: EdgeMode)
    ensures
        r == spec_edge_mode(opt_str_view(attr)),
{
    if attr_is(attr, "none") {
        EdgeMode::Zero
    } else if attr_is(attr, "wrap") {
        EdgeMode::Wrap
    } else {
        EdgeMode::Duplicate
    }
}

/// Reads the `preserveAlpha` attribute of `feConvolveMatrix`: only `true`
/// preserves the alpha channel.
pub fn preserve_alpha(attr: Option<&str>) -> (r: bool)
    ensures
        r == is_word(opt_str_view(attr), "true"@),
{
    attr_is(attr, "true")
}

/// The kernel size of `feConvolveMatrix` from the `order` attribute, given
/// the integers read from it: the first one, or 3 when none could be read;
/// the second one, or the first when there is no second. Both must be
/// positive, else the order is 3 by 3.
pub open spec fn spec_convolve_order(x: Option<i32>, y: Option<i32>) -> (u32, u32) {
    let ox: i32 = match x {
        Some(v) => v,
        None => 3,
    };
    let oy: i32 = match y {
        Some(v) => v,
        None => ox,
    };
    if ox > 0 && oy > 0 {
        (ox as u32, oy as u32)
    } else {
        (3, 3)
    }
}

/// Reads the kernel size of `feConvolveMatrix`.
pub fn convolve_order(x: Option<i32>, y: Option<i32>) -> (r: (u32, u32))
    ensures
        r == spec_convolve_order(x, y),
        r.0 > 0 && r.1 > 0,
{
    let ox: i32 = match x {
        Some(v) => v,
        None => 3,
    };
    let oy: i32 = match y {
        Some(v) => v,
        None => ox,
    };
    if ox > 0 && oy > 0 {
        (ox as u32, oy as u32)
    } else {
        (3, 3)
    }
}

/// Keeps the values of the `kernelMatrix` attribute when there are exactly
/// as many as the kernel has cells; otherwise the kernel is empty.
pub fn kernel_values<T>(values: Option<Vec<T>>, columns: u32, rows: u32) -> (r: Vec<T>)
    requires
        columns * rows <= u32::MAX,
    ensures
        match values {
            Some(v) => if v.len() == columns * rows {
                r@ == v@
            } else {
                r@.len() == 0
            },
            None => r@.len() == 0,
        },
{
    let cells: u32 = columns * rows;
    match values {
        Some(v) => {
            if v.len() as u64 == cells as u64 {
                v
            } else {
                Vec::new()
            }
        },
        None => Vec::new(),
    }
}

/// The value `v` of type `u32` converted to `i32`, saturating at `i32::MAX`.
pub open spec fn saturate_i32(v: u32) -> i32 {
    if v <= i32::MAX {
        v as i32
    } else {
        i32::MAX
    }
}

/// The value `v` of type `u32` reinterpreted as `i32` (two's complement).
pub open spec fn wrap_i32(v: u32) -> int {
    if v <= i32::MAX {
        v as int
    } else {
        v - 0x1_0000_0000
    }
}

/// Reads the `targetX` or `targetY` attribute of `feConvolveMatrix`.
///
/// `target` is the attribute's number truncated to an integer, if present;
/// `default_target` is half the kernel size, rounded down. The target is
/// valid when it lies inside the kernel of size `order`.
pub fn convolve_target(target: Option<i32>, default_target: u32, order: u32) -> (r: Option<u32>)
    ensures
        ({
            let t: i32 = match target {
                Some(v) => v,
                None => saturate_i32(default_target),
            };
            match r {
                Some(v) => 0 <= t < wrap_i32(order) && v == t,
                None => !(0 <= t < wrap_i32(order)),
            }
        }),
{
    let t: i32 = match target {
        Some(v) => v,
        None => if default_target <= 0x7fff_ffff {
            default_target as i32
        } else {
            0x7fff_ffff
        },
    };
    let o: i64 = if order <= 0x7fff_ffff {
        order as i64
    } else {
        order as i64 - 0x1_0000_0000
    };
    if t < 0 || (t as i64) >= o {
        None
    } else {
        Some(t as u32)
    }
}

/// An operator of `feMorphology`.
#[derive(Clone, Copy, PartialEq, Eq, Debug, Structural)]
pub enum FeMorphologyOperator {
    Erode,
    Dilate,
}

/// Reads the `operator` attribute of `feMorphology`; `erode` by default.
pub fn morphology_operator(attr: Option<&str>) -> (r: FeMorphologyOperator)
    ensures
        r == (if is_word(opt_str_view(attr), "dilate"@) {
            FeMorphologyOperator::Dilate
        } else {
            FeMorphologyOperator::Erode
        }),
{
    if attr_is(attr, "dilate") {
        FeMorphologyOperator::Dilate
    } else {
        FeMorphologyOperator::Erode
    }
}

/// A color channel selected by `feDisplacementMap`.
#[derive(Clone, Copy, PartialEq, Eq, Debug, Structural)]
pub enum ColorChannel {
    R,
    G,
    B,
    A,
}

/// The channel that an `xChannelSelector` or `yChannelSelector` value
/// denotes.
pub open spec fn spec_color_channel(attr: Option<Seq<char>>) -> ColorChannel {
    if is_word(attr, "R"@) {
        ColorChannel::R
    } else if is_word(attr, "G"@) {
        ColorChannel::G
    } else if is_word(attr, "B"@) {
        ColorChannel::B
    } else {
        ColorChannel::A
    }
}

/// Reads a channel selector of `feDisplacementMap`; `A` by default.
pub fn color_channel(attr: Option<&str>) -> (r: ColorChannel)
    ensures
        r == spec_color_channel(opt_str_view(attr)),
{
    if attr_is(attr, "R") {
        ColorChannel::R
    } else if attr_is(attr, "G") {
        ColorChannel::G
    } else if attr_is(attr, "B") {
        ColorChannel::B
    } else {
        ColorChannel::A
    }
}

/// A kind of `feTurbulence`.
#[derive(Clone, Copy, PartialEq, Eq, Debug, Structural)]
pub enum FeTurbulenceKind {
    FractalNoise,
    Turbulence,
}

/// Reads the `type` attribute of `feTurbulence`; `turbulence` by default.
pub fn turbulence_kind(attr: Option<&str>) -> (r: FeTurbulenceKind)
    ensures
        r == (if is_word(opt_str_view(attr), "fractalNoise"@) {
            FeTurbulenceKind::FractalNoise
        } else {
            FeTurbulenceKind::Turbulence
        }),
{
    if attr_is(attr, "fractalNoise") {
        FeTurbulenceKind::FractalNoise
    } else {
        FeTurbulenceKind::Turbulence
    }
}

/// Reads the `stitchTiles` attribute of `feTurbulence`: only `stitch`
/// stitches.
pub fn stitch_tiles(attr: Option<&str>) -> (r: bool)
    ensures
        r == is_word(opt_str_view(attr), "stitch"@),
{
    attr_is(attr, "stitch")
}

/// A kind of transfer function of `feFuncR`, `feFuncG`, `feFuncB` and
/// `feFuncA`.
#[derive(Clone, Copy, PartialEq, Eq, Debug, Structural)]
pub enum TransferFunctionKind {
    Identity,
    Table,
    Discrete,
    Linear,
    Gamma,
}

/// The kind of transfer function that the `type` attribute denotes; an
/// absent or unknown type leaves the channel unchanged.
pub open spec fn spec_transfer_function_kind(attr: Option<Seq<char>>) -> Option<TransferFunctionKind> {
    if is_word(attr, "identity"@) {
        Some(TransferFunctionKind::Identity)
    } else if is_word(attr, "table"@) {
        Some(TransferFunctionKind::Table)
    } else if is_word(attr, "discrete"@) {
        Some(TransferFunctionKind::Discrete)
    } else if is_word(attr, "linear"@) {
        Some(TransferFunctionKind::Linear)
    } else if is_word(attr, "gamma"@) {
        Some(TransferFunctionKind::Gamma)
    } else {
        None
    }
}

/// Reads the `type` attribute of a transfer function element.
pub fn transfer_function_kind(attr: Option<&str>) -> (r: Option<TransferFunctionKind>)
    ensures
        r == spec_transfer_function_kind(opt_str_view(attr)),
{
    if attr_is(attr, "identity") {
        Some(TransferFunctionKind::Identity)
    } else if attr_is(attr, "table") {
        Some(TransferFunctionKind::Table)
    } else if attr_is(attr, "discrete") {
        Some(TransferFunctionKind::Discrete)
    } else if attr_is(attr, "linear") {
        Some(TransferFunctionKind::Linear)
    } else if attr_is(attr, "gamma") {
        Some(TransferFunctionKind::Gamma)
    } else {
        None
    }
}

/// Converts an `feTile` element from its `in` attribute, given the `result`
/// names of the preceding primitives.
pub fn convert_fe_tile(in1: Option<&str>, results: &Vec<String>) -> (r: FilterInput)
    ensures
        r@ == spec_resolve_input(opt_str_view(in1), views(results@)),
{
    resolve_input(in1, results)
}

/// The view of an optional string.
pub open spec fn opt_string_view(attr: Option<String>) -> Option<Seq<char>> {
    match attr {
        Some(s) => Some(s@),
        None => None,
    }
}

/// Converts an `feMerge` element: one input per `feMergeNode` child, from
/// the child's `in` attribute (`nodes`), given the `result` names of the
/// preceding primitives.
pub fn convert_fe_merge(nodes: &Vec<Option<String>>, results: &Vec<String>) -> (r: Vec<FilterInput>)
    ensures
        r.len() == nodes.len(),
        forall|i: int|
            0 <= i < nodes.len() ==> (#[trigger] r@[i])@ == spec_resolve_input(
                opt_string_view(nodes@[i]),
                views(results@),
            ),
{
    let mut inputs: Vec<FilterInput> = Vec::new();
    let mut i: usize = 0;
    while i < nodes.len()
        invariant
            i <= nodes.len(),
            inputs.len() == i,
            forall|j: int|
                0 <= j < i ==> (#[trigger] inputs@[j])@ == spec_resolve_input(
                    opt_string_view(nodes@[j]),
                    views(results@),
                ),
        decreases nodes.len() - i,
    {
        let attr: Option<&str> = match &nodes[i] {
            Some(s) => Some(s.as_str()),
            None => None,
        };
        assert(opt_str_view(attr) == opt_string_view(nodes@[i as int]));
        inputs.push(resolve_input(attr, results));
        i += 1;
    }
    inputs
}

/// An `feDisplacementMap` primitive, with its scale.
#[derive(Clone, Debug)]
pub struct FeDisplacementMap<T> {
    pub input1: FilterInput,
    pub input2: FilterInput,
    pub scale: T,
    pub x_channel_selector: ColorChannel,
    pub y_channel_selector: ColorChannel,
}

/// Converts an `feDisplacementMap` element from its `in`, `in2`,
/// `xChannelSelector` and `yChannelSelector` attributes and its scale
/// (zero when absent), given the `result` names of the preceding primitives.
pub fn convert_fe_displacement_map<T>(
    in1: Option<&str>,
    in2: Option<&str>,
    scale: T,
    x_channel: Option<&str>,
    y_channel: Option<&str>,
    results: &Vec<String>,
) -> (r: FeDisplacementMap<T>)
    ensures
        r.input1@ == spec_resolve_input(opt_str_view(in1), views(results@)),
        r.input2@ == spec_resolve_input(opt_str_view(in2), views(results@)),
        r.scale == scale,
        r.x_channel_selector == spec_color_channel(opt_str_view(x_channel)),
        r.y_channel_selector == spec_color_channel(opt_str_view(y_channel)),
{
    FeDisplacementMap {
        input1: resolve_input(in1, results),
        input2: resolve_input(in2, results),
        scale,
        x_channel_selector: color_channel(x_channel),
        y_channel_selector: color_channel(y_channel),
    }
}

/// The value of a `lighting-color` attribute.
#[derive(Clone, Copy, PartialEq, Eq, Debug, Structural)]
pub enum LightingColorValue {
    /// `currentColor`.
    CurrentColor,
    /// A color.
    Color(Color),
    /// Any other value.
    Other,
}

/// Resolves the `lighting-color` of a lighting primitive: `currentColor`
/// takes the inherited `color` (`current`, black when there is none), a
/// color is kept, and anything else, or no value, gives white.
pub fn convert_lighting_color(value: Option<LightingColorValue>, current: Option<Color>) -> (r: Color)
    ensures
        r == match value {
            Some(LightingColorValue::CurrentColor) => match current {
                Some(c) => c,
                None => (Color { red: 0, green: 0, blue: 0 }),
            },
            Some(LightingColorValue::Color(c)) => c,
            _ => (Color { red: 255, green: 255, blue: 255 }),
        },
{
    match value {
        Some(LightingColorValue::CurrentColor) => match current {
            Some(c) => c,
            None => Color::black(),
        },
        Some(LightingColorValue::Color(c)) => c,
        _ => Color::white(),
    }
}

/// An `feFlood` primitive. `O` is the type of an opacity.
#[derive(Clone, Copy, Debug)]
pub struct FeFlood<O> {
    pub color: Color,
    pub opacity: O,
}

/// Converts an `feFlood` element from its `flood-color` (black when absent)
/// and its `flood-opacity`.
pub fn convert_fe_flood<O>(color: Option<Color>, opacity: O) -> (r: FeFlood<O>)
    ensures
        r.color == (match color {
            Some(c) => c,
            None => (Color { red: 0, green: 0, blue: 0 }),
        }),
        r.opacity == opacity,
{
    let color = match color {
        Some(c) => c,
        None => Color::black(),
    };
    FeFlood { color, opacity }
}

/// The primitive that replaces a malformed one: a flood of black with the
/// given `transparent` opacity, so that it draws nothing.
pub fn create_dummy_primitive<O>(transparent: O) -> (r: FeFlood<O>)
    ensures
        r.color == (Color { red: 0, green: 0, blue: 0 }),
        r.opacity == transparent,
{
    FeFlood { color: Color::black(), opacity: transparent }
}

/// A channel of `feComponentTransfer`, named by the element of its
/// transfer function.
#[derive(Clone, Copy, PartialEq, Eq, Debug, Structural)]
pub enum ComponentChannel {
    /// `feFuncR`.
    R,
    /// `feFuncG`.
    G,
    /// `feFuncB`.
    B,
    /// `feFuncA`.
    A,
}

/// An `feComponentTransfer` primitive with a transfer function of type `F`
/// per channel.
#[derive(Clone, Debug)]
pub struct FeComponentTransfer<F> {
    pub input: FilterInput,
    pub func_r: F,
    pub func_g: F,
    pub func_b: F,
    pub func_a: F,
}

/// The transfer function that the children `funcs` give `channel`: the
/// last one for that channel, or `identity` when there is none.
pub open spec fn channel_function<F>(funcs: Seq<(ComponentChannel, Option<F>)>, channel: ComponentChannel, identity: F) -> F
    decreases funcs.len(),
{
    if funcs.len() == 0 {
        identity
    } else if funcs.last().0 == channel && funcs.last().1 is Some {
        funcs.last().1->0
    } else {
        channel_function(funcs.drop_last(), channel, identity)
    }
}

proof fn lemma_channel_function_step<F>(
    funcs: Seq<(ComponentChannel, Option<F>)>,
    i: int,
    channel: ComponentChannel,
    identity: F,
)
    requires
        0 <= i < funcs.len(),
    ensures
        channel_function(funcs.take(i + 1), channel, identity) == (if funcs[i].0 == channel && funcs[i].1 is Some {
            funcs[i].1->0
        } else {
            channel_function(funcs.take(i), channel, identity)
        }),
{
    assert(funcs.take(i + 1).drop_last() =~= funcs.take(i));
    assert(funcs.take(i + 1).last() == funcs[i]);
}

/// Converts an `feComponentTransfer` element from its `in` attribute and,
/// for each child transfer function element in order, its channel and its
/// converted function (`None` when its `type` is missing or unknown). A
/// later function of a channel replaces an earlier one; a channel without
/// one keeps `identity`.
pub fn convert_fe_component_transfer<F: Copy>(
    in1: Option<&str>,
    results: &Vec<String>,
    funcs: &Vec<(ComponentChannel, Option<F>)>,
    identity: F,
) -> (r: FeComponentTransfer<F>)
    ensures
        r.input@ == spec_resolve_input(opt_str_view(in1), views(results@)),
        r.func_r == channel_function(funcs@, ComponentChannel::R, identity),
        r.func_g == channel_function(funcs@, ComponentChannel::G, identity),
        r.func_b == channel_function(funcs@, ComponentChannel::B, identity),
        r.func_a == channel_function(funcs@, ComponentChannel::A, identity),
{
    let mut func_r = identity;
    let mut func_g = identity;
    let mut func_b = identity;
    let mut func_a = identity;
    let mut i: usize = 0;
    while i < funcs.len()
        invariant
            i <= funcs@.len(),
            func_r == channel_function(funcs@.take(i as int), ComponentChannel::R, identity),
            func_g == channel_function(funcs@.take(i as int), ComponentChannel::G, identity),
            func_b == channel_function(funcs@.take(i as int), ComponentChannel::B, identity),
            func_a == channel_function(funcs@.take(i as int), ComponentChannel::A, identity),
        decreases funcs.len() - i,
    {
        proof {
            lemma_channel_function_step(funcs@, i as int, ComponentChannel::R, identity);
            lemma_channel_function_step(funcs@, i as int, ComponentChannel::G, identity);
            lemma_channel_function_step(funcs@, i as int, ComponentChannel::B, identity);
            lemma_channel_function_step(funcs@, i as int, ComponentChannel::A, identity);
        }
        let (channel, func) = funcs[i];
        if let Some(f) = func {
            match channel {
                ComponentChannel::R => func_r = f,
                ComponentChannel::G => func_g = f,
                ComponentChannel::B => func_b = f,
                ComponentChannel::A => func_a = f,
            }
        }
        i = i + 1;
    }
    proof {
        assert(funcs@.take(funcs@.len() as int) =~= funcs@);
    }
    FeComponentTransfer { input: resolve_input(in1, results), func_r, func_g, func_b, func_a }
}

/// Finds, along the `xlink:href` chain of a filter, the first element with
/// children, which holds the filter's primitives. The chain must be made of
/// filters up to that element (`kind_matches`); a reference to another kind
/// of element, or a chain without children, gives `None`.
pub fn find_filter_with_children(chain: &[HrefLink]) -> (r: Option<usize>)
    ensures
        is_first_with_children(chain@, r),
{
    find_link_with_children(chain)
}

} // verus!
