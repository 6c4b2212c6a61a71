//! Font and text properties read from a text element and its ancestors.

use vstd::prelude::*;
use crate::filter_input::opt_str_view;
use crate::primitives::is_word;
use crate::text::str_eq;

verus! {

fn attr_is(attr: Option<&str>, word: &str) -> (r: bool)
    ensures
        r == is_word(opt_str_view(attr), word@),
{
    match attr {
        Some(s) => str_eq(s, word),
        None => false,
    }
}

/// A font style.
#[derive(Clone, Copy, PartialEq, Eq, Debug, Structural)]
pub enum FontStyle {
    Normal,
    Italic,
    Oblique,
}

/// Reads `font-style` from the nearest element that has it (`attr`);
/// `normal` otherwise.
pub fn conv_font_style(attr: Option<&str>) -> (r: FontStyle)
    ensures
        r == (if is_word(opt_str_view(attr), "italic"@) {
            FontStyle::Italic
        } else if is_word(opt_str_view(attr), "oblique"@) {
            FontStyle::Oblique
        } else {
            FontStyle::Normal
        }),
{
    if attr_is(attr, "italic") {
        FontStyle::Italic
    } else if attr_is(attr, "oblique") {
        FontStyle::Oblique
    } else {
        FontStyle::Normal
    }
}

/// A font stretch.
#[derive(Clone, Copy, PartialEq, Eq, Debug, Structural)]
pub enum FontStretch {
    UltraCondensed,
    ExtraCondensed,
    Condensed,
    SemiCondensed,
    Normal,
    SemiExpanded,
    Expanded,
    ExtraExpanded,
    UltraExpanded,
}

/// The stretch that a `font-stretch` value denotes.
pub open spec fn spec_font_stretch(attr: Option<Seq<char>>) -> FontStretch {
    if is_word(attr, "narrower"@) || is_word(attr, "condensed"@) {
        FontStretch::Condensed
    } else if is_word(attr, "ultra-condensed"@) {
        FontStretch::UltraCondensed
    } else if is_word(attr, "extra-condensed"@) {
        FontStretch::ExtraCondensed
    } else if is_word(attr, "semi-condensed"@) {
        FontStretch::SemiCondensed
    } else if is_word(attr, "semi-expanded"@) {
        FontStretch::SemiExpanded
    } else if is_word(attr, "wider"@) || is_word(attr, "expanded"@) {
        FontStretch::Expanded
    } else if is_word(attr, "extra-expanded"@) {
        FontStretch::ExtraExpanded
    } else if is_word(attr, "ultra-expanded"@) {
        FontStretch::UltraExpanded
    } else {
        FontStretch::Normal
    }
}

/// Reads `font-stretch` from the nearest element that has it (`attr`);
/// `normal` otherwise. `narrower` and `wider` count as `condensed` and
/// `expanded`.
pub fn conv_font_stretch(attr: Option<&str>) -> (r: FontStretch)
    ensures
        r == spec_font_stretch(opt_str_view(attr)),
{
    if attr_is(attr, "narrower") || attr_is(attr, "condensed") {
        FontStretch::Condensed
    } else if attr_is(attr, "ultra-condensed") {
        FontStretch::UltraCondensed
    } else if attr_is(attr, "extra-condensed") {
        FontStretch::ExtraCondensed
    } else if attr_is(attr, "semi-condensed") {
        FontStretch::SemiCondensed
    } else if attr_is(attr, "semi-expanded") {
        FontStretch::SemiExpanded
    } else if attr_is(attr, "wider") || attr_is(attr, "expanded") {
        FontStretch::Expanded
    } else if attr_is(attr, "extra-expanded") {
        FontStretch::ExtraExpanded
    } else if attr_is(attr, "ultra-expanded") {
        FontStretch::UltraExpanded
    } else {
        FontStretch::Normal
    }
}

/// A text anchor.
#[derive(Clone, Copy, PartialEq, Eq, Debug, Structural)]
pub enum TextAnchor {
    Start,
    Middle,
    End,
}

/// Reads `text-anchor` from the nearest element that has it (`attr`);
/// `start` otherwise.
pub fn conv_text_anchor(attr: Option<&str>) -> (r: TextAnchor)
    ensures
        r == (if is_word(opt_str_view(attr), "middle"@) {
            TextAnchor::Middle
        } else if is_word(opt_str_view(attr), "end"@) {
            TextAnchor::End
        } else {
            TextAnchor::Start
        }),
{
    if attr_is(attr, "middle") {
        TextAnchor::Middle
    } else if attr_is(attr, "end") {
        TextAnchor::End
    } else {
        TextAnchor::Start
    }
}

/// `v` limited to `100..=900`.
pub open spec fn weight_bound(v: int) -> int {
    if v < 100 {
        100
    } else if v > 900 {
        900
    } else {
        v
    }
}

/// The weight after an element with the `font-weight` value `attr`, given
/// the weight of its parent.
pub open spec fn next_weight(weight: int, attr: Option<Seq<char>>) -> int {
    if is_word(attr, "normal"@) {
        400
    } else if is_word(attr, "bold"@) {
        700
    } else if is_word(attr, "100"@) {
        100
    } else if is_word(attr, "200"@) {
        200
    } else if is_word(attr, "300"@) {
        300
    } else if is_word(attr, "400"@) {
        400
    } else if is_word(attr, "500"@) {
        500
    } else if is_word(attr, "600"@) {
        600
    } else if is_word(attr, "700"@) {
        700
    } else if is_word(attr, "800"@) {
        800
    } else if is_word(attr, "900"@) {
        900
    } else if is_word(attr, "bolder"@) {
        weight_bound(weight + if weight == 400 { 300int } else { 100int })
    } else if is_word(attr, "lighter"@) {
        weight_bound(weight - if weight == 400 { 200int } else { 100int })
    } else {
        weight
    }
}

/// The weight after the elements with the `font-weight` values `values`,
/// outermost first, starting from 400.
pub open spec fn weight_after(values: Seq<Option<Seq<char>>>) -> int
    decreases values.len(),
{
    if values.len() == 0 {
        400
    } else {
        next_weight(weight_after(values.drop_last()), values.last())
    }
}

/// The views of optional string slices.
pub open spec fn opt_views(values: Seq<Option<&str>>) -> Seq<Option<Seq<char>>> {
    values.map_values(|v: Option<&str>| opt_str_view(v))
}

/// Resolves `font-weight` from the values on the element and its
/// ancestors, outermost first (the document root left out): keywords and
/// numbers set the weight, `bolder` and `lighter` move it from the weight
/// of the parent (by 300 and 200 from 400, by 100 otherwise) within
/// `100..=900`, and anything else keeps it.
pub fn resolve_font_weight(values: &[Option<&str>]) -> (r: u32)
    ensures
        r == weight_after(opt_views(values@)),
        100 <= r <= 900,
{
    let mut weight: u32 = 400;
    let mut i: usize = 0;
    while i < values.len()
        invariant
            i <= values@.len(),
            weight == weight_after(opt_views(values@.take(i as int))),
            100 <= weight <= 900,
        decreases values.len() - i,
    {
        let v = values[i];
        proof {
            let s = opt_views(values@.take(i + 1));
            assert(s.drop_last() =~= opt_views(values@.take(i as int)));
            assert(s.last() == opt_str_view(values@[i as int]));
        }
        weight = if attr_is(v, "normal") {
            400
        } else if attr_is(v, "bold") {
            700
        } else if attr_is(v, "100") {
            100
        } else if attr_is(v, "200") {
            200
        } else if attr_is(v, "300") {
            300
        } else if attr_is(v, "400") {
            400
        } else if attr_is(v, "500") {
            500
        } else if attr_is(v, "600") {
            600
        } else if attr_is(v, "700") {
            700
        } else if attr_is(v, "800") {
            800
        } else if attr_is(v, "900") {
            900
        } else if attr_is(v, "bolder") {
            let step: u32 = if weight == 400 { 300 } else { 100 };
            let w = weight + step;
            if w > 900 { 900 } else { w }
        } else if attr_is(v, "lighter") {
            let step: u32 = if weight == 400 { 200 } else { 100 };
            let w = weight - step;
            if w < 100 { 100 } else { w }
        } else {
            weight
        };
        i = i + 1;
    }
    proof {
        assert(values@.take(values@.len() as int) =~= values@);
    }
    weight
}

/// Which text decorations apply.
#[derive(Clone, Copy, PartialEq, Eq, Debug, Structural)]
pub struct TextDecorationTypes {
    pub has_underline: bool,
    pub has_overline: bool,
    pub has_line_through: bool,
}

/// One of `values` is `word`.
pub open spec fn some_value_is(values: Seq<Option<Seq<char>>>, word: Seq<char>) -> bool {
    exists|i: int| 0 <= i < values.len() && #[trigger] values[i] == Some(word)
}

fn any_value_is(values: &[Option<&str>], word: &str) -> (r: bool)
    ensures
        r == some_value_is(opt_views(values@), word@),
{
    let mut i: usize = 0;
    while i < values.len()
        invariant
            i <= values@.len(),
            forall|j: int| 0 <= j < i ==> #[trigger] opt_views(values@)[j] != Some(word@),
        decreases values.len() - i,
    {
        if attr_is(values[i], word) {
            assert(opt_views(values@)[i as int] == Some(word@));
            return true;
        }
        i = i + 1;
    }
    false
}

/// Resolves the decorations of a `text` element from the
/// `text-decoration` values of the element and its ancestors: each one
/// applies when one of them names it.
pub fn conv_text_decoration(values: &[Option<&str>]) -> (r: TextDecorationTypes)
    ensures
        r.has_underline == some_value_is(opt_views(values@), "underline"@),
        r.has_overline == some_value_is(opt_views(values@), "overline"@),
        r.has_line_through == some_value_is(opt_views(values@), "line-through"@),
{
    TextDecorationTypes {
        has_underline: any_value_is(values, "underline"),
        has_overline: any_value_is(values, "overline"),
        has_line_through: any_value_is(values, "line-through"),
    }
}

/// Resolves the decoration a `tspan` sets itself from its own
/// `text-decoration` value.
pub fn conv_text_decoration2(attr: Option<&str>) -> (r: TextDecorationTypes)
    ensures
        r.has_underline == is_word(opt_str_view(attr), "underline"@),
        r.has_overline == is_word(opt_str_view(attr), "overline"@),
        r.has_line_through == is_word(opt_str_view(attr), "line-through"@),
{
    TextDecorationTypes {
        has_underline: attr_is(attr, "underline"),
        has_overline: attr_is(attr, "overline"),
        has_line_through: attr_is(attr, "line-through"),
    }
}

/// The element whose fill and stroke paint a decoration.
#[derive(Clone, Copy, PartialEq, Eq, Debug, Structural)]
pub enum DecorationSource {
    Tspan,
    Text,
}

/// Picks the element whose style paints a decoration: the `tspan` when it
/// sets the decoration itself, else the `text` when the decoration applies
/// to it, else none.
pub fn decoration_source(in_tspan: bool, in_text: bool) -> (r: Option<DecorationSource>)
    ensures
        r == (if in_tspan {
            Some(DecorationSource::Tspan)
        } else if in_text {
            Some(DecorationSource::Text)
        } else {
            None
        }),
{
    if in_tspan {
        Some(DecorationSource::Tspan)
    } else if in_text {
        Some(DecorationSource::Text)
    } else {
        None
    }
}

/// The total number of characters of `texts`.
pub open spec fn total_chars(texts: Seq<&str>) -> int
    decreases texts.len(),
{
    if texts.len() == 0 {
        0
    } else {
        total_chars(texts.drop_last()) + texts.last()@.len()
    }
}

proof fn lemma_total_chars_grows(texts: Seq<&str>, i: int)
    requires
        0 <= i <= texts.len(),
    ensures
        total_chars(texts.take(i)) <= total_chars(texts),
    decreases texts.len() - i,
{
    if i < texts.len() {
        lemma_total_chars_grows(texts, i + 1);
        assert(texts.take(i + 1).drop_last() =~= texts.take(i));
    } else {
        assert(texts.take(i) =~= texts);
    }
}

/// Counts the characters of the text nodes below a text element.
pub fn count_chars(texts: &[&str]) -> (r: usize)
    requires
        total_chars(texts@) <= usize::MAX,
    ensures
        r == total_chars(texts@),
{
    let mut total: usize = 0;
    let mut i: usize = 0;
    while i < texts.len()
        invariant
            i <= texts@.len(),
            total == total_chars(texts@.take(i as int)),
            total_chars(texts@) <= usize::MAX,
        decreases texts.len() - i,
    {
        proof {
            assert(texts@.take(i + 1).drop_last() =~= texts@.take(i as int));
            assert(texts@.take(i + 1).last() == texts@[i as int]);
            lemma_total_chars_grows(texts@, i + 1);
        }
        total = total + texts[i].unicode_len();
        i = i + 1;
    }
    proof {
        assert(texts@.take(texts@.len() as int) =~= texts@);
    }
    total
}

/// The direction text is laid out in.
#[derive(Clone, Copy, PartialEq, Eq, Debug, Structural)]
pub enum WritingMode {
    LeftToRight,
    TopToBottom,
}

/// The writing mode that a `writing-mode` value selects.
pub open spec fn spec_writing_mode(attr: Option<Seq<char>>) -> WritingMode {
    if is_word(attr, "tb"@) || is_word(attr, "tb-rl"@) {
        WritingMode::TopToBottom
    } else {
        WritingMode::LeftToRight
    }
}

/// Reads `writing-mode` from the nearest element that has it (`attr`):
/// `tb` and `tb-rl` lay text out top to bottom, anything else (the
/// right-to-left modes included) or nothing left to right.
pub fn convert_writing_mode(attr: Option<&str>) -> (r: WritingMode)
    ensures
        r == spec_writing_mode(opt_str_view(attr)),
{
    if attr_is(attr, "tb") || attr_is(attr, "tb-rl") {
        WritingMode::TopToBottom
    } else {
        WritingMode::LeftToRight
    }
}

/// The `dominant-baseline` property.
#[derive(Clone, Copy, PartialEq, Eq, Debug, Structural)]
pub enum DominantBaseline {
    Auto,
    UseScript,
    NoChange,
    ResetSize,
    Ideographic,
    Alphabetic,
    Hanging,
    Mathematical,
    Central,
    Middle,
    TextAfterEdge,
    TextBeforeEdge,
}

/// The `alignment-baseline` property.
#[derive(Clone, Copy, PartialEq, Eq, Debug, Structural)]
pub enum AlignmentBaseline {
    Auto,
    Baseline,
    BeforeEdge,
    TextBeforeEdge,
    Middle,
    Central,
    AfterEdge,
    TextAfterEdge,
    Ideographic,
    Alphabetic,
    Hanging,
    Mathematical,
}

/// The font metric that a baseline is shifted by, for a font size.
#[derive(Clone, Copy, PartialEq, Eq, Debug, Structural)]
pub enum BaselineMetric {
    /// No shift.
    Zero,
    /// The ascent.
    Ascent,
    /// Half the x-height.
    HalfXHeight,
    /// The ascent less half the height.
    Central,
    /// The descent.
    Descent,
    /// Eight tenths of the ascent.
    HangingAscent,
    /// Half the ascent.
    HalfAscent,
}

/// The alignment that a dominant baseline stands for; the values that are
/// not supported, or already resolved, stand for `auto`.
pub open spec fn spec_dominant_alignment(b: DominantBaseline) -> AlignmentBaseline {
    match b {
        DominantBaseline::Auto | DominantBaseline::UseScript | DominantBaseline::NoChange
        | DominantBaseline::ResetSize => AlignmentBaseline::Auto,
        DominantBaseline::Ideographic => AlignmentBaseline::Ideographic,
        DominantBaseline::Alphabetic => AlignmentBaseline::Alphabetic,
        DominantBaseline::Hanging => AlignmentBaseline::Hanging,
        DominantBaseline::Mathematical => AlignmentBaseline::Mathematical,
        DominantBaseline::Central => AlignmentBaseline::Central,
        DominantBaseline::Middle => AlignmentBaseline::Middle,
        DominantBaseline::TextAfterEdge => AlignmentBaseline::TextAfterEdge,
        DominantBaseline::TextBeforeEdge => AlignmentBaseline::TextBeforeEdge,
    }
}

/// Maps a dominant baseline to the alignment whose shift it takes.
pub fn dominant_alignment(b: DominantBaseline) -> (r: AlignmentBaseline)
    ensures
        r == spec_dominant_alignment(b),
{
    match b {
        DominantBaseline::Auto | DominantBaseline::UseScript | DominantBaseline::NoChange
        | DominantBaseline::ResetSize => AlignmentBaseline::Auto,
        DominantBaseline::Ideographic => AlignmentBaseline::Ideographic,
        DominantBaseline::Alphabetic => AlignmentBaseline::Alphabetic,
        DominantBaseline::Hanging => AlignmentBaseline::Hanging,
        DominantBaseline::Mathematical => AlignmentBaseline::Mathematical,
        DominantBaseline::Central => AlignmentBaseline::Central,
        DominantBaseline::Middle => AlignmentBaseline::Middle,
        DominantBaseline::TextAfterEdge => AlignmentBaseline::TextAfterEdge,
        DominantBaseline::TextBeforeEdge => AlignmentBaseline::TextBeforeEdge,
    }
}

/// The keyword that names a `dominant-baseline` value.
pub open spec fn dominant_baseline_keyword(b: DominantBaseline) -> Seq<char> {
    match b {
        DominantBaseline::Auto => "auto"@,
        DominantBaseline::UseScript => "use-script"@,
        DominantBaseline::NoChange => "no-change"@,
        DominantBaseline::ResetSize => "reset-size"@,
        DominantBaseline::Ideographic => "ideographic"@,
        DominantBaseline::Alphabetic => "alphabetic"@,
        DominantBaseline::Hanging => "hanging"@,
        DominantBaseline::Mathematical => "mathematical"@,
        DominantBaseline::Central => "central"@,
        DominantBaseline::Middle => "middle"@,
        DominantBaseline::TextAfterEdge => "text-after-edge"@,
        DominantBaseline::TextBeforeEdge => "text-before-edge"@,
    }
}

/// The keyword that names an `alignment-baseline` value.
pub open spec fn alignment_baseline_keyword(a: AlignmentBaseline) -> Seq<char> {
    match a {
        AlignmentBaseline::Auto => "auto"@,
        AlignmentBaseline::Baseline => "baseline"@,
        AlignmentBaseline::BeforeEdge => "before-edge"@,
        AlignmentBaseline::TextBeforeEdge => "text-before-edge"@,
        AlignmentBaseline::Middle => "middle"@,
        AlignmentBaseline::Central => "central"@,
        AlignmentBaseline::AfterEdge => "after-edge"@,
        AlignmentBaseline::TextAfterEdge => "text-after-edge"@,
        AlignmentBaseline::Ideographic => "ideographic"@,
        AlignmentBaseline::Alphabetic => "alphabetic"@,
        AlignmentBaseline::Hanging => "hanging"@,
        AlignmentBaseline::Mathematical => "mathematical"@,
    }
}

/// A dominant baseline stands for the alignment baseline of the same name;
/// the values that are unsupported or already resolved (`auto`,
/// `use-script`, `no-change`, `reset-size`) stand for `auto`.
pub proof fn lemma_dominant_alignment_keeps_name(b: DominantBaseline)
    ensures
        b == DominantBaseline::Auto || b == DominantBaseline::UseScript || b == DominantBaseline::NoChange || b
            == DominantBaseline::ResetSize ==> spec_dominant_alignment(b) == AlignmentBaseline::Auto,
        !(b == DominantBaseline::Auto || b == DominantBaseline::UseScript || b == DominantBaseline::NoChange
            || b == DominantBaseline::ResetSize) ==> alignment_baseline_keyword(spec_dominant_alignment(b))
            == dominant_baseline_keyword(b),
{
}

/// In horizontal text whose `alignment-baseline` is `auto` or `baseline`,
/// the baseline moves as the `dominant-baseline` of the same name as an
/// alignment would move it; vertical text is not shifted.
pub proof fn lemma_dominant_baseline_shifts_like_alignment(
    alignment: AlignmentBaseline,
    dominant: DominantBaseline,
    named: AlignmentBaseline,
    mode: WritingMode,
)
    requires
        alignment == AlignmentBaseline::Auto || alignment == AlignmentBaseline::Baseline,
        !(dominant == DominantBaseline::Auto || dominant == DominantBaseline::UseScript || dominant
            == DominantBaseline::NoChange || dominant == DominantBaseline::ResetSize),
        named == spec_dominant_alignment(dominant),
    ensures
        alignment_baseline_keyword(named) == dominant_baseline_keyword(dominant),
        mode == WritingMode::LeftToRight ==> spec_baseline_metric(alignment, dominant, mode)
            == spec_alignment_metric(named),
        mode == WritingMode::TopToBottom ==> spec_baseline_metric(alignment, dominant, mode)
            == BaselineMetric::Zero,
{
}

/// The metric that an alignment shifts the baseline by, with the hardcoded
/// values that browsers use in place of the font's baseline tables.
pub open spec fn spec_alignment_metric(a: AlignmentBaseline) -> BaselineMetric {
    match a {
        AlignmentBaseline::Auto | AlignmentBaseline::Baseline | AlignmentBaseline::Alphabetic => BaselineMetric::Zero,
        AlignmentBaseline::BeforeEdge | AlignmentBaseline::TextBeforeEdge => BaselineMetric::Ascent,
        AlignmentBaseline::Middle => BaselineMetric::HalfXHeight,
        AlignmentBaseline::Central => BaselineMetric::Central,
        AlignmentBaseline::AfterEdge | AlignmentBaseline::TextAfterEdge | AlignmentBaseline::Ideographic => BaselineMetric::Descent,
        AlignmentBaseline::Hanging => BaselineMetric::HangingAscent,
        AlignmentBaseline::Mathematical => BaselineMetric::HalfAscent,
    }
}

/// Picks the metric that an alignment shifts the baseline by.
pub fn alignment_metric(a: AlignmentBaseline) -> (r: BaselineMetric)
    ensures
        r == spec_alignment_metric(a),
{
    match a {
        AlignmentBaseline::Auto | AlignmentBaseline::Baseline | AlignmentBaseline::Alphabetic => BaselineMetric::Zero,
        AlignmentBaseline::BeforeEdge | AlignmentBaseline::TextBeforeEdge => BaselineMetric::Ascent,
        AlignmentBaseline::Middle => BaselineMetric::HalfXHeight,
        AlignmentBaseline::Central => BaselineMetric::Central,
        AlignmentBaseline::AfterEdge | AlignmentBaseline::TextAfterEdge | AlignmentBaseline::Ideographic => BaselineMetric::Descent,
        AlignmentBaseline::Hanging => BaselineMetric::HangingAscent,
        AlignmentBaseline::Mathematical => BaselineMetric::HalfAscent,
    }
}

/// The metric that a span's baseline is shifted by, on top of its
/// `baseline-shift`: none in vertical text, else that of its
/// `alignment-baseline`, or of its `dominant-baseline` when the alignment is
/// `auto` or `baseline`.
pub open spec fn spec_baseline_metric(
    alignment: AlignmentBaseline,
    dominant: DominantBaseline,
    mode: WritingMode,
) -> BaselineMetric {
    if mode != WritingMode::LeftToRight {
        BaselineMetric::Zero
    } else if alignment == AlignmentBaseline::Auto || alignment == AlignmentBaseline::Baseline {
        spec_alignment_metric(spec_dominant_alignment(dominant))
    } else {
        spec_alignment_metric(alignment)
    }
}

/// Picks the metric that a span's baseline is shifted by.
pub fn resolve_baseline(alignment: AlignmentBaseline, dominant: DominantBaseline, mode: WritingMode) -> (r:
    BaselineMetric)
    ensures
        r == spec_baseline_metric(alignment, dominant, mode),
{
    if mode != WritingMode::LeftToRight {
        BaselineMetric::Zero
    } else if alignment == AlignmentBaseline::Auto || alignment == AlignmentBaseline::Baseline {
        alignment_metric(dominant_alignment(dominant))
    } else {
        alignment_metric(alignment)
    }
}

/// The character data `parts`, one after the other.
pub open spec fn concat_texts(parts: Seq<&str>) -> Seq<char>
    decreases parts.len(),
{
    if parts.len() == 0 {
        Seq::empty()
    } else {
        concat_texts(parts.drop_last()) + parts.last()@
    }
}

/// The text that a `tref` element is replaced with: all the character data
/// inside the element it references (`parts`, its text nodes in document
/// order), markup left aside.
pub fn tref_text(parts: &[&str]) -> (r: String)
    ensures
        r@ == concat_texts(parts@),
{
    let mut out = String::new();
    let mut i: usize = 0;
    while i < parts.len()
        invariant
            i <= parts@.len(),
            out@ == concat_texts(parts@.take(i as int)),
        decreases parts.len() - i,
    {
        proof {
            assert(parts@.take(i + 1).drop_last() =~= parts@.take(i as int));
            assert(parts@.take(i + 1).last() == parts@[i as int]);
        }
        out.append(parts[i]);
        i = i + 1;
    }
    proof {
        assert(parts@.take(parts@.len() as int) =~= parts@);
    }
    out
}

} // verus!
