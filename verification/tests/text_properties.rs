use usvg_core::text_chunks::{collect_text_chunks, SpanPiece};
use usvg_core::text_positions::{resolve_positions_list, resolve_rotate_list, TextEvent};
use usvg_core::text_style::{
    conv_font_stretch, conv_font_style, conv_text_anchor, conv_text_decoration,
    conv_text_decoration2, count_chars, decoration_source, resolve_font_weight, DecorationSource,
    FontStretch, FontStyle, TextAnchor, TextDecorationTypes, convert_writing_mode, WritingMode,
    alignment_metric, dominant_alignment, resolve_baseline, AlignmentBaseline, BaselineMetric,
    DominantBaseline, tref_text,
};

#[test]
fn font_styles_and_anchors() {
    assert_eq!(conv_font_style(None), FontStyle::Normal);
    assert_eq!(conv_font_style(Some("italic")), FontStyle::Italic);
    assert_eq!(conv_font_style(Some("oblique")), FontStyle::Oblique);
    assert_eq!(conv_font_style(Some("inherit")), FontStyle::Normal);
    assert_eq!(conv_text_anchor(None), TextAnchor::Start);
    assert_eq!(conv_text_anchor(Some("middle")), TextAnchor::Middle);
    assert_eq!(conv_text_anchor(Some("end")), TextAnchor::End);
    assert_eq!(conv_text_anchor(Some("start")), TextAnchor::Start);
}

#[test]
fn font_stretches() {
    assert_eq!(conv_font_stretch(None), FontStretch::Normal);
    assert_eq!(conv_font_stretch(Some("narrower")), FontStretch::Condensed);
    assert_eq!(conv_font_stretch(Some("condensed")), FontStretch::Condensed);
    assert_eq!(conv_font_stretch(Some("ultra-condensed")), FontStretch::UltraCondensed);
    assert_eq!(conv_font_stretch(Some("extra-condensed")), FontStretch::ExtraCondensed);
    assert_eq!(conv_font_stretch(Some("semi-condensed")), FontStretch::SemiCondensed);
    assert_eq!(conv_font_stretch(Some("semi-expanded")), FontStretch::SemiExpanded);
    assert_eq!(conv_font_stretch(Some("wider")), FontStretch::Expanded);
    assert_eq!(conv_font_stretch(Some("expanded")), FontStretch::Expanded);
    assert_eq!(conv_font_stretch(Some("extra-expanded")), FontStretch::ExtraExpanded);
    assert_eq!(conv_font_stretch(Some("ultra-expanded")), FontStretch::UltraExpanded);
    assert_eq!(conv_font_stretch(Some("normal")), FontStretch::Normal);
}

#[test]
fn font_weights() {
    assert_eq!(resolve_font_weight(&[]), 400);
    assert_eq!(resolve_font_weight(&[Some("bold")]), 700);
    assert_eq!(resolve_font_weight(&[Some("bold"), None]), 700);
    assert_eq!(resolve_font_weight(&[Some("300"), Some("normal")]), 400);
    // `bolder` from 400 gives 700, from anything else one step more.
    assert_eq!(resolve_font_weight(&[Some("bolder")]), 700);
    assert_eq!(resolve_font_weight(&[Some("bolder"), Some("bolder")]), 800);
    assert_eq!(resolve_font_weight(&[Some("900"), Some("bolder")]), 900);
    // `lighter` from 400 gives 200, from anything else one step less.
    assert_eq!(resolve_font_weight(&[Some("lighter")]), 200);
    assert_eq!(resolve_font_weight(&[Some("lighter"), Some("lighter")]), 100);
    assert_eq!(resolve_font_weight(&[Some("100"), Some("lighter")]), 100);
    assert_eq!(resolve_font_weight(&[Some("650")]), 400);
}

#[test]
fn decorations() {
    let d = conv_text_decoration(&[None, Some("underline"), Some("line-through")]);
    assert_eq!(d, TextDecorationTypes { has_underline: true, has_overline: false, has_line_through: true });
    let d = conv_text_decoration2(Some("overline"));
    assert_eq!(d, TextDecorationTypes { has_underline: false, has_overline: true, has_line_through: false });
    let d = conv_text_decoration2(None);
    assert_eq!(d, TextDecorationTypes { has_underline: false, has_overline: false, has_line_through: false });
    assert_eq!(decoration_source(true, true), Some(DecorationSource::Tspan));
    assert_eq!(decoration_source(false, true), Some(DecorationSource::Text));
    assert_eq!(decoration_source(false, false), None);
}

#[test]
fn character_counts() {
    assert_eq!(count_chars(&[]), 0);
    assert_eq!(count_chars(&["ab", "", "\u{0439}\u{0306}c"]), 5);
}

#[test]
fn writing_modes() {
    assert_eq!(convert_writing_mode(None), WritingMode::LeftToRight);
    assert_eq!(convert_writing_mode(Some("lr-tb")), WritingMode::LeftToRight);
    assert_eq!(convert_writing_mode(Some("tb")), WritingMode::TopToBottom);
    assert_eq!(convert_writing_mode(Some("tb-rl")), WritingMode::TopToBottom);
    assert_eq!(convert_writing_mode(Some("rl")), WritingMode::LeftToRight);
    assert_eq!(convert_writing_mode(Some("TB")), WritingMode::LeftToRight);
}

#[test]
fn baseline_metrics() {
    assert_eq!(dominant_alignment(DominantBaseline::UseScript), AlignmentBaseline::Auto);
    assert_eq!(dominant_alignment(DominantBaseline::Hanging), AlignmentBaseline::Hanging);
    assert_eq!(dominant_alignment(DominantBaseline::TextBeforeEdge), AlignmentBaseline::TextBeforeEdge);
    assert_eq!(alignment_metric(AlignmentBaseline::Baseline), BaselineMetric::Zero);
    assert_eq!(alignment_metric(AlignmentBaseline::BeforeEdge), BaselineMetric::Ascent);
    assert_eq!(alignment_metric(AlignmentBaseline::Middle), BaselineMetric::HalfXHeight);
    assert_eq!(alignment_metric(AlignmentBaseline::Central), BaselineMetric::Central);
    assert_eq!(alignment_metric(AlignmentBaseline::Ideographic), BaselineMetric::Descent);
    assert_eq!(alignment_metric(AlignmentBaseline::Hanging), BaselineMetric::HangingAscent);
    assert_eq!(alignment_metric(AlignmentBaseline::Mathematical), BaselineMetric::HalfAscent);
    let ltr = WritingMode::LeftToRight;
    assert_eq!(
        resolve_baseline(AlignmentBaseline::Auto, DominantBaseline::Middle, ltr),
        BaselineMetric::HalfXHeight
    );
    assert_eq!(
        resolve_baseline(AlignmentBaseline::Baseline, DominantBaseline::Hanging, ltr),
        BaselineMetric::HangingAscent
    );
    assert_eq!(
        resolve_baseline(AlignmentBaseline::AfterEdge, DominantBaseline::Hanging, ltr),
        BaselineMetric::Descent
    );
    assert_eq!(
        resolve_baseline(AlignmentBaseline::AfterEdge, DominantBaseline::Hanging, WritingMode::TopToBottom),
        BaselineMetric::Zero
    );
}

#[test]
fn tref_character_data() {
    assert_eq!(tref_text(&[]), "");
    assert_eq!(tref_text(&["Hello", ", ", "", "wörld"]), "Hello, wörld");
}

fn el(chars: usize, values: Option<Vec<i32>>) -> TextEvent<i32> {
    TextEvent::Element { chars, values }
}

fn txt(chars: usize) -> TextEvent<i32> {
    TextEvent::Text { chars }
}

#[test]
fn position_lists_are_clamped_to_their_tspan() {
    // <text>a<tspan x="10 20 30">bc</tspan>d</text>
    let ev = [el(4, None), txt(1), el(2, Some(vec![10, 20, 30])), txt(2), txt(1)];
    assert_eq!(resolve_positions_list(&ev), vec![None, Some(10), Some(20), None]);
}

#[test]
fn inner_position_lists_override_outer_ones() {
    // <text><tspan x="100 110 120 130">a<tspan x="50">bc</tspan></tspan>d</text>
    let ev = [
        el(4, None),
        el(3, Some(vec![100, 110, 120, 130])),
        txt(1),
        el(2, Some(vec![50])),
        txt(2),
        txt(1),
    ];
    assert_eq!(resolve_positions_list(&ev), vec![Some(100), Some(50), Some(120), None]);
    assert_eq!(resolve_positions_list::<i32>(&[]), vec![]);
}

#[test]
fn rotation_lists_repeat_their_last_value() {
    assert_eq!(resolve_rotate_list(&[el(3, Some(vec![10])), txt(3)], 0), vec![10, 10, 10]);
    assert_eq!(resolve_rotate_list(&[el(2, None), txt(2)], 0), vec![0, 0]);
    // <text rotate="1 2">ab<tspan rotate="">cd</tspan>e</text>
    let empty_inner = [el(5, Some(vec![1, 2])), txt(2), el(2, Some(vec![])), txt(2), txt(1)];
    assert_eq!(resolve_rotate_list(&empty_inner, 0), vec![1, 2, 2, 2, 2]);
    let inner = [el(5, Some(vec![1, 2])), txt(2), el(2, Some(vec![7])), txt(2), txt(1)];
    assert_eq!(resolve_rotate_list(&inner, 0), vec![1, 2, 7, 7, 2]);
    // A later list that is empty repeats the last value given anywhere before.
    let later = [el(3, None), el(1, Some(vec![5])), txt(1), el(2, Some(vec![])), txt(2)];
    assert_eq!(resolve_rotate_list(&later, 0), vec![5, 5, 5]);
}

fn piece(start: usize, end: usize, node: usize) -> SpanPiece {
    SpanPiece { start, end, node }
}

#[test]
fn text_chunks_and_spans() {
    assert!(collect_text_chunks(&[], &[]).is_empty());
    // Nodes "ab", "cd", an unusable "xx" and "e"; "a" and "d" have
    // absolute positions.
    let nodes = [("ab", true), ("cd", true), ("xx", false), ("e", true)];
    let absolute = [true, false, false, true, false, false, false];
    let chunks = collect_text_chunks(&nodes, &absolute);
    assert_eq!(chunks.len(), 2);
    assert_eq!((chunks[0].first_char, chunks[0].text.as_str()), (0, "abc"));
    assert_eq!(chunks[0].spans, vec![piece(0, 2, 0), piece(2, 3, 1)]);
    assert_eq!((chunks[1].first_char, chunks[1].text.as_str()), (3, "de"));
    assert_eq!(chunks[1].spans, vec![piece(0, 1, 1), piece(1, 2, 3)]);
}

#[test]
fn text_chunks_count_bytes_and_skipped_characters() {
    // The first usable character starts a chunk even without a position;
    // skipped nodes still move the character index.
    let nodes = [("zz", false), ("é", true), ("ü!", true)];
    let absolute = [false, false, false, false, true];
    let chunks = collect_text_chunks(&nodes, &absolute);
    assert_eq!(chunks.len(), 2);
    assert_eq!((chunks[0].first_char, chunks[0].text.as_str()), (2, "éü"));
    assert_eq!(chunks[0].spans, vec![piece(0, 2, 1), piece(2, 4, 2)]);
    assert_eq!((chunks[1].first_char, chunks[1].text.as_str()), (4, "!"));
    assert_eq!(chunks[1].spans, vec![piece(0, 1, 2)]);
}
