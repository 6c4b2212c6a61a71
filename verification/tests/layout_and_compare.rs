use usvg_core::compare::{compare_imgs, compare_pixels, gen_diff, is_pix_diff, is_svg};
use usvg_core::filters::{RGB8, RGBA8};
use usvg_core::text_layout::{
    char_from, chunk_span_at, code_point_at, glyph_clusters, span_contains, GlyphClusters,
    SpanRange, collect_decoration_spans, ClusterMark,
};

#[test]
fn byte_positions_to_characters() {
    let text = "a\u{00e9}\u{4e2d}\u{1f600}b";
    for (i, (byte, c)) in text.char_indices().enumerate() {
        assert_eq!(code_point_at(text, byte), i);
        assert_eq!(char_from(text, byte), c);
    }
    // Inside a character, or past the end: all characters come before.
    assert_eq!(code_point_at(text, 2), 5);
    assert_eq!(code_point_at(text, text.len()), 5);
    assert_eq!(code_point_at("", 0), 0);
}

#[test]
fn code_point_matches_char_indices() {
    let text = "x\u{0431}\u{0439}\u{0306}y";
    for byte in 0..=text.len() + 1 {
        let expected = text.char_indices().take_while(|(i, _)| *i != byte).count();
        assert_eq!(code_point_at(text, byte), expected);
    }
}

#[test]
fn spans_at_positions() {
    let spans = [
        SpanRange { start: 0, end: 3 },
        SpanRange { start: 3, end: 5 },
        SpanRange { start: 2, end: 8 },
    ];
    assert!(span_contains(&spans[0], 0));
    assert!(!span_contains(&spans[0], 3));
    assert_eq!(chunk_span_at(&spans, 0), Some(0));
    assert_eq!(chunk_span_at(&spans, 2), Some(0));
    assert_eq!(chunk_span_at(&spans, 3), Some(1));
    assert_eq!(chunk_span_at(&spans, 6), Some(2));
    assert_eq!(chunk_span_at(&spans, 8), None);
    assert_eq!(chunk_span_at(&[], 0), None);
}

#[test]
fn glyph_clusters_group_equal_positions() {
    // Input:  0 2 2 2 3 4 4 5 5
    // Result: 0 1     4 5   7
    let glyphs = [0, 2, 2, 2, 3, 4, 4, 5, 5];
    let mut it = GlyphClusters::new(&glyphs);
    assert_eq!(it.next(), Some((0, 1, 0)));
    assert_eq!(it.next(), Some((1, 4, 2)));
    assert_eq!(it.next(), Some((4, 5, 3)));
    assert_eq!(it.next(), Some((5, 7, 4)));
    assert_eq!(it.next(), Some((7, 9, 5)));
    assert_eq!(it.next(), None);
    assert_eq!(it.next(), None);
    assert_eq!(
        glyph_clusters(&glyphs),
        vec![(0, 1, 0), (1, 4, 2), (4, 5, 3), (5, 7, 4), (7, 9, 5)]
    );
    assert_eq!(glyph_clusters(&[]), vec![]);
    // Right-to-left text repeats positions in decreasing order.
    assert_eq!(glyph_clusters(&[6, 6, 3, 0, 0]), vec![(0, 2, 6), (2, 3, 3), (3, 5, 0)]);
}

fn px(r: u8, g: u8, b: u8, a: u8) -> RGBA8 {
    RGBA8 { r, g, b, a }
}

const RED: RGB8 = RGB8 { r: 255, g: 0, b: 0 };
const WHITE: RGB8 = RGB8 { r: 255, g: 255, b: 255 };

#[test]
fn image_comparison() {
    let a = [px(1, 2, 3, 4), px(0, 0, 0, 0), px(9, 9, 9, 9)];
    let b = [px(1, 2, 3, 4), px(0, 0, 1, 0), px(9, 9, 9, 7)];
    let (count, diff) = compare_pixels(&a, &b);
    assert_eq!(count, 2);
    assert_eq!(diff, vec![WHITE, RED, RED]);
    assert_eq!(compare_imgs(&a, (3, 1), &b, (3, 1)), Ok((2, vec![WHITE, RED, RED])));
    assert_eq!(compare_imgs(&a, (3, 1), &b, (1, 3)), Err(((3, 1), (1, 3))));
    assert_eq!(compare_imgs(&[], (0, 5), &[], (0, 5)), Ok((0, vec![])));
}

#[test]
fn rounding_tolerant_difference() {
    assert!(!is_pix_diff(px(10, 10, 10, 10), px(11, 9, 10, 11)));
    assert!(is_pix_diff(px(10, 10, 10, 10), px(12, 10, 10, 10)));
    assert!(is_pix_diff(px(0, 0, 0, 255), px(0, 0, 0, 0)));
    let diff = gen_diff(&[px(1, 1, 1, 1), px(0, 0, 0, 0)], &[px(2, 2, 2, 2), px(0, 3, 0, 0)]);
    assert_eq!(diff, vec![WHITE, RED]);
}

#[test]
fn regression_files() {
    assert!(is_svg(false, None));
    assert!(is_svg(true, Some("svg")));
    assert!(is_svg(true, Some("svgz")));
    assert!(!is_svg(true, Some("png")));
    assert!(!is_svg(true, Some("SVG")));
    assert!(!is_svg(true, None));
}

#[test]
fn decoration_pieces() {
    let m = |in_span, has_relative_shift| ClusterMark { in_span, has_relative_shift };
    assert_eq!(collect_decoration_spans(&[]), vec![]);
    assert_eq!(collect_decoration_spans(&[m(false, false), m(false, true)]), vec![]);
    assert_eq!(collect_decoration_spans(&[m(true, false), m(true, false), m(true, false)]), vec![(0, 3)]);
    // A cluster moved on its own starts a new piece; one outside the span
    // ends the current one.
    let marks = [
        m(false, false),
        m(true, true),
        m(true, false),
        m(true, true),
        m(false, false),
        m(true, false),
        m(true, false),
    ];
    assert_eq!(collect_decoration_spans(&marks), vec![(1, 3), (3, 4), (5, 7)]);
}
