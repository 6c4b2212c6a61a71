use usvg_core::tree::{
    resolve_rendering_mode, BlendMode, Color, FillRule, ImageRendering, LineCap, LineJoin,
    MaskType, PaintOrder, ShapeRendering, SpreadMethod, TextRendering, Visibility,
};
use usvg_core::export::{
    blend_mode_attribute, fill_rule_attribute, func_iri, id_attribute, linecap_attribute,
    linejoin_attribute, shape_rendering_attribute, spread_method_attribute, units_attribute,
    visibility_attribute,
};
use usvg_core::tree::{IsDefault, Units, svg_paint_order_to_usvg, GroupIsolation, PaintOrderKind};
use usvg_core::export::{aspect_ratio_attribute, has_xlink, Align, AspectRatio, XlinkNode};

#[test]
fn shape_antialiasing() {
    assert!(!ShapeRendering::OptimizeSpeed.use_shape_antialiasing());
    assert!(!ShapeRendering::CrispEdges.use_shape_antialiasing());
    assert!(ShapeRendering::GeometricPrecision.use_shape_antialiasing());
}

#[test]
fn rendering_keywords_parse() {
    assert_eq!(ShapeRendering::from_str("optimizeSpeed"), Ok(ShapeRendering::OptimizeSpeed));
    assert_eq!(ShapeRendering::from_str("crispEdges"), Ok(ShapeRendering::CrispEdges));
    assert_eq!(
        ShapeRendering::from_str("geometricPrecision"),
        Ok(ShapeRendering::GeometricPrecision)
    );
    assert_eq!(ShapeRendering::from_str("auto"), Err("invalid"));
    assert_eq!(TextRendering::from_str("optimizeLegibility"), Ok(TextRendering::OptimizeLegibility));
    assert_eq!(TextRendering::from_str("optimizeSpeed"), Ok(TextRendering::OptimizeSpeed));
    assert_eq!(TextRendering::from_str("geometricPrecision"), Ok(TextRendering::GeometricPrecision));
    assert_eq!(TextRendering::from_str("OptimizeSpeed"), Err("invalid"));
    assert_eq!(ImageRendering::from_str("optimizeQuality"), Ok(ImageRendering::OptimizeQuality));
    assert_eq!(ImageRendering::from_str("optimizeSpeed"), Ok(ImageRendering::OptimizeSpeed));
    assert_eq!(ImageRendering::from_str(""), Err("invalid"));
}

#[test]
fn defaults() {
    assert_eq!(Visibility::default(), Visibility::Visible);
    assert_eq!(ShapeRendering::default(), ShapeRendering::GeometricPrecision);
    assert_eq!(TextRendering::default(), TextRendering::OptimizeLegibility);
    assert_eq!(ImageRendering::default(), ImageRendering::OptimizeQuality);
    assert_eq!(BlendMode::default(), BlendMode::Normal);
    assert_eq!(SpreadMethod::default(), SpreadMethod::Pad);
    assert_eq!(LineCap::default(), LineCap::Butt);
    assert_eq!(LineJoin::default(), LineJoin::Miter);
    assert_eq!(FillRule::default(), FillRule::NonZero);
    assert_eq!(MaskType::default(), MaskType::Luminance);
    assert_eq!(PaintOrder::default(), PaintOrder::FillAndStroke);
}

#[test]
fn colors() {
    let c = Color::new_rgb(1, 2, 3);
    assert_eq!((c.red, c.green, c.blue), (1, 2, 3));
    assert_eq!(Color::black(), Color::new_rgb(0, 0, 0));
    assert_eq!(Color::white(), Color::new_rgb(255, 255, 255));
}

#[test]
fn text_rendering_to_shape_rendering() {
    assert_eq!(resolve_rendering_mode(TextRendering::OptimizeSpeed), ShapeRendering::CrispEdges);
    assert_eq!(
        resolve_rendering_mode(TextRendering::OptimizeLegibility),
        ShapeRendering::GeometricPrecision
    );
    assert_eq!(
        resolve_rendering_mode(TextRendering::GeometricPrecision),
        ShapeRendering::GeometricPrecision
    );
}

#[test]
fn written_attributes_skip_defaults() {
    assert_eq!(units_attribute(Units::UserSpaceOnUse, Units::UserSpaceOnUse), None);
    assert_eq!(
        units_attribute(Units::ObjectBoundingBox, Units::UserSpaceOnUse),
        Some("objectBoundingBox")
    );
    assert_eq!(
        units_attribute(Units::UserSpaceOnUse, Units::ObjectBoundingBox),
        Some("userSpaceOnUse")
    );
    assert_eq!(visibility_attribute(Visibility::Visible), None);
    assert_eq!(visibility_attribute(Visibility::Hidden), Some("hidden"));
    assert_eq!(visibility_attribute(Visibility::Collapse), Some("collapse"));
    assert_eq!(shape_rendering_attribute(ShapeRendering::GeometricPrecision), None);
    assert_eq!(shape_rendering_attribute(ShapeRendering::CrispEdges), Some("crispEdges"));
    assert_eq!(shape_rendering_attribute(ShapeRendering::OptimizeSpeed), Some("optimizeSpeed"));
    assert_eq!(spread_method_attribute(SpreadMethod::Pad), None);
    assert_eq!(spread_method_attribute(SpreadMethod::Reflect), Some("reflect"));
    assert_eq!(spread_method_attribute(SpreadMethod::Repeat), Some("repeat"));
    assert_eq!(linecap_attribute(LineCap::Butt), None);
    assert_eq!(linecap_attribute(LineCap::Round), Some("round"));
    assert_eq!(linecap_attribute(LineCap::Square), Some("square"));
    assert_eq!(linejoin_attribute(LineJoin::Miter), None);
    assert_eq!(linejoin_attribute(LineJoin::Round), Some("round"));
    assert_eq!(linejoin_attribute(LineJoin::Bevel), Some("bevel"));
    assert_eq!(fill_rule_attribute(FillRule::NonZero), None);
    assert_eq!(fill_rule_attribute(FillRule::EvenOdd), Some("evenodd"));
}

#[test]
fn written_shape_rendering_reads_back() {
    for mode in [
        ShapeRendering::OptimizeSpeed,
        ShapeRendering::CrispEdges,
        ShapeRendering::GeometricPrecision,
    ] {
        let read = match shape_rendering_attribute(mode) {
            Some(v) => ShapeRendering::from_str(v).unwrap(),
            None => ShapeRendering::default(),
        };
        assert_eq!(read, mode);
    }
}

#[test]
fn blend_mode_keywords() {
    assert_eq!(blend_mode_attribute(BlendMode::Normal), "normal");
    assert_eq!(blend_mode_attribute(BlendMode::ColorDodge), "color-dodge");
    assert_eq!(blend_mode_attribute(BlendMode::SoftLight), "soft-light");
    assert_eq!(blend_mode_attribute(BlendMode::Luminosity), "luminosity");
}

#[test]
fn ids_and_references() {
    assert_eq!(id_attribute(None, "g1"), "g1");
    assert_eq!(id_attribute(Some("p-"), "g1"), "p-g1");
    assert_eq!(func_iri(None, "clipPath1"), "url(#clipPath1)");
    assert_eq!(func_iri(Some("x"), "f"), "url(#xf)");
}

#[test]
fn aspect_ratio_values() {
    let def = AspectRatio::default();
    assert_eq!(aspect_ratio_attribute(def), "xMidYMid");
    assert!(def.is_default());
    let a = AspectRatio { defer: true, align: Align::XMinYMax, slice: true };
    assert_eq!(aspect_ratio_attribute(a), "defer xMinYMax slice");
    assert!(!a.is_default());
    let b = AspectRatio { defer: false, align: Align::NonUniform, slice: false };
    assert_eq!(aspect_ratio_attribute(b), "none");
    assert!(!b.is_default());
}

#[test]
fn default_checks() {
    assert!(FillRule::NonZero.is_default());
    assert!(!FillRule::EvenOdd.is_default());
    assert!(Visibility::Visible.is_default());
    assert!(!Visibility::Hidden.is_default());
    assert!(LineCap::Butt.is_default());
    assert!(!LineJoin::Bevel.is_default());
    assert!(BlendMode::Normal.is_default());
    assert!(!BlendMode::Hue.is_default());
    assert!(ShapeRendering::GeometricPrecision.is_default());
    assert!(TextRendering::OptimizeLegibility.is_default());
    assert!(!ImageRendering::OptimizeSpeed.is_default());
    assert!(SpreadMethod::Pad.is_default());
    assert!(!MaskType::Alpha.is_default());
    assert!(!PaintOrder::StrokeAndFill.is_default());
}

#[test]
fn paint_order_from_listing() {
    let (f, s, m) = (PaintOrderKind::Fill, PaintOrderKind::Stroke, PaintOrderKind::Markers);
    assert_eq!(svg_paint_order_to_usvg([f, s, m]), PaintOrder::FillAndStroke);
    assert_eq!(svg_paint_order_to_usvg([f, m, s]), PaintOrder::FillAndStroke);
    assert_eq!(svg_paint_order_to_usvg([s, f, m]), PaintOrder::StrokeAndFill);
    assert_eq!(svg_paint_order_to_usvg([s, m, f]), PaintOrder::StrokeAndFill);
    assert_eq!(svg_paint_order_to_usvg([m, s, f]), PaintOrder::StrokeAndFill);
    assert_eq!(svg_paint_order_to_usvg([m, f, s]), PaintOrder::FillAndStroke);
}

#[test]
fn group_isolation() {
    let plain = GroupIsolation {
        isolate: false,
        opaque: true,
        has_clip_path: false,
        has_mask: false,
        filter_count: 0,
        blend_mode: BlendMode::Normal,
    };
    assert!(!plain.should_isolate());
    assert!(GroupIsolation { isolate: true, ..plain }.should_isolate());
    assert!(GroupIsolation { opaque: false, ..plain }.should_isolate());
    assert!(GroupIsolation { has_clip_path: true, ..plain }.should_isolate());
    assert!(GroupIsolation { has_mask: true, ..plain }.should_isolate());
    assert!(GroupIsolation { filter_count: 2, ..plain }.should_isolate());
    assert!(GroupIsolation { blend_mode: BlendMode::Multiply, ..plain }.should_isolate());
}

#[test]
fn xlink_namespace_need() {
    assert!(!has_xlink(&[]));
    assert!(!has_xlink(&[XlinkNode::Other, XlinkNode::Filter { primitive_is_image: vec![false, false] }]));
    assert!(has_xlink(&[XlinkNode::Other, XlinkNode::Image]));
    assert!(has_xlink(&[XlinkNode::Filter { primitive_is_image: vec![false, true] }, XlinkNode::Other]));
    assert!(!has_xlink(&[XlinkNode::Filter { primitive_is_image: vec![] }]));
}
