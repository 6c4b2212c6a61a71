use usvg_core::convolve::EdgeMode;
use usvg_core::filter_input::{input_name, parse_in, resolve_input, FilterInput};
use usvg_core::primitives::{
    blend_mode, color_channel, composite_operator, convert_fe_blend, convert_fe_composite,
    convert_fe_displacement_map, convert_fe_merge, convert_fe_tile, convert_lighting_color,
    convolve_order, convolve_target, edge_mode, kernel_values, morphology_operator,
    preserve_alpha, stitch_tiles, transfer_function_kind, turbulence_kind, ColorChannel,
    FeBlendMode, FeCompositeOperator, FeMorphologyOperator, FeTurbulenceKind, LightingColorValue,
    TransferFunctionKind, convert_fe_flood, create_dummy_primitive, convert_fe_component_transfer,
    ComponentChannel, find_filter_with_children,
};
use usvg_core::href::HrefLink;
use usvg_core::filter_input::{filter_background_start_node, filters_use_input, has_input, input_eq};
use usvg_core::tree::Color;

fn strings(v: &[&str]) -> Vec<String> {
    v.iter().map(|s| s.to_string()).collect()
}

fn reference(input: &FilterInput) -> Option<&str> {
    match input {
        FilterInput::Reference(s) => Some(s.as_str()),
        _ => None,
    }
}

#[test]
fn input_keywords() {
    assert!(matches!(parse_in("SourceGraphic"), FilterInput::SourceGraphic));
    assert!(matches!(parse_in("SourceAlpha"), FilterInput::SourceAlpha));
    assert!(matches!(parse_in("BackgroundImage"), FilterInput::BackgroundImage));
    assert!(matches!(parse_in("BackgroundAlpha"), FilterInput::BackgroundAlpha));
    assert!(matches!(parse_in("FillPaint"), FilterInput::FillPaint));
    assert!(matches!(parse_in("StrokePaint"), FilterInput::StrokePaint));
    assert_eq!(reference(&parse_in("sourceGraphic")), Some("sourceGraphic"));
    assert_eq!(reference(&parse_in("blur1")), Some("blur1"));
}

#[test]
fn input_names_read_back() {
    for name in ["SourceGraphic", "SourceAlpha", "BackgroundImage", "BackgroundAlpha", "FillPaint", "StrokePaint", "r1"] {
        assert_eq!(input_name(&parse_in(name)), name);
    }
}

#[test]
fn inputs_fall_back_to_previous_result() {
    let none: Vec<String> = Vec::new();
    assert!(matches!(resolve_input(None, &none), FilterInput::SourceGraphic));
    assert!(matches!(resolve_input(Some("missing"), &none), FilterInput::SourceGraphic));
    assert!(matches!(resolve_input(Some("SourceAlpha"), &none), FilterInput::SourceAlpha));
    let results = strings(&["a", "b"]);
    assert_eq!(reference(&resolve_input(None, &results)), Some("b"));
    assert_eq!(reference(&resolve_input(Some("a"), &results)), Some("a"));
    assert_eq!(reference(&resolve_input(Some("c"), &results)), Some("b"));
    assert!(matches!(resolve_input(Some("FillPaint"), &results), FilterInput::FillPaint));
}

#[test]
fn blend_modes() {
    assert_eq!(blend_mode(None), FeBlendMode::Normal);
    assert_eq!(blend_mode(Some("normal")), FeBlendMode::Normal);
    assert_eq!(blend_mode(Some("multiply")), FeBlendMode::Multiply);
    assert_eq!(blend_mode(Some("screen")), FeBlendMode::Screen);
    assert_eq!(blend_mode(Some("darken")), FeBlendMode::Darken);
    assert_eq!(blend_mode(Some("lighten")), FeBlendMode::Lighten);
    assert_eq!(blend_mode(Some("overlay")), FeBlendMode::Normal);
    let results = strings(&["r1"]);
    let fe = convert_fe_blend(Some("screen"), Some("SourceAlpha"), None, &results);
    assert_eq!(fe.mode, FeBlendMode::Screen);
    assert!(matches!(fe.input1, FilterInput::SourceAlpha));
    assert_eq!(reference(&fe.input2), Some("r1"));
}

#[test]
fn composite_operators() {
    let k = (1, 2, 3, 4);
    assert!(matches!(composite_operator(None, k), FeCompositeOperator::Over));
    assert!(matches!(composite_operator(Some("in"), k), FeCompositeOperator::In));
    assert!(matches!(composite_operator(Some("out"), k), FeCompositeOperator::Out));
    assert!(matches!(composite_operator(Some("atop"), k), FeCompositeOperator::Atop));
    assert!(matches!(composite_operator(Some("xor"), k), FeCompositeOperator::Xor));
    assert!(matches!(composite_operator(Some("lighter"), k), FeCompositeOperator::Over));
    assert!(matches!(
        composite_operator(Some("arithmetic"), k),
        FeCompositeOperator::Arithmetic { k1: 1, k2: 2, k3: 3, k4: 4 }
    ));
    let fe = convert_fe_composite(Some("xor"), (0.5f64, 0.0, 0.0, 0.0), Some("BackgroundImage"), Some("x"), &Vec::new());
    assert!(matches!(fe.operator, FeCompositeOperator::Xor));
    assert!(matches!(fe.input1, FilterInput::BackgroundImage));
    assert!(matches!(fe.input2, FilterInput::SourceGraphic));
}

#[test]
fn convolve_keywords() {
    assert_eq!(edge_mode(None), EdgeMode::Duplicate);
    assert_eq!(edge_mode(Some("duplicate")), EdgeMode::Duplicate);
    assert_eq!(edge_mode(Some("none")), EdgeMode::Zero);
    assert_eq!(edge_mode(Some("wrap")), EdgeMode::Wrap);
    assert_eq!(edge_mode(Some("Wrap")), EdgeMode::Duplicate);
    assert!(preserve_alpha(Some("true")));
    assert!(!preserve_alpha(Some("false")));
    assert!(!preserve_alpha(Some("TRUE")));
    assert!(!preserve_alpha(None));
}

#[test]
fn convolve_orders() {
    assert_eq!(convolve_order(None, None), (3, 3));
    assert_eq!(convolve_order(Some(5), None), (5, 5));
    assert_eq!(convolve_order(Some(2), Some(4)), (2, 4));
    assert_eq!(convolve_order(Some(0), Some(4)), (3, 3));
    assert_eq!(convolve_order(Some(4), Some(-1)), (3, 3));
    assert_eq!(convolve_order(Some(-2), None), (3, 3));
}

#[test]
fn convolve_kernels() {
    assert_eq!(kernel_values(Some(vec![1, 2, 3, 4]), 2, 2), vec![1, 2, 3, 4]);
    assert_eq!(kernel_values(Some(vec![1, 2, 3]), 2, 2), Vec::<i32>::new());
    assert_eq!(kernel_values(None::<Vec<i32>>, 3, 3), Vec::<i32>::new());
}

#[test]
fn convolve_targets() {
    assert_eq!(convolve_target(None, 1, 3), Some(1));
    assert_eq!(convolve_target(Some(2), 1, 3), Some(2));
    assert_eq!(convolve_target(Some(3), 1, 3), None);
    assert_eq!(convolve_target(Some(-1), 1, 3), None);
    assert_eq!(convolve_target(None, 0, 1), Some(0));
    assert_eq!(convolve_target(Some(5), 0, 4_000_000_000), None);
}

#[test]
fn other_primitive_keywords() {
    assert_eq!(morphology_operator(None), FeMorphologyOperator::Erode);
    assert_eq!(morphology_operator(Some("dilate")), FeMorphologyOperator::Dilate);
    assert_eq!(morphology_operator(Some("erode")), FeMorphologyOperator::Erode);
    assert_eq!(color_channel(None), ColorChannel::A);
    assert_eq!(color_channel(Some("R")), ColorChannel::R);
    assert_eq!(color_channel(Some("G")), ColorChannel::G);
    assert_eq!(color_channel(Some("B")), ColorChannel::B);
    assert_eq!(color_channel(Some("r")), ColorChannel::A);
    assert_eq!(turbulence_kind(None), FeTurbulenceKind::Turbulence);
    assert_eq!(turbulence_kind(Some("fractalNoise")), FeTurbulenceKind::FractalNoise);
    assert!(stitch_tiles(Some("stitch")));
    assert!(!stitch_tiles(Some("noStitch")));
    assert!(!stitch_tiles(None));
    assert_eq!(transfer_function_kind(Some("identity")), Some(TransferFunctionKind::Identity));
    assert_eq!(transfer_function_kind(Some("table")), Some(TransferFunctionKind::Table));
    assert_eq!(transfer_function_kind(Some("discrete")), Some(TransferFunctionKind::Discrete));
    assert_eq!(transfer_function_kind(Some("linear")), Some(TransferFunctionKind::Linear));
    assert_eq!(transfer_function_kind(Some("gamma")), Some(TransferFunctionKind::Gamma));
    assert_eq!(transfer_function_kind(Some("Gamma")), None);
    assert_eq!(transfer_function_kind(None), None);
}

#[test]
fn tile_merge_and_displacement_inputs() {
    let results = strings(&["r1", "r2"]);
    assert_eq!(reference(&convert_fe_tile(None, &results)), Some("r2"));
    let nodes = vec![Some("r1".to_string()), None, Some("SourceGraphic".to_string()), Some("zz".to_string())];
    let inputs = convert_fe_merge(&nodes, &results);
    assert_eq!(inputs.len(), 4);
    assert_eq!(reference(&inputs[0]), Some("r1"));
    assert_eq!(reference(&inputs[1]), Some("r2"));
    assert!(matches!(inputs[2], FilterInput::SourceGraphic));
    assert_eq!(reference(&inputs[3]), Some("r2"));
    let fe = convert_fe_displacement_map(Some("r1"), Some("StrokePaint"), 10, Some("R"), None, &results);
    assert_eq!(reference(&fe.input1), Some("r1"));
    assert!(matches!(fe.input2, FilterInput::StrokePaint));
    assert_eq!(fe.scale, 10);
    assert_eq!(fe.x_channel_selector, ColorChannel::R);
    assert_eq!(fe.y_channel_selector, ColorChannel::A);
}

#[test]
fn lighting_colors() {
    let red = Color::new_rgb(255, 0, 0);
    let blue = Color::new_rgb(0, 0, 255);
    assert_eq!(convert_lighting_color(None, Some(red)), Color::white());
    assert_eq!(convert_lighting_color(Some(LightingColorValue::Other), Some(red)), Color::white());
    assert_eq!(convert_lighting_color(Some(LightingColorValue::Color(blue)), Some(red)), blue);
    assert_eq!(convert_lighting_color(Some(LightingColorValue::CurrentColor), Some(red)), red);
    assert_eq!(convert_lighting_color(Some(LightingColorValue::CurrentColor), None), Color::black());
}

#[test]
fn floods() {
    let f = convert_fe_flood(None, 0.5f64);
    assert_eq!(f.color, Color::black());
    assert_eq!(f.opacity, 0.5);
    let red = Color::new_rgb(255, 0, 0);
    assert_eq!(convert_fe_flood(Some(red), 1.0f64).color, red);
    let dummy = create_dummy_primitive(0.0f64);
    assert_eq!(dummy.color, Color::black());
    assert_eq!(dummy.opacity, 0.0);
}

#[test]
fn component_transfer_channels() {
    let funcs = vec![
        (ComponentChannel::R, Some(1)),
        (ComponentChannel::A, None),
        (ComponentChannel::G, Some(2)),
        (ComponentChannel::R, Some(3)),
        (ComponentChannel::B, None),
    ];
    let fe = convert_fe_component_transfer(Some("SourceAlpha"), &Vec::new(), &funcs, 0);
    assert!(matches!(fe.input, FilterInput::SourceAlpha));
    assert_eq!((fe.func_r, fe.func_g, fe.func_b, fe.func_a), (3, 2, 0, 0));
    let none = convert_fe_component_transfer(None, &strings(&["r"]), &Vec::new(), 7);
    assert_eq!(reference(&none.input), Some("r"));
    assert_eq!((none.func_r, none.func_g, none.func_b, none.func_a), (7, 7, 7, 7));
}

#[test]
fn filter_href_chains() {
    let f = |c| HrefLink { kind_matches: true, has_children: c };
    let other = HrefLink { kind_matches: false, has_children: true };
    assert_eq!(find_filter_with_children(&[f(true)]), Some(0));
    assert_eq!(find_filter_with_children(&[f(false), f(false), f(true), f(true)]), Some(2));
    assert_eq!(find_filter_with_children(&[f(false), other, f(true)]), None);
    assert_eq!(find_filter_with_children(&[f(false), f(false)]), None);
    assert_eq!(find_filter_with_children(&[]), None);
}

#[test]
fn primitive_inputs_are_found() {
    let r = |n: &str| FilterInput::Reference(n.to_string());
    assert!(input_eq(&r("a"), &r("a")));
    assert!(!input_eq(&r("a"), &r("b")));
    assert!(!input_eq(&FilterInput::FillPaint, &FilterInput::StrokePaint));
    assert!(!input_eq(&r("FillPaint"), &FilterInput::FillPaint));
    let blend = vec![FilterInput::SourceGraphic, FilterInput::FillPaint];
    assert!(has_input(&blend, &FilterInput::FillPaint));
    assert!(!has_input(&blend, &FilterInput::StrokePaint));
    assert!(!has_input(&[], &FilterInput::SourceGraphic));
    let first = vec![vec![FilterInput::SourceAlpha], vec![r("x")]];
    let second = vec![vec![], vec![FilterInput::StrokePaint, r("y")]];
    let filters = vec![first, second];
    assert!(filters_use_input(&filters, &FilterInput::StrokePaint));
    assert!(!filters_use_input(&filters, &FilterInput::FillPaint));
    assert!(filters_use_input(&filters, &r("y")));
    assert!(!filters_use_input(&[], &FilterInput::StrokePaint));
}

#[test]
fn background_start_node() {
    let bg = vec![vec![FilterInput::SourceGraphic], vec![FilterInput::BackgroundAlpha]];
    let plain = vec![vec![FilterInput::SourceGraphic]];
    // The node itself comes first and is skipped.
    assert_eq!(filter_background_start_node(&bg, &[true, false, true, true]), Some(2));
    assert_eq!(filter_background_start_node(&bg, &[true, false]), None);
    assert_eq!(filter_background_start_node(&bg, &[]), None);
    assert_eq!(filter_background_start_node(&plain, &[false, true]), None);
    let image = vec![vec![FilterInput::BackgroundImage]];
    assert_eq!(filter_background_start_node(&image, &[false, true]), Some(1));
}
