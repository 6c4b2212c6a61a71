use usvg_core::args::{
    convert_positional, default_format, fit_to, formats, keep_named_groups, parse_dpi,
    parse_font_size, parse_indent, parse_languages, parse_length, render_positional,
    resolve_in_out, FitTo, InputFrom, OutputTo, XmlIndent,
};
use usvg_core::errors::{convert_error, Error, ErrorId};
use usvg_core::paint_server::{
    convert_element_units, convert_spread_method, find_gradient_with_stops,
    find_pattern_with_children, resolve_attr, ChainElement, ServerAttr, ServerKind,
    convert_paint, from_fallback, stops_to_color, PaintFallback, PaintValue, ServerOrColor, Stop,
};
use usvg_core::links::Paint;
use usvg_core::tree::{SpreadMethod, Units};
use usvg_core::href::HrefLink;
use usvg_core::shapes::{convert_polygon, convert_polyline, PathSegment};
use usvg_core::tree::Color;

#[test]
fn dpi_values() {
    assert_eq!(parse_dpi("96"), Ok(96));
    assert_eq!(parse_dpi("10"), Ok(10));
    assert_eq!(parse_dpi("4000"), Ok(4000));
    assert_eq!(parse_dpi("9"), Err("DPI out of bounds"));
    assert_eq!(parse_dpi("4001"), Err("DPI out of bounds"));
    assert_eq!(parse_dpi("abc"), Err("invalid number"));
    assert_eq!(parse_dpi("-96"), Err("invalid number"));
}

#[test]
fn length_values() {
    assert_eq!(parse_length("500"), Ok(500));
    assert_eq!(parse_length("0"), Err("LENGTH cannot be zero"));
    assert_eq!(parse_length("1.5"), Err("invalid length"));
}

#[test]
fn font_size_values() {
    assert_eq!(parse_font_size("12"), Ok(12));
    assert_eq!(parse_font_size("192"), Ok(192));
    assert_eq!(parse_font_size("0"), Err("font size out of bounds"));
    assert_eq!(parse_font_size("193"), Err("font size out of bounds"));
    assert_eq!(parse_font_size(""), Err("invalid number"));
}

#[test]
fn language_lists() {
    assert_eq!(parse_languages("en"), Ok(vec!["en".to_string()]));
    assert_eq!(
        parse_languages("en, ru-RU ,fr"),
        Ok(vec!["en".to_string(), "ru-RU".to_string(), "fr".to_string()])
    );
    assert_eq!(parse_languages(""), Ok(vec!["".to_string()]));
    assert_eq!(parse_languages("a,"), Ok(vec!["a".to_string(), "".to_string()]));
}

#[test]
fn indent_values() {
    assert_eq!(parse_indent("none"), Ok(XmlIndent::Disabled));
    assert_eq!(parse_indent("0"), Ok(XmlIndent::Spaces(0)));
    assert_eq!(parse_indent("4"), Ok(XmlIndent::Spaces(4)));
    assert_eq!(parse_indent("tabs"), Ok(XmlIndent::Tabs));
    assert_eq!(parse_indent("5"), Err("invalid INDENT value"));
    assert_eq!(parse_indent("Tabs"), Err("invalid INDENT value"));
}

#[test]
fn output_formats() {
    assert_eq!(default_format(), "svg");
    assert_eq!(formats(), vec!["svg", "pdf"]);
}

fn strings(v: &[&str]) -> Vec<String> {
    v.iter().map(|s| s.to_string()).collect()
}

#[test]
fn input_and_output() {
    let none = Vec::new();
    assert_eq!(resolve_in_out(&none, false), Err("no positional arguments are provided"));
    assert_eq!(resolve_in_out(&none, true), Err("no positional arguments are provided"));
    let a = strings(&["in.svg", "out.svg"]);
    assert_eq!(resolve_in_out(&a, false), Ok((InputFrom::File("in.svg"), OutputTo::File("out.svg"))));
    assert_eq!(resolve_in_out(&a, true), Ok((InputFrom::File("in.svg"), OutputTo::Stdout)));
    let b = strings(&["-"]);
    assert_eq!(resolve_in_out(&b, true), Ok((InputFrom::Stdin, OutputTo::Stdout)));
    let c = strings(&["in.svg", "-"]);
    assert_eq!(resolve_in_out(&c, false), Ok((InputFrom::Stdin, OutputTo::File("in.svg"))));
    let d = strings(&["in.svg"]);
    assert_eq!(resolve_in_out(&d, true), Ok((InputFrom::File("in.svg"), OutputTo::Stdout)));
}

#[test]
fn error_messages_and_ids() {
    assert_eq!(Error::InvalidFileSuffix.message(), "invalid file suffix");
    assert_eq!(Error::FileOpenFailed.message(), "failed to open the provided file");
    assert_eq!(Error::NotAnUtf8Str.message(), "provided data has not an UTF-8 encoding");
    assert_eq!(Error::MalformedGZip.message(), "provided data has a malformed GZip content");
    assert_eq!(Error::InvalidSize.message(), "SVG has an invalid size");
    assert_eq!(
        Error::ParsingFailed("unexpected end of stream".to_string()).message(),
        "SVG data parsing failed cause unexpected end of stream"
    );
    assert_eq!(convert_error(&Error::NotAnUtf8Str), ErrorId::NotAnUtf8Str);
    assert_eq!(convert_error(&Error::ParsingFailed(String::new())), ErrorId::ParsingFailed);
    assert_eq!(convert_error(&Error::InvalidSize).code(), 5);
    assert_eq!(ErrorId::Success.code(), 0);
    assert_eq!(ErrorId::NotAnUtf8Str.code(), 1);
    assert_eq!(ErrorId::FileOpenFailed.code(), 2);
    assert_eq!(ErrorId::InvalidFileSuffix.code(), 3);
    assert_eq!(ErrorId::MalformedGZip.code(), 4);
    assert_eq!(ErrorId::ParsingFailed.code(), 6);
}

#[test]
fn gradient_as_single_color() {
    let none: [Stop<f64>; 0] = [];
    assert!(stops_to_color(&none).is_none());
    let stops = [
        Stop { offset: 0.0, color: Color::new_rgb(1, 2, 3), opacity: 0.5 },
        Stop { offset: 1.0, color: Color::white(), opacity: 1.0 },
    ];
    match stops_to_color(&stops) {
        Some(ServerOrColor::Color { color, opacity }) => {
            assert_eq!(color, Color::new_rgb(1, 2, 3));
            assert_eq!(opacity, 0.5);
        }
        _ => panic!("expected a color"),
    }
}

#[test]
fn polyline_and_polygon_paths() {
    let pts = [(0, 0), (10, 0), (10, 5)];
    let line = convert_polyline(Some(&pts[..])).unwrap();
    assert_eq!(
        line,
        vec![
            PathSegment::MoveTo { x: 0, y: 0 },
            PathSegment::LineTo { x: 10, y: 0 },
            PathSegment::LineTo { x: 10, y: 5 },
        ]
    );
    let poly = convert_polygon(Some(&pts[..])).unwrap();
    assert_eq!(poly.len(), 4);
    assert_eq!(poly[3], PathSegment::ClosePath);
    assert_eq!(&poly[..3], &line[..]);
    assert!(convert_polyline(Some(&pts[..1])).is_none());
    assert!(convert_polygon(Some(&pts[..1])).is_none());
    assert!(convert_polyline::<i32>(None).is_none());
}

#[test]
fn renderer_sizing_and_arguments() {
    assert_eq!(fit_to::<f32>(None, None, None), FitTo::Original);
    assert_eq!(fit_to(Some(100), Some(50), Some(2.0f32)), FitTo::Width(100));
    assert_eq!(fit_to(None, Some(50), Some(2.0f32)), FitTo::Height(50));
    assert_eq!(fit_to(None, None, Some(2.0f32)), FitTo::Zoom(2.0));
    assert!(keep_named_groups(true, None));
    assert!(keep_named_groups(false, Some("g1")));
    assert!(!keep_named_groups(false, None));
    let two = strings(&["in.svg", "out.png"]);
    let one = strings(&["in.svg"]);
    assert_eq!(render_positional(&two, false), Ok(("in.svg", Some("out.png"))));
    assert_eq!(render_positional(&one, true), Ok(("in.svg", None)));
    assert_eq!(render_positional(&one, false), Err("<in-svg> and <out-png> must be set"));
    assert_eq!(render_positional(&two, true), Err("<in-svg> and <out-png> must be set"));
    assert_eq!(convert_positional(&one), Ok("in.svg"));
    assert_eq!(convert_positional(&two), Err("<in-svg>"));
    assert_eq!(convert_positional(&Vec::new()), Err("<in-svg>"));
}

fn color_of(p: &Option<Paint>) -> Option<Color> {
    match p {
        Some(Paint::Color(c)) => Some(*c),
        _ => None,
    }
}

#[test]
fn paint_fallbacks() {
    let red = Color::new_rgb(255, 0, 0);
    let blue = Color::new_rgb(0, 0, 255);
    assert!(from_fallback(None, Some(red)).is_none());
    assert!(from_fallback(Some(PaintFallback::Nothing), Some(red)).is_none());
    assert_eq!(color_of(&from_fallback(Some(PaintFallback::CurrentColor), Some(red))), Some(red));
    assert_eq!(color_of(&from_fallback(Some(PaintFallback::CurrentColor), None)), Some(Color::black()));
    assert_eq!(color_of(&from_fallback(Some(PaintFallback::Color(blue)), Some(red))), Some(blue));
}

#[test]
fn paints() {
    let red = Color::new_rgb(255, 0, 0);
    let blue = Color::new_rgb(0, 0, 255);
    let (p, o) = convert_paint::<f64>(PaintValue::CurrentColor, true, Some(red));
    assert_eq!((color_of(&p), o), (Some(red), None));
    let (p, _) = convert_paint::<f64>(PaintValue::Color(blue), true, None);
    assert_eq!(color_of(&p), Some(blue));
    let (p, _) = convert_paint::<f64>(PaintValue::NotAServer, true, None);
    assert!(p.is_none());
    let (p, _) = convert_paint::<f64>(PaintValue::Other, true, None);
    assert!(p.is_none());
    let (p, _) = convert_paint::<f64>(
        PaintValue::MissingLink { fallback: Some(PaintFallback::Color(blue)) }, true, None);
    assert_eq!(color_of(&p), Some(blue));
    let server = |units| PaintValue::Server {
        converted: Some(ServerOrColor::Server { id: "lg1".to_string(), units }),
        fallback: Some(PaintFallback::CurrentColor),
    };
    match convert_paint::<f64>(server(Units::ObjectBoundingBox), true, Some(red)).0 {
        Some(Paint::Link(id)) => assert_eq!(id, "lg1"),
        _ => panic!("expected a link"),
    }
    // Without a bounding box, a server in bounding box units falls back.
    let (p, _) = convert_paint::<f64>(server(Units::ObjectBoundingBox), false, Some(red));
    assert_eq!(color_of(&p), Some(red));
    match convert_paint::<f64>(server(Units::UserSpaceOnUse), false, Some(red)).0 {
        Some(Paint::Link(id)) => assert_eq!(id, "lg1"),
        _ => panic!("expected a link"),
    }
    let (p, o) = convert_paint(
        PaintValue::Server {
            converted: Some(ServerOrColor::Color { color: blue, opacity: 0.5 }),
            fallback: None,
        },
        true,
        None,
    );
    assert_eq!((color_of(&p), o), (Some(blue), Some(0.5)));
    let (p, o) = convert_paint::<f64>(
        PaintValue::Server { converted: None, fallback: None }, true, Some(red));
    assert!(p.is_none() && o.is_none());
}

#[test]
fn spread_methods_and_units() {
    assert_eq!(convert_spread_method(None), SpreadMethod::Pad);
    assert_eq!(convert_spread_method(Some("pad")), SpreadMethod::Pad);
    assert_eq!(convert_spread_method(Some("reflect")), SpreadMethod::Reflect);
    assert_eq!(convert_spread_method(Some("repeat")), SpreadMethod::Repeat);
    assert_eq!(convert_spread_method(Some("mirror")), SpreadMethod::Pad);
    let bbox = Units::ObjectBoundingBox;
    let user = Units::UserSpaceOnUse;
    assert_eq!(convert_element_units(None, bbox), bbox);
    assert_eq!(convert_element_units(None, user), user);
    assert_eq!(convert_element_units(Some("userSpaceOnUse"), bbox), user);
    assert_eq!(convert_element_units(Some("objectBoundingBox"), user), bbox);
    assert_eq!(convert_element_units(Some("bogus"), user), user);
}

#[test]
fn gradient_and_pattern_chains() {
    let same = |c| HrefLink { kind_matches: true, has_children: c };
    let other = HrefLink { kind_matches: false, has_children: true };
    assert_eq!(find_gradient_with_stops(&[same(false), same(true)]), Some(1));
    assert_eq!(find_gradient_with_stops(&[same(false), other]), None);
    assert_eq!(find_gradient_with_stops(&[same(false)]), None);
    assert_eq!(find_pattern_with_children(&[same(true), other]), Some(0));
    assert_eq!(find_pattern_with_children(&[other, same(true)]), None);
}

fn link(kind: Option<ServerKind>, has_attr: bool) -> ChainElement {
    ChainElement { kind, has_attr }
}

#[test]
fn attributes_along_href_chains() {
    let lg = Some(ServerKind::LinearGradient);
    let rg = Some(ServerKind::RadialGradient);
    let pat = Some(ServerKind::Pattern);
    // The element's own attribute wins.
    assert_eq!(resolve_attr(&[link(lg, true), link(lg, true)], ServerAttr::X1), 0);
    // Shared gradient attributes come from any gradient.
    assert_eq!(resolve_attr(&[link(lg, false), link(rg, false), link(lg, true)], ServerAttr::SpreadMethod), 2);
    // Coordinates only from a gradient of the same type.
    assert_eq!(resolve_attr(&[link(lg, false), link(rg, true)], ServerAttr::X1), 0);
    assert_eq!(resolve_attr(&[link(rg, false), link(lg, false), link(rg, true)], ServerAttr::Cx), 0);
    assert_eq!(resolve_attr(&[link(rg, false), link(rg, false), link(rg, true)], ServerAttr::Fy), 2);
    // A node that is not an element stops the search.
    assert_eq!(resolve_attr(&[link(pat, false), link(None, true)], ServerAttr::Other), 0);
    assert_eq!(resolve_attr(&[link(pat, false), link(pat, true)], ServerAttr::Other), 1);
    assert_eq!(resolve_attr(&[link(pat, false), link(Some(ServerKind::Filter), true)], ServerAttr::Other), 0);
    let f = Some(ServerKind::Filter);
    assert_eq!(resolve_attr(&[link(f, false), link(f, false), link(f, true)], ServerAttr::Other), 2);
    // Other elements never inherit.
    assert_eq!(resolve_attr(&[link(Some(ServerKind::Other), false), link(Some(ServerKind::Other), true)], ServerAttr::Other), 0);
}
