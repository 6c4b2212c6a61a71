use usvg_core::inherit::{inherit_source, resolve_color, ColorAttribute, ColorValue};
use usvg_core::tree::Color;

#[test]
fn inherited_values() {
    // Inheritable: the nearest ancestor with the attribute.
    assert_eq!(inherit_source(true, &[false, false, true, true]), Some(2));
    assert_eq!(inherit_source(true, &[true]), Some(0));
    assert_eq!(inherit_source(true, &[false, false]), None);
    assert_eq!(inherit_source(true, &[]), None);
    // Not inheritable: only the parent counts.
    assert_eq!(inherit_source(false, &[false, true]), None);
    assert_eq!(inherit_source(false, &[true, true]), Some(0));
    assert_eq!(inherit_source(false, &[]), None);
}

#[test]
fn current_colors() {
    let red = Color::new_rgb(255, 0, 0);
    let blue = Color::new_rgb(0, 0, 255);
    let colors = [None, Some(ColorValue::Color(red)), Some(ColorValue::Color(blue))];
    assert_eq!(resolve_color(&colors, ColorAttribute::Fill), Some(red));
    assert_eq!(resolve_color(&colors, ColorAttribute::Other), Some(red));
    assert_eq!(resolve_color(&[Some(ColorValue::Color(blue))], ColorAttribute::Stroke), Some(blue));
    assert_eq!(resolve_color(&[None, Some(ColorValue::NotAColor)], ColorAttribute::Fill), None);
    for aid in [
        ColorAttribute::Fill,
        ColorAttribute::Stroke,
        ColorAttribute::FloodColor,
        ColorAttribute::StopColor,
        ColorAttribute::LightingColor,
    ] {
        assert_eq!(resolve_color(&[None, None], aid), Some(Color::black()));
    }
    assert_eq!(resolve_color(&[], ColorAttribute::Other), None);
}
