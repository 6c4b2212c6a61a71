use usvg_core::image::{
    classify_data_url, get_image_data_format, get_image_file_format, image_data_href,
    load_data_url, ImageFormat,
};

const PNG_HEAD: [u8; 8] = [0x89, 0x50, 0x4e, 0x47, 0x0d, 0x0a, 0x1a, 0x0a];

#[test]
fn magic_bytes() {
    assert_eq!(get_image_data_format(&PNG_HEAD), Some(ImageFormat::PNG));
    assert_eq!(get_image_data_format(&[0xff, 0xd8, 0xff, 0xe0]), Some(ImageFormat::JPEG));
    assert_eq!(get_image_data_format(&[0xff, 0xd8]), None);
    assert_eq!(get_image_data_format(b"<svg/>"), None);
    assert_eq!(get_image_data_format(&[]), None);
}

#[test]
fn file_formats() {
    assert_eq!(get_image_file_format(Some("svg"), &[]), Some(ImageFormat::SVG));
    assert_eq!(get_image_file_format(Some("SVGZ"), &[]), Some(ImageFormat::SVG));
    assert_eq!(get_image_file_format(Some("Svg"), b"x"), Some(ImageFormat::SVG));
    assert_eq!(get_image_file_format(Some("png"), &PNG_HEAD), Some(ImageFormat::PNG));
    assert_eq!(get_image_file_format(Some("jpg"), &[0xff, 0xd8, 0xff, 0, 0, 0, 0, 0]), Some(ImageFormat::JPEG));
    // Fewer than eight bytes are never sniffed.
    assert_eq!(get_image_file_format(Some("jpg"), &[0xff, 0xd8, 0xff, 0]), None);
    assert_eq!(get_image_file_format(None, &PNG_HEAD), None);
    assert_eq!(get_image_file_format(Some("gif"), b"GIF89a\0\0"), None);
}

#[test]
fn data_url_kinds() {
    let body = Some(b"abc".to_vec());
    let jpeg = classify_data_url("image", "jpeg", body.clone()).unwrap();
    assert_eq!((jpeg.format, jpeg.data), (ImageFormat::JPEG, b"abc".to_vec()));
    assert_eq!(classify_data_url("image", "jpg", body.clone()).unwrap().format, ImageFormat::JPEG);
    assert_eq!(classify_data_url("image", "png", body.clone()).unwrap().format, ImageFormat::PNG);
    assert_eq!(classify_data_url("image", "svg+xml", body.clone()).unwrap().format, ImageFormat::SVG);
    assert!(classify_data_url("image", "gif", body.clone()).is_none());
    assert!(classify_data_url("image", "png", None).is_none());
    assert_eq!(classify_data_url("text", "plain", body.clone()).unwrap().format, ImageFormat::SVG);
    assert_eq!(
        classify_data_url("text", "plain", Some(PNG_HEAD.to_vec())).unwrap().format,
        ImageFormat::PNG
    );
    assert!(classify_data_url("text", "html", body).is_none());
}

#[test]
fn data_urls_through_the_parser() {
    assert!(load_data_url("image.png").is_none());
    let png = load_data_url("data:image/png;base64,iVBORw0KGgo=").unwrap().unwrap();
    assert_eq!(png.format, ImageFormat::PNG);
    assert_eq!(png.data, PNG_HEAD.to_vec());
    let svg = load_data_url("data:image/svg+xml,%3Csvg%2F%3E").unwrap().unwrap();
    assert_eq!(svg.format, ImageFormat::SVG);
    assert_eq!(svg.data, b"<svg/>".to_vec());
    let text = load_data_url("data:,Hello").unwrap().unwrap();
    assert_eq!(text.format, ImageFormat::SVG);
    assert_eq!(text.data, b"Hello".to_vec());
    assert!(load_data_url("data:image/gif;base64,R0lG").unwrap().is_none());
}

#[test]
fn embedded_image_hrefs() {
    assert_eq!(image_data_href(ImageFormat::PNG, b"Man"), "data:image/png;base64, TWFu");
    assert_eq!(image_data_href(ImageFormat::JPEG, b"M"), "data:image/jpg;base64, TQ==");
    assert_eq!(image_data_href(ImageFormat::SVG, b"Ma"), "data:image/svg+xml;base64, TWE=");
    assert_eq!(image_data_href(ImageFormat::PNG, b""), "data:image/png;base64, ");
}

#[test]
fn embedded_image_reads_back() {
    let href = image_data_href(ImageFormat::PNG, &PNG_HEAD);
    let back = load_data_url(&href).unwrap().unwrap();
    assert_eq!(back.format, ImageFormat::PNG);
    assert_eq!(back.data, PNG_HEAD.to_vec());
}
