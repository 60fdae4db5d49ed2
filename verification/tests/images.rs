use mdr::images::{
    classify_payload, data_uri, decode_data_uri, foreign_source, frame_data_uri, image_source,
    mime_for_extension, DataUriError, ImagePayload, ImageSource,
};

#[test]
fn image_sources() {
    assert_eq!(image_source("data:image/png;base64,AAAA"), ImageSource::DataUri);
    assert_eq!(image_source("http://x/y.png"), ImageSource::Remote);
    assert_eq!(image_source("https://x/y.png"), ImageSource::Remote);
    assert_eq!(image_source("logo.svg"), ImageSource::LocalFile);
    assert_eq!(image_source("/abs/http://x.png"), ImageSource::LocalFile);
    assert_eq!(image_source("HTTP://x/y.png"), ImageSource::LocalFile);
    assert_eq!(image_source(""), ImageSource::LocalFile);
}

#[test]
fn foreign_sources_are_left_alone() {
    assert!(foreign_source("https://example.com/image.svg"));
    assert!(foreign_source("http://example.com/a"));
    assert!(foreign_source("data:image/png;base64,AA=="));
    assert!(foreign_source("file:///tmp/a.png"));
    assert!(!foreign_source("test.svg"));
    assert!(!foreign_source("file:/tmp/a.png"));
}

#[test]
fn media_types() {
    assert_eq!(mime_for_extension("png"), "image/png");
    assert_eq!(mime_for_extension("JPG"), "image/jpeg");
    assert_eq!(mime_for_extension("jpeg"), "image/jpeg");
    assert_eq!(mime_for_extension("Gif"), "image/gif");
    assert_eq!(mime_for_extension("webp"), "image/webp");
    assert_eq!(mime_for_extension("svg"), "image/svg+xml");
    assert_eq!(mime_for_extension("bmp"), "image/bmp");
    assert_eq!(mime_for_extension("ico"), "image/x-icon");
    assert_eq!(mime_for_extension("tiff"), "application/octet-stream");
    assert_eq!(mime_for_extension(""), "application/octet-stream");
}

#[test]
fn data_uri_encodes_the_bytes() {
    assert_eq!(
        data_uri("image/png", &b"hello world~\n".to_vec()),
        Some("data:image/png;base64,aGVsbG8gd29ybGR+Cg==".to_string())
    );
    assert_eq!(data_uri("x/y", &Vec::new()), Some("data:x/y;base64,".to_string()));
    assert_eq!(frame_data_uri("a", "b"), "data:a;base64,b");
}

#[test]
fn data_uri_with_raster_data() {
    assert_eq!(
        decode_data_uri("data:image/png;base64,aGVsbG8gd29ybGR+Cg=="),
        Ok(ImagePayload::Raster(b"hello world~\n".to_vec()))
    );
    assert_eq!(decode_data_uri(",/w=="), Ok(ImagePayload::Raster(vec![0xff])));
    assert_eq!(decode_data_uri("x,"), Ok(ImagePayload::Raster(vec![])));
}

#[test]
fn data_uri_with_vector_data() {
    let svg = r#"<svg xmlns="http://www.w3.org/2000/svg" width="50" height="50"><circle cx="25" cy="25" r="20" fill="blue"/></svg>"#;
    let uri = data_uri("image/svg+xml", &svg.as_bytes().to_vec()).unwrap();
    assert_eq!(decode_data_uri(&uri), Ok(ImagePayload::Svg(svg.to_string())));
}

#[test]
fn data_uri_errors() {
    assert_eq!(decode_data_uri("data:image/png;base64"), Err(DataUriError::MissingComma));
    assert_eq!(decode_data_uri(""), Err(DataUriError::MissingComma));
    assert_eq!(decode_data_uri("data:image/png;base64,@@@"), Err(DataUriError::InvalidBase64));
    assert_eq!(decode_data_uri("data:image/png;base64,aGVsbG8,AAAA"), Err(DataUriError::InvalidBase64));
    assert_eq!(decode_data_uri("data:image/svg+xml;base64,/w=="), Err(DataUriError::InvalidUtf8));
}

#[test]
fn payload_goes_by_the_header() {
    assert_eq!(
        classify_payload("data:image/svg+xml;base64", "é".as_bytes().to_vec()),
        Ok(ImagePayload::Svg("é".to_string()))
    );
    assert_eq!(
        classify_payload("data:image/SVG", vec![0xff, 0x00]),
        Ok(ImagePayload::Raster(vec![0xff, 0x00]))
    );
    assert_eq!(classify_payload("image/svg", vec![0xc3]), Err(DataUriError::InvalidUtf8));
}
