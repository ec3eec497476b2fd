use image_search::{choose_extension, looks_like_svg, sniff, Detected, DownloadError, MatcherType};

const PNG: [u8; 12] = [0x89, b'P', b'N', b'G', 0x0d, 0x0a, 0x1a, 0x0a, 0, 0, 0, 13];
const JPEG: [u8; 4] = [0xff, 0xd8, 0xff, 0xe0];

fn padded(prefix: &[u8], fill: u8, len: usize) -> Vec<u8> {
    let mut bytes = prefix.to_vec();
    bytes.resize(len, fill);
    bytes
}

#[test]
fn signatures_of_images_give_their_extension() {
    assert_eq!(sniff(&PNG), Ok("png".to_string()));
    assert_eq!(sniff(&JPEG), Ok("jpg".to_string()));
    assert_eq!(sniff(b"GIF89a\x01\x00\x01\x00"), Ok("gif".to_string()));
    assert_eq!(sniff(b"BM\x00\x00\x00\x00"), Ok("bmp".to_string()));
}

#[test]
fn content_that_is_no_image_has_no_extension() {
    assert_eq!(sniff(b"%PDF-1.7 and so on"), Err(DownloadError::Extension));
    assert_eq!(sniff(b"<html ><body>hello</body></html>"), Err(DownloadError::Extension));
    assert_eq!(sniff(b"PK\x03\x04rest of an archive"), Err(DownloadError::Extension));
}

#[test]
fn content_of_no_known_kind_has_no_extension() {
    assert_eq!(sniff(b""), Err(DownloadError::Extension));
    assert_eq!(sniff(b"just some words"), Err(DownloadError::Extension));
    assert_eq!(sniff(&[0, 1, 2, 3, 4, 5]), Err(DownloadError::Extension));
}

#[test]
fn content_that_begins_with_the_svg_marker_is_svg() {
    assert_eq!(sniff(b"<svg xmlns=\"http://www.w3.org/2000/svg\"></svg>"), Ok("svg".to_string()));
    assert_eq!(sniff(b"<svg"), Ok("svg".to_string()));
    assert_eq!(sniff(b"<svg this is not even a document"), Ok("svg".to_string()));
}

#[test]
fn svg_wins_over_a_signature_that_is_no_image() {
    let xml = b"<?xml version=\"1.0\"?><svg></svg>";
    assert_eq!(sniff(b"<?xml version=\"1.0\"?><root/>"), Err(DownloadError::Extension));
    assert_eq!(sniff(xml), Ok("svg".to_string()));
    assert_eq!(sniff(b"<html ><svg></svg></html>"), Ok("svg".to_string()));
    assert_eq!(sniff(b"#!/bin/sh\necho '<svg'"), Ok("svg".to_string()));
}

#[test]
fn svg_wins_over_a_signature_that_is_an_image() {
    assert_eq!(sniff(b"GIF89a <svg"), Ok("svg".to_string()));
}

#[test]
fn svg_marker_counts_in_the_first_1024_bytes_only() {
    let mut inside = padded(b"", b' ', 1020);
    inside.extend_from_slice(b"<svg>");
    assert_eq!(inside.len(), 1025);
    assert!(looks_like_svg(&inside));
    assert_eq!(sniff(&inside), Ok("svg".to_string()));
    let mut cut = padded(b"", b' ', 1021);
    cut.extend_from_slice(b"<svg>");
    assert!(!looks_like_svg(&cut));
    assert_eq!(sniff(&cut), Err(DownloadError::Extension));
    let mut outside = padded(b"", b' ', 1024);
    outside.extend_from_slice(b"<svg>");
    assert!(!looks_like_svg(&outside));
}

#[test]
fn svg_marker_in_a_head_that_is_no_text_does_not_count() {
    let mut png = PNG.to_vec();
    png.extend_from_slice(b"<svg>");
    assert!(!looks_like_svg(&png));
    assert_eq!(sniff(&png), Ok("png".to_string()));
    assert!(!looks_like_svg(&[b'<', b's', b'v', b'g', 0xff]));
    assert_eq!(sniff(&[b'<', b's', b'v', b'g', 0xff]), Err(DownloadError::Extension));
}

#[test]
fn head_that_is_cut_inside_a_character_is_no_text() {
    let mut whole = padded(b"<svg>", b' ', 1022);
    whole.extend_from_slice("\u{00e9}".as_bytes());
    assert_eq!(whole.len(), 1024);
    assert!(looks_like_svg(&whole));
    let mut cut = padded(b"<svg>", b' ', 1023);
    cut.extend_from_slice("\u{00e9}".as_bytes());
    assert_eq!(cut.len(), 1025);
    assert!(!looks_like_svg(&cut));
    assert_eq!(sniff(&cut), Err(DownloadError::Extension));
}

#[test]
fn text_past_the_head_need_not_be_well_formed() {
    let mut bytes = padded(b"<svg>", b' ', 1024);
    bytes.push(0xff);
    assert!(looks_like_svg(&bytes));
    assert_eq!(sniff(&bytes), Ok("svg".to_string()));
}

#[test]
fn extension_is_chosen_from_svg_and_signature() {
    let png = Detected { matcher: MatcherType::Image, extension: "png".to_string() };
    let html = Detected { matcher: MatcherType::Text, extension: "html".to_string() };
    let pdf = Detected { matcher: MatcherType::Archive, extension: "pdf".to_string() };
    assert_eq!(choose_extension(false, Some(png.clone())), Ok("png".to_string()));
    assert_eq!(choose_extension(true, Some(png)), Ok("svg".to_string()));
    assert_eq!(choose_extension(false, Some(html.clone())), Err(DownloadError::Extension));
    assert_eq!(choose_extension(true, Some(html)), Ok("svg".to_string()));
    assert_eq!(choose_extension(false, Some(pdf)), Err(DownloadError::Extension));
    assert_eq!(choose_extension(false, None), Err(DownloadError::Extension));
    assert_eq!(choose_extension(true, None), Ok("svg".to_string()));
}

#[test]
fn every_class_but_image_is_refused() {
    for matcher in [
        MatcherType::App,
        MatcherType::Archive,
        MatcherType::Audio,
        MatcherType::Book,
        MatcherType::Doc,
        MatcherType::Font,
        MatcherType::Text,
        MatcherType::Video,
        MatcherType::Custom,
    ] {
        let kind = Detected { matcher, extension: "ext".to_string() };
        assert_eq!(choose_extension(false, Some(kind)), Err(DownloadError::Extension));
    }
}
