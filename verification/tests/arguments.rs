use image_search::{
    build_url, Arguments, Color, ColorType, Format, ImageType, License, Ratio, Time,
};
use std::path::PathBuf;
use std::time::Duration;

#[test]
fn color_params() {
    assert_eq!(Color::Any.param(), "");
    assert_eq!(Color::Red.param(), "isc:red");
    assert_eq!(Color::Orange.param(), "isc:orange");
    assert_eq!(Color::Yellow.param(), "isc:yellow");
    assert_eq!(Color::Green.param(), "isc:green");
    assert_eq!(Color::Teal.param(), "isc:teal");
    assert_eq!(Color::Blue.param(), "isc:blue");
    assert_eq!(Color::Purple.param(), "isc:purple");
    assert_eq!(Color::Pink.param(), "isc:pink");
    assert_eq!(Color::White.param(), "isc:white");
    assert_eq!(Color::Gray.param(), "isc:gray");
    assert_eq!(Color::Black.param(), "isc:black");
    assert_eq!(Color::Brown.param(), "isc:brown");
}

#[test]
fn color_type_params() {
    assert_eq!(ColorType::Any.param(), "");
    assert_eq!(ColorType::Color.param(), "ic:full");
    assert_eq!(ColorType::Grayscale.param(), "ic:gray");
    assert_eq!(ColorType::Transparent.param(), "ic:trans");
}

#[test]
fn license_params() {
    assert_eq!(License::Any.param(), "");
    assert_eq!(License::CreativeCommons.param(), "il:cl");
    assert_eq!(License::Other.param(), "il:ol");
}

#[test]
fn image_type_params() {
    assert_eq!(ImageType::Any.param(), "");
    assert_eq!(ImageType::Face.param(), "itp:face");
    assert_eq!(ImageType::Photo.param(), "itp:photo");
    assert_eq!(ImageType::Clipart.param(), "itp:clipart");
    assert_eq!(ImageType::Lineart.param(), "itp:lineart");
    assert_eq!(ImageType::Animated.param(), "itp:animated");
}

#[test]
fn time_params() {
    assert_eq!(Time::Any.param(), "");
    assert_eq!(Time::Day.param(), "qdr:d");
    assert_eq!(Time::Week.param(), "qdr:w");
    assert_eq!(Time::Month.param(), "qdr:m");
    assert_eq!(Time::Year.param(), "qdr:y");
}

#[test]
fn ratio_params() {
    assert_eq!(Ratio::Any.param(), "");
    assert_eq!(Ratio::Tall.param(), "iar:t");
    assert_eq!(Ratio::Square.param(), "iar:s");
    assert_eq!(Ratio::Wide.param(), "iar:w");
    assert_eq!(Ratio::Panoramic.param(), "iar:xw");
}

#[test]
fn format_params() {
    assert_eq!(Format::Any.param(), "");
    assert_eq!(Format::Jpg.param(), "ift:jpg");
    assert_eq!(Format::Gif.param(), "ift:gif");
    assert_eq!(Format::Png.param(), "ift:png");
    assert_eq!(Format::Bmp.param(), "ift:bmp");
    assert_eq!(Format::Svg.param(), "ift:svg");
    assert_eq!(Format::Webp.param(), "ift:webp");
    assert_eq!(Format::Ico.param(), "ift:ico");
    assert_eq!(Format::Raw.param(), "ift:raw");
}

#[test]
fn new_sets_the_defaults() {
    let args = Arguments::new("example", 10);
    assert_eq!(args.query, "example");
    assert_eq!(args.limit, 10);
    assert!(!args.thumbnails);
    assert_eq!(args.timeout, Some(Duration::from_secs(20)));
    assert_ne!(args.timeout, Some(Duration::from_nanos(20)));
    assert_eq!(args.directory, None);
    assert!(matches!(args.color, Color::Any));
    assert!(matches!(args.color_type, ColorType::Any));
    assert!(matches!(args.license, License::Any));
    assert!(matches!(args.image_type, ImageType::Any));
    assert!(matches!(args.time, Time::Any));
    assert!(matches!(args.ratio, Ratio::Any));
    assert!(matches!(args.format, Format::Any));
    assert_eq!(args.params(), "");
}

#[test]
fn builders_set_one_field_each() {
    let args = Arguments::new("example", 3)
        .directory(PathBuf::from("downloads"))
        .timeout(Some(Duration::from_millis(1500)))
        .thumbnails(true)
        .color(Color::Gray)
        .color_type(ColorType::Transparent)
        .license(License::Other)
        .image_type(ImageType::Photo)
        .time(Time::Week)
        .ratio(Ratio::Wide)
        .format(Format::Webp);
    assert_eq!(args.query, "example");
    assert_eq!(args.limit, 3);
    assert_eq!(args.directory, Some(PathBuf::from("downloads")));
    assert_eq!(args.timeout, Some(Duration::from_millis(1500)));
    assert!(args.thumbnails);
    assert!(matches!(args.color, Color::Gray));
    assert!(matches!(args.color_type, ColorType::Transparent));
    assert!(matches!(args.license, License::Other));
    assert!(matches!(args.image_type, ImageType::Photo));
    assert!(matches!(args.time, Time::Week));
    assert!(matches!(args.ratio, Ratio::Wide));
    assert!(matches!(args.format, Format::Webp));
}

#[test]
fn timeout_can_be_switched_off() {
    let args = Arguments::new("example", 3).timeout(None);
    assert_eq!(args.timeout, None);
    assert_eq!(args.limit, 3);
}

#[test]
fn a_later_setting_replaces_an_earlier_one() {
    let args = Arguments::new("example", 3).color(Color::Red).color(Color::Any);
    assert!(matches!(args.color, Color::Any));
    assert_eq!(args.params(), "");
}

#[test]
fn params_come_in_a_fixed_order() {
    let args = Arguments::new("q", 1)
        .format(Format::Png)
        .ratio(Ratio::Square)
        .time(Time::Day)
        .image_type(ImageType::Face)
        .license(License::CreativeCommons)
        .color_type(ColorType::Color)
        .color(Color::Red);
    assert_eq!(
        args.params(),
        "%2Cisc:red%2Cic:full%2Cil:cl%2Citp:face%2Cqdr:d%2Ciar:s%2Cift:png"
    );
}

#[test]
fn params_leave_out_what_is_not_set() {
    let args = Arguments::new("q", 1).time(Time::Year).color(Color::Blue);
    assert_eq!(args.params(), "%2Cisc:blue%2Cqdr:y");
}

#[test]
fn url_without_filters_is_prefix_and_query() {
    let args = Arguments::new("cats", 5);
    assert_eq!(build_url(&args), "https://www.google.com/search?udm=2&q=cats");
}

#[test]
fn url_with_filters_carries_the_marker_and_the_block() {
    let args = Arguments::new("cats", 5).color(Color::Red).format(Format::Png);
    assert_eq!(
        build_url(&args),
        "https://www.google.com/search?udm=2&q=cats&tbs=ic:specific%2Cisc:red%2Cift:png"
    );
}

#[test]
fn url_keeps_the_query_as_it_is() {
    let args = Arguments::new("two words & more", 0).ratio(Ratio::Panoramic);
    assert_eq!(
        build_url(&args),
        "https://www.google.com/search?udm=2&q=two words & more&tbs=ic:specific%2Ciar:xw"
    );
    assert_eq!(build_url(&Arguments::new("", 0)), "https://www.google.com/search?udm=2&q=");
}

#[test]
fn thumbnails_and_limit_leave_the_url_alone() {
    let plain = build_url(&Arguments::new("cats", 5));
    let other = build_url(&Arguments::new("cats", 50).thumbnails(true).timeout(None));
    assert_eq!(plain, other);
}
