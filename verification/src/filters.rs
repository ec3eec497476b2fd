//! The filters a search can carry, and the request parameter each one stands for.

use vstd::prelude::*;

verus! {

/// The dominant color of the images.
#[derive(Debug, Clone, Copy)]
pub enum Color {
    Any,
    Red,
    Orange,
    Yellow,
    Green,
    Teal,
    Blue,
    Purple,
    Pink,
    White,
    Gray,
    Black,
    Brown,
}

impl Color {
    /// The request parameter of this color; empty for `Any`, which filters nothing.
    pub open spec fn param_text(self) -> Seq<char> {
        match self {
            Color::Any => ""@,
            Color::Red => "isc:red"@,
            Color::Orange => "isc:orange"@,
            Color::Yellow => "isc:yellow"@,
            Color::Green => "isc:green"@,
            Color::Teal => "isc:teal"@,
            Color::Blue => "isc:blue"@,
            Color::Purple => "isc:purple"@,
            Color::Pink => "isc:pink"@,
            Color::White => "isc:white"@,
            Color::Gray => "isc:gray"@,
            Color::Black => "isc:black"@,
            Color::Brown => "isc:brown"@,
        }
    }

    pub fn param(&self) -> (text: String)
        ensures
            text@ == self.param_text(),
    {
        match self {
            Color::Any => "".to_owned(),
            Color::Red => "isc:red".to_owned(),
            Color::Orange => "isc:orange".to_owned(),
            Color::Yellow => "isc:yellow".to_owned(),
            Color::Green => "isc:green".to_owned(),
            Color::Teal => "isc:teal".to_owned(),
            Color::Blue => "isc:blue".to_owned(),
            Color::Purple => "isc:purple".to_owned(),
            Color::Pink => "isc:pink".to_owned(),
            Color::White => "isc:white".to_owned(),
            Color::Gray => "isc:gray".to_owned(),
            Color::Black => "isc:black".to_owned(),
            Color::Brown => "isc:brown".to_owned(),
        }
    }
}

/// Whether the images are in color, in shades of gray, or have transparent parts.
#[derive(Debug, Clone, Copy)]
pub enum ColorType {
    Any,
    Color,
    Grayscale,
    Transparent,
}

impl ColorType {
    /// The request parameter of this color type; empty for `Any`, which filters nothing.
    pub open spec fn param_text(self) -> Seq<char> {
        match self {
            ColorType::Any => ""@,
            ColorType::Color => "ic:full"@,
            ColorType::Grayscale => "ic:gray"@,
            ColorType::Transparent => "ic:trans"@,
        }
    }

    pub fn param(&self) -> (text: String)
        ensures
            text@ == self.param_text(),
    {
        match self {
            ColorType::Any => "".to_owned(),
            ColorType::Color => "ic:full".to_owned(),
            ColorType::Grayscale => "ic:gray".to_owned(),
            ColorType::Transparent => "ic:trans".to_owned(),
        }
    }
}

/// The license the images are offered under.
#[derive(Debug, Clone, Copy)]
pub enum License {
    Any,
    CreativeCommons,
    Other,
}

impl License {
    /// The request parameter of this license; empty for `Any`, which filters nothing.
    pub open spec fn param_text(self) -> Seq<char> {
        match self {
            License::Any => ""@,
            License::CreativeCommons => "il:cl"@,
            License::Other => "il:ol"@,
        }
    }

    pub fn param(&self) -> (text: String)
        ensures
            text@ == self.param_text(),
    {
        match self {
            License::Any => "".to_owned(),
            License::CreativeCommons => "il:cl".to_owned(),
            License::Other => "il:ol".to_owned(),
        }
    }
}

/// The kind of picture.
#[derive(Debug, Clone, Copy)]
pub enum ImageType {
    Any,
    Face,
    Photo,
    Clipart,
    Lineart,
    Animated,
}

impl ImageType {
    /// The request parameter of this image type; empty for `Any`, which filters nothing.
    pub open spec fn param_text(self) -> Seq<char> {
        match self {
            ImageType::Any => ""@,
            ImageType::Face => "itp:face"@,
            ImageType::Photo => "itp:photo"@,
            ImageType::Clipart => "itp:clipart"@,
            ImageType::Lineart => "itp:lineart"@,
            ImageType::Animated => "itp:animated"@,
        }
    }

    pub fn param(&self) -> (text: String)
        ensures
            text@ == self.param_text(),
    {
        match self {
            ImageType::Any => "".to_owned(),
            ImageType::Face => "itp:face".to_owned(),
            ImageType::Photo => "itp:photo".to_owned(),
            ImageType::Clipart => "itp:clipart".to_owned(),
            ImageType::Lineart => "itp:lineart".to_owned(),
            ImageType::Animated => "itp:animated".to_owned(),
        }
    }
}

/// How long ago, at most, the images were published.
#[derive(Debug, Clone, Copy)]
pub enum Time {
    Any,
    Day,
    Week,
    Month,
    Year,
}

impl Time {
    /// The request parameter of this time span; empty for `Any`, which filters nothing.
    pub open spec fn param_text(self) -> Seq<char> {
        match self {
            Time::Any => ""@,
            Time::Day => "qdr:d"@,
            Time::Week => "qdr:w"@,
            Time::Month => "qdr:m"@,
            Time::Year => "qdr:y"@,
        }
    }

    pub fn param(&self) -> (text: String)
        ensures
            text@ == self.param_text(),
    {
        match self {
            Time::Any => "".to_owned(),
            Time::Day => "qdr:d".to_owned(),
            Time::Week => "qdr:w".to_owned(),
            Time::Month => "qdr:m".to_owned(),
            Time::Year => "qdr:y".to_owned(),
        }
    }
}

/// The rough aspect ratio of the images.
#[derive(Debug, Clone, Copy)]
pub enum Ratio {
    Any,
    Tall,
    Square,
    Wide,
    Panoramic,
}

impl Ratio {
    /// The request parameter of this aspect ratio; empty for `Any`, which filters nothing.
    pub open spec fn param_text(self) -> Seq<char> {
        match self {
            Ratio::Any => ""@,
            Ratio::Tall => "iar:t"@,
            Ratio::Square => "iar:s"@,
            Ratio::Wide => "iar:w"@,
            Ratio::Panoramic => "iar:xw"@,
        }
    }

    pub fn param(&self) -> (text: String)
        ensures
            text@ == self.param_text(),
    {
        match self {
            Ratio::Any => "".to_owned(),
            Ratio::Tall => "iar:t".to_owned(),
            Ratio::Square => "iar:s".to_owned(),
            Ratio::Wide => "iar:w".to_owned(),
            Ratio::Panoramic => "iar:xw".to_owned(),
        }
    }
}

/// The file format of the images.
#[derive(Debug, Clone, Copy)]
pub enum Format {
    Any,
    Jpg,
    Gif,
    Png,
    Bmp,
    Svg,
    Webp,
    Ico,
    Raw,
}

impl Format {
    /// The request parameter of this format; empty for `Any`, which filters nothing.
    pub open spec fn param_text(self) -> Seq<char> {
        match self {
            Format::Any => ""@,
            Format::Jpg => "ift:jpg"@,
            Format::Gif => "ift:gif"@,
            Format::Png => "ift:png"@,
            Format::Bmp => "ift:bmp"@,
            Format::Svg => "ift:svg"@,
            Format::Webp => "ift:webp"@,
            Format::Ico => "ift:ico"@,
            Format::Raw => "ift:raw"@,
        }
    }

    pub fn param(&self) -> (text: String)
        ensures
            text@ == self.param_text(),
    {
        match self {
            Format::Any => "".to_owned(),
            Format::Jpg => "ift:jpg".to_owned(),
            Format::Gif => "ift:gif".to_owned(),
            Format::Png => "ift:png".to_owned(),
            Format::Bmp => "ift:bmp".to_owned(),
            Format::Svg => "ift:svg".to_owned(),
            Format::Webp => "ift:webp".to_owned(),
            Format::Ico => "ift:ico".to_owned(),
            Format::Raw => "ift:raw".to_owned(),
        }
    }
}

} // verus!
