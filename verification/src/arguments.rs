//! What a search is asked with, and the request it becomes.

use crate::filters::{Color, ColorType, Format, ImageType, License, Ratio, Time};
use std::path::PathBuf;
use std::time::Duration;
use vstd::prelude::*;
use vstd::string::*;

verus! {

/// `std::path::PathBuf`, carried through as the caller gave it.
#[verifier::external_type_specification]
#[verifier::external_body]
pub struct ExPathBuf(std::path::PathBuf);

/// The time span of the given number of whole seconds.
pub uninterp spec fn duration_of_secs(secs: u64) -> Duration;

/// `Duration::from_secs`: the time span of that many whole seconds.
#[verifier::external_body]
fn duration_from_secs(secs: u64) -> (span: Duration)
    ensures
        span == duration_of_secs(secs),
{
    Duration::from_secs(secs)
}

/// The query of a search, the number of images wanted and the filters.
///
/// `directory` and `timeout` matter to downloads only: where the files go,
/// and how long one request may take.
#[derive(Debug, Clone)]
pub struct Arguments {
    pub query: String,
    pub limit: usize,
    pub thumbnails: bool,
    pub timeout: Option<Duration>,
    pub directory: Option<PathBuf>,
    pub color: Color,
    pub color_type: ColorType,
    pub license: License,
    pub image_type: ImageType,
    pub time: Time,
    pub ratio: Ratio,
    pub format: Format,
}

/// What follows the query where at least one filter is set.
pub open spec fn filter_marker() -> Seq<char> {
    "&tbs=ic:specific"@
}

/// What separates one filter from the next: an encoded comma.
pub open spec fn filter_separator() -> Seq<char> {
    "%2C"@
}

/// The address that every search request starts with.
pub open spec fn search_prefix() -> Seq<char> {
    "https://www.google.com/search?udm=2&q="@
}

/// What one filter adds to the request: the separator and its parameter, or
/// nothing where the parameter is shorter than two characters (a filter that
/// is not set has an empty one).
pub open spec fn filter_clause(param: Seq<char>) -> Seq<char> {
    if param.len() > 1 {
        filter_separator() + param
    } else {
        Seq::empty()
    }
}

/// Appends what one filter adds to the request.
fn push_filter(block: &mut String, param: String)
    ensures
        final(block)@ == old(block)@ + filter_clause(param@),
{
    if param.as_str().unicode_len() > 1 {
        block.append("%2C");
        block.append(param.as_str());
    }
}

impl Arguments {
    /// The filters of the request, each one that is set behind a separator,
    /// in this order: color, color type, license, image type, time, ratio,
    /// format.
    pub open spec fn params_text(self) -> Seq<char> {
        filter_clause(self.color.param_text()) + filter_clause(self.color_type.param_text())
            + filter_clause(self.license.param_text()) + filter_clause(
            self.image_type.param_text(),
        ) + filter_clause(self.time.param_text()) + filter_clause(self.ratio.param_text())
            + filter_clause(self.format.param_text())
    }

    /// The address of the search request: the prefix and the query, and where
    /// a filter is set, the marker and the filters.
    pub open spec fn url_text(self) -> Seq<char> {
        let params = self.params_text();
        if params.len() > 0 {
            search_prefix() + self.query@ + filter_marker() + params
        } else {
            search_prefix() + self.query@
        }
    }

    /// The filters of the request as one block.
    pub fn params(&self) -> (block: String)
        ensures
            block@ == self.params_text(),
    {
        let mut block = String::new();
        push_filter(&mut block, self.color.param());
        push_filter(&mut block, self.color_type.param());
        push_filter(&mut block, self.license.param());
        push_filter(&mut block, self.image_type.param());
        push_filter(&mut block, self.time.param());
        push_filter(&mut block, self.ratio.param());
        push_filter(&mut block, self.format.param());
        block
    }

    /// A search for `query` that wants `limit` images (0: as many as are
    /// found), with no filter set, full-size images, a request timeout of 20
    /// seconds and no directory.
    pub fn new(query: &str, limit: usize) -> (args: Arguments)
        ensures
            args.query@ == query@,
            args.limit == limit,
            args.thumbnails == false,
            args.timeout == Some(duration_of_secs(20)),
            args.directory is None,
            args.color is Any,
            args.color_type is Any,
            args.license is Any,
            args.image_type is Any,
            args.time is Any,
            args.ratio is Any,
            args.format is Any,
    {
        Arguments {
            query: query.to_owned(),
            limit,
            thumbnails: false,
            timeout: Some(duration_from_secs(20)),
            directory: None,
            color: Color::Any,
            color_type: ColorType::Any,
            license: License::Any,
            image_type: ImageType::Any,
            time: Time::Any,
            ratio: Ratio::Any,
            format: Format::Any,
        }
    }

    /// Sets the directory that downloads are written to.
    pub fn directory(self, dir: PathBuf) -> (args: Arguments)
        ensures
            args == (Arguments { directory: Some(dir), ..self }),
    {
        let mut args = self;
        args.directory = Some(dir);
        args
    }

    /// Sets how long one download request may take; `None` lets it take
    /// forever.
    pub fn timeout(self, timeout: Option<Duration>) -> (args: Arguments)
        ensures
            args == (Arguments { timeout: timeout, ..self }),
    {
        let mut args = self;
        args.timeout = timeout;
        args
    }

    /// Chooses between the thumbnails (`true`) and the images themselves.
    pub fn thumbnails(self, thumb: bool) -> (args: Arguments)
        ensures
            args == (Arguments { thumbnails: thumb, ..self }),
    {
        let mut args = self;
        args.thumbnails = thumb;
        args
    }

    /// Sets the color filter.
    pub fn color(self, color: Color) -> (args: Arguments)
        ensures
            args == (Arguments { color: color, ..self }),
    {
        let mut args = self;
        args.color = color;
        args
    }

    /// Sets the color type filter.
    pub fn color_type(self, color_type: ColorType) -> (args: Arguments)
        ensures
            args == (Arguments { color_type: color_type, ..self }),
    {
        let mut args = self;
        args.color_type = color_type;
        args
    }

    /// Sets the license filter.
    pub fn license(self, license: License) -> (args: Arguments)
        ensures
            args == (Arguments { license: license, ..self }),
    {
        let mut args = self;
        args.license = license;
        args
    }

    /// Sets the image type filter.
    pub fn image_type(self, image_type: ImageType) -> (args: Arguments)
        ensures
            args == (Arguments { image_type: image_type, ..self }),
    {
        let mut args = self;
        args.image_type = image_type;
        args
    }

    /// Sets the time filter.
    pub fn time(self, time: Time) -> (args: Arguments)
        ensures
            args == (Arguments { time: time, ..self }),
    {
        let mut args = self;
        args.time = time;
        args
    }

    /// Sets the aspect ratio filter.
    pub fn ratio(self, ratio: Ratio) -> (args: Arguments)
        ensures
            args == (Arguments { ratio: ratio, ..self }),
    {
        let mut args = self;
        args.ratio = ratio;
        args
    }

    /// Sets the format filter.
    pub fn format(self, format: Format) -> (args: Arguments)
        ensures
            args == (Arguments { format: format, ..self }),
    {
        let mut args = self;
        args.format = format;
        args
    }
}

/// The address to ask for the images that `args` describes.
pub fn build_url(args: &Arguments) -> (url: String)
    ensures
        url@ == args.url_text(),
{
    let mut url = "https://www.google.com/search?udm=2&q=".to_owned();
    url.append(args.query.as_str());
    let params = args.params();
    if !params.as_str().is_empty() {
        url.append("&tbs=ic:specific");
        url.append(params.as_str());
    }
    url
}

} // verus!
