//! Telling from fetched bytes whether they are an image, and of which kind.

use crate::error::DownloadError;
use crate::scan::{find_first, occurs, occurs_at};
use vstd::prelude::*;
use vstd::slice::slice_subrange;
use vstd::string::*;
use vstd::utf8::valid_utf8;

verus! {

/// The class of content that a signature belongs to.
#[derive(Debug, Clone, Copy, PartialEq, Eq)]
pub enum MatcherType {
    App,
    Archive,
    Audio,
    Book,
    Doc,
    Font,
    Image,
    Text,
    Video,
    Custom,
}

/// What the signature of some content says of it: its class, and the
/// extension that files of its kind carry.
#[derive(Debug, Clone, PartialEq, Eq)]
pub struct Detected {
    pub matcher: MatcherType,
    pub extension: String,
}

/// What `infer` makes of the content by its signature: the class and the
/// extension of the first kind whose signature matches, if one does.
pub uninterp spec fn detected_kind(content: Seq<u8>) -> Option<(MatcherType, Seq<char>)>;

/// `infer::get`, with `Type::matcher_type` and `Type::extension` of what it
/// returns: the class and the extension of the kind that it finds for the
/// content, which depend on the content alone; none where no signature
/// matches.
#[verifier::external_body]
fn detect(content: &[u8]) -> (kind: Option<Detected>)
    ensures
        match kind {
            Some(found) => detected_kind(content@) == Some((found.matcher, found.extension@)),
            None => detected_kind(content@) is None,
        },
{
    infer::get(content).map(|kind| Detected {
        matcher: match kind.matcher_type() {
            infer::MatcherType::App => MatcherType::App,
            infer::MatcherType::Archive => MatcherType::Archive,
            infer::MatcherType::Audio => MatcherType::Audio,
            infer::MatcherType::Book => MatcherType::Book,
            infer::MatcherType::Doc => MatcherType::Doc,
            infer::MatcherType::Font => MatcherType::Font,
            infer::MatcherType::Image => MatcherType::Image,
            infer::MatcherType::Text => MatcherType::Text,
            infer::MatcherType::Video => MatcherType::Video,
            infer::MatcherType::Custom => MatcherType::Custom,
        },
        extension: kind.extension().to_owned(),
    })
}

/// `std::str::from_utf8`: it succeeds exactly on well-formed UTF-8.
#[verifier::external_body]
fn is_utf8(bytes: &[u8]) -> (valid: bool)
    ensures
        valid == valid_utf8(bytes@),
{
    std::str::from_utf8(bytes).is_ok()
}

/// How much of the content is looked at as text.
pub const HEAD_LEN: usize = 1024;

/// What marks content as SVG.
pub open spec fn svg_marker() -> Seq<u8> {
    "<svg".spec_bytes()
}

/// The part of the content that is looked at as text: its first `HEAD_LEN`
/// bytes, or all of it where it has no more.
pub open spec fn head_of(content: Seq<u8>) -> Seq<u8> {
    if content.len() > HEAD_LEN {
        content.take(HEAD_LEN as int)
    } else {
        content
    }
}

/// The head of the content is text and holds the SVG marker.
pub open spec fn is_svg_text(content: Seq<u8>) -> bool {
    valid_utf8(head_of(content)) && occurs(head_of(content), svg_marker())
}

/// The extension for content, given whether it is SVG text and what its
/// signature says: `svg` for SVG text, whatever the signature; else the
/// signature's extension where its class is image; else none.
pub open spec fn extension_for(svg: bool, kind: Option<(MatcherType, Seq<char>)>) -> Result<
    Seq<char>,
    DownloadError,
> {
    if svg {
        Ok("svg"@)
    } else {
        match kind {
            Some((MatcherType::Image, extension)) => Ok(extension),
            _ => Err(DownloadError::Extension),
        }
    }
}

/// The extension that content is given.
pub open spec fn sniffed(content: Seq<u8>) -> Result<Seq<char>, DownloadError> {
    extension_for(is_svg_text(content), detected_kind(content))
}

/// An extension, or the reason why there is none, by the characters of the
/// extension.
pub open spec fn extension_view(outcome: Result<String, DownloadError>) -> Result<
    Seq<char>,
    DownloadError,
> {
    match outcome {
        Ok(extension) => Ok(extension@),
        Err(reason) => Err(reason),
    }
}

/// Tells whether the head of the content is text that holds the SVG marker.
pub fn looks_like_svg(content: &[u8]) -> (svg: bool)
    ensures
        svg == is_svg_text(content@),
{
    let head = if content.len() > HEAD_LEN {
        slice_subrange(content, 0, HEAD_LEN)
    } else {
        content
    };
    if !is_utf8(head) {
        return false;
    }
    find_first(head, "<svg".as_bytes()).is_some()
}

/// Picks the extension, given whether the content is SVG text and what its
/// signature says.
pub fn choose_extension(svg: bool, kind: Option<Detected>) -> (outcome: Result<
    String,
    DownloadError,
>)
    ensures
        extension_view(outcome) == extension_for(
            svg,
            match kind {
                Some(found) => Some((found.matcher, found.extension@)),
                None => None,
            },
        ),
{
    if svg {
        return Ok("svg".to_owned());
    }
    match kind {
        Some(found) => match found.matcher {
            MatcherType::Image => Ok(found.extension),
            _ => Err(DownloadError::Extension),
        },
        None => Err(DownloadError::Extension),
    }
}

/// Classifies fetched content: the extension of the image that it is, or
/// `Extension` where it is none. Content whose head is text with the SVG
/// marker is `svg`, whatever its signature says.
pub fn sniff(content: &[u8]) -> (outcome: Result<String, DownloadError>)
    ensures
        extension_view(outcome) == sniffed(content@),
        is_svg_text(content@) ==> extension_view(outcome) == Ok::<Seq<char>, DownloadError>("svg"@),
{
    let svg = looks_like_svg(content);
    let kind = detect(content);
    choose_extension(svg, kind)
}

/// Content that begins with the SVG marker, and whose head is well-formed
/// UTF-8, is classified `svg`, whatever its signature says.
pub proof fn lemma_svg_start_is_svg(content: Seq<u8>, kind: Option<(MatcherType, Seq<char>)>)
    requires
        occurs_at(content, svg_marker(), 0),
        valid_utf8(head_of(content)),
    ensures
        is_svg_text(content),
        extension_for(is_svg_text(content), kind) == Ok::<Seq<char>, DownloadError>("svg"@),
{
    reveal_strlit("<svg");
    vstd::utf8::is_ascii_chars_encode_utf8("<svg"@);
    assert(head_of(content).subrange(0, 4) == content.subrange(0, 4));
    assert(occurs_at(head_of(content), svg_marker(), 0));
}

} // verus!
