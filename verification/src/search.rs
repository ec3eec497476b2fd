//! From the page that answers a search to what the caller asked for.

use crate::arguments::Arguments;
use crate::error::Error;
use crate::image::{address_of, image_urls, image_views, limit_results, limited, Image, ImageView};
use crate::text::texts;
use crate::unpack::{all_wf, unpack, unpacked};
use vstd::prelude::*;
use vstd::utf8::encode_utf8;

verus! {

/// The images that a search gives for a page, where `limit` are wanted: the
/// page's images, cut down to the limit; `Parse` where the page carries none
/// that can be read.
pub open spec fn search_outcome(page: Seq<u8>, limit: nat) -> Result<Seq<ImageView>, Error> {
    match unpacked(page) {
        Some(images) => Ok(limited(images, limit)),
        None => Err(Error::Parse),
    }
}

/// The addresses that a search gives for a page: those of the images that it
/// gives, of their thumbnails where `thumbnails` is set.
pub open spec fn url_outcome(page: Seq<u8>, limit: nat, thumbnails: bool) -> Result<
    Seq<Seq<char>>,
    Error,
> {
    match search_outcome(page, limit) {
        Ok(images) => Ok(images.map_values(|image: ImageView| address_of(image, thumbnails))),
        Err(reason) => Err(reason),
    }
}

/// Reads the images of a search out of the page that answered it, no more of
/// them than `args` wants.
pub fn search_results(args: &Arguments, body: String) -> (outcome: Result<Vec<Image>, Error>)
    ensures
        match outcome {
            Ok(images) => search_outcome(encode_utf8(body@), args.limit as nat) == Ok::<
                Seq<ImageView>,
                Error,
            >(image_views(images@)) && all_wf(images@),
            Err(reason) => search_outcome(encode_utf8(body@), args.limit as nat) == Err::<
                Seq<ImageView>,
                Error,
            >(reason),
        },
{
    match unpack(body) {
        Some(found) => {
            let kept = limit_results(found, args.limit);
            assert(image_views(kept@) == limited(image_views(found@), args.limit as nat));
            Ok(kept)
        },
        None => Err(Error::Parse),
    }
}

/// Reads the addresses of a search out of the page that answered it: of the
/// images or of their thumbnails, as `args` says, and no more than it wants.
pub fn url_results(args: &Arguments, body: String) -> (outcome: Result<Vec<String>, Error>)
    ensures
        match outcome {
            Ok(urls) => url_outcome(encode_utf8(body@), args.limit as nat, args.thumbnails) == Ok::<
                Seq<Seq<char>>,
                Error,
            >(texts(urls@)),
            Err(reason) => url_outcome(encode_utf8(body@), args.limit as nat, args.thumbnails)
                == Err::<Seq<Seq<char>>, Error>(reason),
        },
{
    match search_results(args, body) {
        Ok(images) => {
            let urls = image_urls(&images, args.thumbnails);
            assert(texts(urls@) == image_views(images@).map_values(
                |image: ImageView| address_of(image, args.thumbnails),
            ));
            Ok(urls)
        },
        Err(reason) => Err(reason),
    }
}

/// The candidates of a download: every address that the page gives, whatever
/// number of files is wanted.
pub fn download_candidates(args: &Arguments, body: String) -> (outcome: Result<Vec<String>, Error>)
    ensures
        match outcome {
            Ok(urls) => url_outcome(encode_utf8(body@), 0, args.thumbnails) == Ok::<
                Seq<Seq<char>>,
                Error,
            >(texts(urls@)),
            Err(reason) => url_outcome(encode_utf8(body@), 0, args.thumbnails) == Err::<
                Seq<Seq<char>>,
                Error,
            >(reason),
        },
{
    match unpack(body) {
        Some(found) => {
            let urls = image_urls(&found, args.thumbnails);
            assert(texts(urls@) == image_views(found@).map_values(
                |image: ImageView| address_of(image, args.thumbnails),
            ));
            Ok(urls)
        },
        None => Err(Error::Parse),
    }
}

} // verus!
