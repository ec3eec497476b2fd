//! An image that a search found.

use vstd::prelude::*;

verus! {

/// One image: where it is, how large it is, where its thumbnail is, and the
/// page it was found on.
#[derive(Debug, Clone, PartialEq, Eq)]
pub struct Image {
    pub url: String,
    pub width: i64,
    pub height: i64,
    pub thumbnail: String,
    pub source: String,
}

/// An image as contracts speak of it: texts as sequences of characters,
/// sizes as integers.
pub struct ImageView {
    pub url: Seq<char>,
    pub width: int,
    pub height: int,
    pub thumbnail: Seq<char>,
    pub source: Seq<char>,
}

impl View for Image {
    type V = ImageView;

    open spec fn view(&self) -> ImageView {
        ImageView {
            url: self.url@,
            width: self.width as int,
            height: self.height as int,
            thumbnail: self.thumbnail@,
            source: self.source@,
        }
    }
}

impl Image {
    /// An image has no negative size.
    pub open spec fn wf(self) -> bool {
        0 <= self.width && 0 <= self.height
    }
}

/// The views of a run of images, in order.
pub open spec fn image_views(images: Seq<Image>) -> Seq<ImageView> {
    images.map_values(|image: Image| image@)
}

/// What is kept of `found` images where `limit` are wanted: the first `limit`
/// of them, or all where `limit` is 0 or no fewer were found.
pub open spec fn limited<A>(found: Seq<A>, limit: nat) -> Seq<A> {
    if limit > 0 && found.len() > limit {
        found.take(limit as int)
    } else {
        found
    }
}

/// Cuts a list of images down to the number wanted.
pub fn limit_results(images: Vec<Image>, limit: usize) -> (kept: Vec<Image>)
    ensures
        kept@ == limited(images@, limit as nat),
{
    let mut kept = images;
    if limit > 0 && kept.len() > limit {
        kept.truncate(limit);
    }
    kept
}

/// The address that stands for an image: that of its thumbnail, or its own.
pub open spec fn address_of(image: ImageView, thumbnails: bool) -> Seq<char> {
    if thumbnails {
        image.thumbnail
    } else {
        image.url
    }
}

/// The addresses of the images, in order: of their thumbnails where
/// `thumbnails` is set, of the images themselves where not.
pub fn image_urls(images: &Vec<Image>, thumbnails: bool) -> (all: Vec<String>)
    ensures
        all@.len() == images@.len(),
        forall|i: int|
            0 <= i < all@.len() ==> #[trigger] all@[i]@ == address_of(images@[i]@, thumbnails),
{
    let mut all: Vec<String> = Vec::new();
    let mut i: usize = 0;
    while i < images.len()
        invariant
            i <= images.len(),
            all@.len() == i,
            forall|j: int|
                0 <= j < i ==> #[trigger] all@[j]@ == address_of(images@[j]@, thumbnails),
        decreases images.len() - i,
    {
        if thumbnails {
            all.push(images[i].thumbnail.clone());
        } else {
            all.push(images[i].url.clone());
        }
        i += 1;
    }
    all
}

} // verus!
