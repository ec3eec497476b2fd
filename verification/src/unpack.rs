//! Reading image records out of the page that answers a search.
//!
//! The page carries its data as a JSON literal assigned in a script. The
//! literal is cut out between two markers, parsed, and searched for entries
//! of the shape of an image record; whatever has another shape is passed over.

use crate::image::{image_views, Image, ImageView};
use crate::json::{
    array, element, element_of, is_array, is_unsigned, json_of, member, member_of, owned, parse,
    size, size_of, text, text_of, unsigned, Json,
};
use crate::scan::{find_first, find_last, first_occurrence, last_occurrence, occurs};
use crate::text::{lemma_marker_absent, text_occurs};
use vstd::prelude::*;
use vstd::slice::slice_subrange;
use vstd::string::*;
use vstd::utf8::encode_utf8;

verus! {

/// What the assignment of the data starts with; the literal starts at its
/// brace.
pub open spec fn start_marker() -> Seq<u8> {
    "var m={".spec_bytes()
}

/// How far into the start marker the literal starts.
pub open spec fn start_skip() -> int {
    "var m=".spec_bytes().len() as int
}

/// What follows the assignment of the data.
pub open spec fn end_marker() -> Seq<u8> {
    "var a=m".spec_bytes()
}

/// What ends a statement.
pub open spec fn terminator() -> Seq<u8> {
    ";".spec_bytes()
}

/// The bytes of the markers.
pub proof fn lemma_markers()
    ensures
        start_marker() == seq![118u8, 97, 114, 32, 109, 61, 123],
        start_marker().len() == 7,
        start_skip() == 6,
        end_marker() == seq![118u8, 97, 114, 32, 97, 61, 109],
        terminator() == seq![59u8],
{
    reveal_strlit("var m={");
    reveal_strlit("var m=");
    reveal_strlit("var a=m");
    reveal_strlit(";");
    vstd::utf8::is_ascii_chars_encode_utf8("var m={"@);
    vstd::utf8::is_ascii_chars_encode_utf8("var m="@);
    vstd::utf8::is_ascii_chars_encode_utf8("var a=m"@);
    vstd::utf8::is_ascii_chars_encode_utf8(";"@);
}

/// The JSON literal that a page carries: what stands between the brace of the
/// first start marker and the last statement end before the first end marker
/// that follows. A page without one of the three carries none.
pub open spec fn embedded_literal(page: Seq<u8>) -> Option<Seq<u8>> {
    match first_occurrence(page, start_marker()) {
        None => None,
        Some(start) => {
            let tail = page.skip(start + start_skip());
            match first_occurrence(tail, end_marker()) {
                None => None,
                Some(end) => {
                    let script = tail.take(end);
                    match last_occurrence(script, terminator()) {
                        None => None,
                        Some(stop) => Some(script.take(stop)),
                    }
                },
            }
        },
    }
}

/// Cuts the JSON literal out of a page.
pub fn isolate_literal(page: &[u8]) -> (literal: Option<&[u8]>)
    ensures
        match literal {
            Some(bytes) => embedded_literal(page@) == Some(bytes@),
            None => embedded_literal(page@) is None,
        },
{
    proof {
        lemma_markers();
    }
    let start = match find_first(page, "var m={".as_bytes()) {
        Some(at) => at,
        None => { return None; },
    };
    let total = page.len();
    let tail = slice_subrange(page, start + "var m=".len(), total);
    let end = match find_first(tail, "var a=m".as_bytes()) {
        Some(at) => at,
        None => { return None; },
    };
    let script = slice_subrange(tail, 0, end);
    let stop = match find_last(script, ";".as_bytes()) {
        Some(at) => at,
        None => { return None; },
    };
    let literal = slice_subrange(script, 0, stop);
    Some(literal)
}

/// The body of an entry that has the shape of an image record: the entry is an
/// array, its first element an unsigned integer, its second an array, which is
/// the body.
pub open spec fn record_of(entry: Json) -> Option<Json> {
    let body = element_of(Some(entry), 1);
    if is_unsigned(element_of(Some(entry), 0)) && is_array(body) {
        body
    } else {
        None
    }
}

/// The image that the body of a record describes.
///
/// Element 3 is an array that holds the address at 1, the width at 2 and the
/// height at 3; element 2 is an array that holds the thumbnail's address at 0;
/// element 9 is an object whose member `2003` is an array that holds the
/// source at 2. Addresses and source are texts; width and height are integers
/// from 0 to `i64::MAX`. A body that lacks one of them describes no image.
pub open spec fn image_of(record: Json) -> Option<ImageView> {
    let place = element_of(Some(record), 3);
    let url = text_of(element_of(place, 1));
    let width = size_of(element_of(place, 2));
    let height = size_of(element_of(place, 3));
    let thumbnail = text_of(element_of(element_of(Some(record), 2), 0));
    let source = text_of(element_of(member_of(element_of(Some(record), 9), "2003"@), 2));
    if url is Some && width is Some && height is Some && thumbnail is Some && source is Some {
        Some(
            ImageView {
                url: url->0,
                width: width->0,
                height: height->0,
                thumbnail: thumbnail->0,
                source: source->0,
            },
        )
    } else {
        None
    }
}

/// The image that an entry of the document describes, if it describes one.
pub open spec fn entry_image(entry: Json) -> Option<ImageView> {
    match record_of(entry) {
        Some(record) => image_of(record),
        None => None,
    }
}

/// The images that the members of a document describe, in the members'
/// order; a member that describes none adds none.
pub open spec fn images_of(members: Seq<(String, Json)>) -> Seq<ImageView>
    decreases members.len(),
{
    if members.len() == 0 {
        Seq::empty()
    } else {
        let before = images_of(members.drop_last());
        match entry_image(members.last().1) {
            Some(image) => before.push(image),
            None => before,
        }
    }
}

/// The images of a document, which has to be an object.
pub open spec fn document_images(doc: Json) -> Option<Seq<ImageView>> {
    match doc {
        Json::Object(members) => Some(images_of(members@)),
        _ => None,
    }
}

/// The images that a page carries: those of the document that its literal
/// denotes. A page without a literal, or whose literal is not JSON or no
/// object, carries none.
pub open spec fn unpacked(page: Seq<u8>) -> Option<Seq<ImageView>> {
    match embedded_literal(page) {
        None => None,
        Some(literal) => match json_of(literal) {
            None => None,
            Some(doc) => document_images(doc),
        },
    }
}

/// Every image of the run has sizes that are not negative.
pub open spec fn all_wf(images: Seq<Image>) -> bool {
    forall|i: int| 0 <= i < images.len() ==> (#[trigger] images[i]).wf()
}

/// Reads the image that the body of a record describes.
pub fn read_record(record: &Json) -> (image: Option<Image>)
    ensures
        match image {
            Some(found) => image_of(*record) == Some(found@) && found.wf(),
            None => image_of(*record) is None,
        },
{
    let place = element(Some(record), 3);
    let url = match text(element(place, 1)) {
        Some(url) => url,
        None => { return None; },
    };
    let width = match size(element(place, 2)) {
        Some(width) => width,
        None => { return None; },
    };
    let height = match size(element(place, 3)) {
        Some(height) => height,
        None => { return None; },
    };
    let thumbnail = match text(element(element(Some(record), 2), 0)) {
        Some(thumbnail) => thumbnail,
        None => { return None; },
    };
    let source = match text(element(member(element(Some(record), 9), "2003"), 2)) {
        Some(source) => source,
        None => { return None; },
    };
    Some(
        Image {
            url: url.clone(),
            width,
            height,
            thumbnail: thumbnail.clone(),
            source: source.clone(),
        },
    )
}

/// Reads the image that an entry of the document describes.
pub fn read_entry(entry: &Json) -> (image: Option<Image>)
    ensures
        match image {
            Some(found) => entry_image(*entry) == Some(found@) && found.wf(),
            None => entry_image(*entry) is None,
        },
{
    let body = element(Some(entry), 1);
    if unsigned(element(Some(entry), 0)) && array(body) {
        match body {
            Some(record) => read_record(record),
            None => None,
        }
    } else {
        None
    }
}

/// Reads the images out of a parsed document, in the order of its members.
/// A document that is no object gives `None`; a member that is no image
/// record is passed over.
pub fn extract_images(doc: &Json) -> (images: Option<Vec<Image>>)
    ensures
        match images {
            Some(found) => document_images(*doc) == Some(image_views(found@)) && all_wf(found@),
            None => document_images(*doc) is None,
        },
{
    let members = match doc {
        Json::Object(members) => members,
        _ => { return None; },
    };
    let mut found: Vec<Image> = Vec::new();
    let mut i: usize = 0;
    while i < members.len()
        invariant
            i <= members.len(),
            image_views(found@) == images_of(members@.take(i as int)),
            all_wf(found@),
        decreases members.len() - i,
    {
        proof {
            let next = members@.take(i + 1);
            assert(next.drop_last() == members@.take(i as int));
        }
        match read_entry(&members[i].1) {
            Some(image) => {
                found.push(image);
            },
            None => {},
        }
        i += 1;
    }
    assert(members@.take(i as int) == members@);
    Some(found)
}

/// Reads the images out of the page that answers a search.
///
/// `None` where the page does not carry the data between its markers, or
/// where the data is no JSON object; else the images of every entry that has
/// the shape of an image record, in the order of the document's members.
pub fn unpack(recv: String) -> (images: Option<Vec<Image>>)
    ensures
        match images {
            Some(found) => unpacked(encode_utf8(recv@)) == Some(image_views(found@)) && all_wf(
                found@,
            ),
            None => unpacked(encode_utf8(recv@)) is None,
        },
        !occurs(encode_utf8(recv@), start_marker()) ==> images is None,
        !text_occurs(recv@, "var m={"@) ==> images is None,
{
    proof {
        if !text_occurs(recv@, "var m={"@) {
            reveal_strlit("var m={");
            lemma_marker_absent(recv@, "var m={"@);
        }
    }
    let literal = match isolate_literal(recv.as_str().as_bytes()) {
        Some(literal) => literal,
        None => { return None; },
    };
    match parse(literal) {
        Some(doc) => extract_images(&doc),
        None => None,
    }
}

/// The body of a record with fewer than ten elements describes no image.
pub proof fn lemma_short_record_has_no_image(record: Json)
    requires
        record matches Json::Array(items) && items@.len() < 10,
    ensures
        image_of(record) is None,
{
}

/// A member that describes no image is passed over: the images of the
/// document are those of the document without that member.
pub proof fn lemma_member_without_image_is_skipped(members: Seq<(String, Json)>, at: int)
    requires
        0 <= at < members.len(),
        entry_image(members[at].1) is None,
    ensures
        images_of(members) == images_of(members.remove(at)),
    decreases members.len(),
{
    if at == members.len() - 1 {
    } else {
        let rest = members.remove(at);
        assert(rest.drop_last() == members.drop_last().remove(at));
        lemma_member_without_image_is_skipped(members.drop_last(), at);
    }
}

} // verus!
