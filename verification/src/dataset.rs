//! The public dataset of default emoji and the entries made from it.

use crate::emoji_map::EmojiMap;
use vstd::prelude::*;
use vstd::string::StringExecFns;

verus! {

/// One record of the public emoji dataset.
#[derive(Clone, Debug)]
pub struct DefaultEmojiRecord {
    /// The code points of the emoji, in hexadecimal, joined by hyphens.
    pub unified: String,
    /// The short name under which the emoji is listed.
    pub short_name: String,
    /// Whether the image set holds a picture of this emoji.
    pub has_img_twitter: bool,
}

/// The directory of the image set; an image's address is this text, the
/// lower-cased code points and `.png`.
pub const CDN_URL: &'static str =
    "https://cdn.jsdelivr.net/npm/emoji-datasource-twitter@15.1.2/img/twitter/64/";

/// The lowercase form of a text, as `str::to_lowercase` gives it.
pub uninterp spec fn lowercase_text(s: Seq<char>) -> Seq<char>;

/// `str::to_lowercase` of std: the new string is the lowercase form of the
/// slice, by Unicode's rules, and depends on the slice's text alone.
pub assume_specification[ str::to_lowercase ](s: &str) -> (r: String)
    ensures
        r@ == lowercase_text(s@),
;

/// The address of the image of an emoji with the given code points.
pub open spec fn image_url_text(unified: Seq<char>) -> Seq<char> {
    CDN_URL@ + lowercase_text(unified) + ".png"@
}

/// Whether a record is listed under the name `k`: it has an image and that
/// short name.
pub open spec fn listed_as(record: DefaultEmojiRecord, k: Seq<char>) -> bool {
    record.has_img_twitter && record.short_name@ == k
}

/// The map made of the dataset: each record with an image, from the first to
/// the last, is entered under its short name with its image's address.
pub open spec fn dataset_view(records: Seq<DefaultEmojiRecord>) -> Map<Seq<char>, Seq<char>>
    decreases records.len(),
{
    if records.len() == 0 {
        Map::empty()
    } else {
        let rest = dataset_view(records.drop_last());
        let record = records.last();
        if record.has_img_twitter {
            rest.insert(record.short_name@, image_url_text(record.unified@))
        } else {
            rest
        }
    }
}

/// Builds the address of an emoji's image from its code points.
pub fn image_url(unified: &str) -> (url: String)
    ensures
        url@ == image_url_text(unified@),
{
    let lower = unified.to_lowercase();
    String::from_str(CDN_URL).concat(lower.as_str()).concat(".png")
}

/// Turns the dataset into a map from short name to image address, leaving
/// out the records that have no image.
pub fn default_emoji_map(records: &Vec<DefaultEmojiRecord>) -> (m: EmojiMap)
    ensures
        m@ == dataset_view(records@),
{
    let mut m = EmojiMap::new();
    let mut i: usize = 0;
    while i < records.len()
        invariant
            i <= records@.len(),
            m@ == dataset_view(records@.take(i as int)),
        decreases records@.len() - i,
    {
        proof {
            assert(records@.take(i + 1).drop_last() == records@.take(i as int));
        }
        if records[i].has_img_twitter {
            let url = image_url(records[i].unified.as_str());
            m.insert(records[i].short_name.clone(), url);
        }
        i += 1;
    }
    proof {
        assert(records@.take(records@.len() as int) == records@);
    }
    m
}

/// A name is in the map exactly if some record with an image has it as its
/// short name.
pub proof fn lemma_dataset_keys(records: Seq<DefaultEmojiRecord>, k: Seq<char>)
    ensures
        dataset_view(records).contains_key(k) <==> exists|i: int|
            0 <= i < records.len() && listed_as(#[trigger] records[i], k),
    decreases records.len(),
{
    if records.len() > 0 {
        let rest = records.drop_last();
        lemma_dataset_keys(rest, k);
        if dataset_view(records).contains_key(k) {
            if listed_as(records.last(), k) {
                assert(listed_as(records[records.len() - 1], k));
            } else {
                let i = choose|i: int| 0 <= i < rest.len() && listed_as(#[trigger] rest[i], k);
                assert(listed_as(records[i], k));
            }
        }
        if exists|i: int| 0 <= i < records.len() && listed_as(#[trigger] records[i], k) {
            let i = choose|i: int| 0 <= i < records.len() && listed_as(#[trigger] records[i], k);
            if i < rest.len() {
                assert(listed_as(rest[i], k));
            }
        }
    }
}

/// A record without an image puts no name into the map: a name whose every
/// record lacks the image is not a key.
pub proof fn lemma_record_without_image_absent(records: Seq<DefaultEmojiRecord>, k: Seq<char>)
    requires
        forall|i: int|
            0 <= i < records.len() && (#[trigger] records[i]).short_name@ == k
                ==> !records[i].has_img_twitter,
    ensures
        !dataset_view(records).contains_key(k),
{
    lemma_dataset_keys(records, k);
}

/// The image under a name is the address built from the last record with an
/// image that has this short name.
pub proof fn lemma_dataset_last_wins(records: Seq<DefaultEmojiRecord>, i: int)
    requires
        0 <= i < records.len(),
        records[i].has_img_twitter,
        forall|j: int|
            i < j < records.len() ==> !listed_as(#[trigger] records[j], records[i].short_name@),
    ensures
        dataset_view(records).contains_key(records[i].short_name@),
        dataset_view(records)[records[i].short_name@] == image_url_text(records[i].unified@),
    decreases records.len(),
{
    let last = records.len() - 1;
    if i < last {
        let rest = records.drop_last();
        assert(rest[i] == records[i]);
        assert forall|j: int| i < j < rest.len() implies !listed_as(
            #[trigger] rest[j],
            rest[i].short_name@,
        ) by {
            assert(rest[j] == records[j]);
        }
        lemma_dataset_last_wins(rest, i);
        assert(!listed_as(records[last], records[i].short_name@));
    }
}

} // verus!
