use vstd::prelude::*;
use vstd::string::StringExecFns;
use image::{DynamicImage, ImageOutputFormat};
use crate::document::{BodyView, ObjectBody, IndirectObject, ObjectView};

verus! {

/// The bounds that a recompressed image is scaled to fit.
pub const MAX_IMAGE_WIDTH: u32 = 1200;

pub const MAX_IMAGE_HEIGHT: u32 = 1600;

/// The JPEG quality of a recompressed image.
pub const JPEG_QUALITY: u8 = 70;

#[verifier::external_type_specification]
#[verifier::external_body]
pub struct ExDynamicImage(DynamicImage);

/// The name `Image`.
pub open spec fn image_name() -> Seq<u8> {
    seq![73u8, 109u8, 97u8, 103u8, 101u8]
}

/// An object is an image when it is a stream whose dictionary names the
/// subtype `Image`.
pub open spec fn is_image_view(b: BodyView) -> bool {
    match b {
        BodyView::Stream { subtype: Some(t), content: _ } => t == image_name(),
        _ => false,
    }
}

/// The numbers and generations of the image objects among `objects`, in order.
pub open spec fn image_ids_of(objects: Seq<ObjectView>) -> Seq<(u32, u16)>
    decreases objects.len(),
{
    if objects.len() == 0 {
        Seq::empty()
    } else {
        let last = objects.last();
        let rest = image_ids_of(objects.drop_last());
        if is_image_view(last.body) {
            rest.push((last.id, last.generation))
        } else {
            rest
        }
    }
}

/// The values of a sequence of objects.
pub open spec fn views(objects: Seq<IndirectObject>) -> Seq<ObjectView> {
    objects.map_values(|o: IndirectObject| o@)
}

fn bytes_equal(a: &[u8], b: &[u8]) -> (r: bool)
    ensures
        r == (a@ == b@),
{
    if a.len() != b.len() {
        return false;
    }
    let mut i: usize = 0;
    while i < a.len()
        invariant
            i <= a@.len(),
            a@.len() == b@.len(),
            a@.subrange(0, i as int) == b@.subrange(0, i as int),
        decreases a@.len() - i,
    {
        if a[i] != b[i] {
            assert(a@[i as int] != b@[i as int]);
            return false;
        }
        assert(a@.subrange(0, i + 1) =~= a@.subrange(0, i as int).push(a@[i as int]));
        assert(b@.subrange(0, i + 1) =~= b@.subrange(0, i as int).push(b@[i as int]));
        i = i + 1;
    }
    assert(a@ =~= a@.subrange(0, a@.len() as int));
    assert(b@ =~= b@.subrange(0, b@.len() as int));
    true
}

/// Tells whether an object is an image stream.
pub fn is_image(obj: &ObjectBody) -> (r: bool)
    ensures
        r == is_image_view(obj@),
{
    match obj {
        ObjectBody::Stream(s) => match &s.subtype {
            Some(t) => {
                let name: [u8; 5] = [73u8, 109u8, 97u8, 103u8, 101u8];
                assert(name@ =~= image_name());
                bytes_equal(t.as_slice(), &name)
            },
            None => false,
        },
        _ => false,
    }
}

/// The numbers and generations of the image objects, in the order they stand.
pub fn image_ids(objects: &Vec<IndirectObject>) -> (r: Vec<(u32, u16)>)
    ensures
        r@ == image_ids_of(views(objects@)),
{
    let mut r: Vec<(u32, u16)> = Vec::new();
    let mut i: usize = 0;
    while i < objects.len()
        invariant
            i <= objects@.len(),
            r@ == image_ids_of(views(objects@.subrange(0, i as int))),
        decreases objects@.len() - i,
    {
        let ghost before = views(objects@.subrange(0, i as int));
        let ghost after = views(objects@.subrange(0, i + 1));
        assert(after.drop_last() =~= before);
        assert(after.last() == objects@[i as int]@);
        if is_image(&objects[i].body) {
            r.push((objects[i].id, objects[i].generation));
        }
        i = i + 1;
    }
    assert(objects@.subrange(0, objects@.len() as int) =~= objects@);
    r
}

/// Whether `image::load_from_memory` decodes `bytes` to an image.
pub uninterp spec fn decodes(bytes: Seq<u8>) -> bool;

/// Relies on `image::load_from_memory`: decodes an image in one of the
/// enabled formats, or fails; which of the two depends on the bytes alone.
#[verifier::external_body]
fn decode_image(bytes: &[u8]) -> (r: Option<DynamicImage>)
    ensures
        r is Some == decodes(bytes@),
{
    image::load_from_memory(bytes).ok()
}

/// Relies on `DynamicImage::resize` with a triangle filter: the image scaled
/// to the largest size that fits the bounds, keeping its aspect ratio.
#[verifier::external_body]
fn resize_image(img: &DynamicImage, width: u32, height: u32) -> (r: DynamicImage) {
    img.resize(width, height, image::imageops::FilterType::Triangle)
}

/// Relies on `DynamicImage::write_to` with the JPEG encoder at `quality`:
/// the encoded bytes, or a failure.
#[verifier::external_body]
fn encode_jpeg(img: &DynamicImage, quality: u8) -> (r: Option<Vec<u8>>) {
    let mut buffer: Vec<u8> = Vec::new();
    match img.write_to(&mut std::io::Cursor::new(&mut buffer), ImageOutputFormat::Jpeg(quality)) {
        Ok(()) => Some(buffer),
        Err(_) => None,
    }
}

/// Why an image stream was left as it was.
#[derive(Clone, Copy, Debug, PartialEq, Eq, Structural)]
pub enum SkipReason {
    /// Its content could not be decompressed.
    NotDecompressed,
    /// Its content is not an image in a known format.
    NotDecoded,
    /// The scaled image could not be encoded as JPEG.
    NotEncoded,
}

/// Decodes an image stream's content, scales it down to fit the bounds and
/// encodes it as JPEG; or says why that could not be done, in which case the
/// stream is left as it is.
pub fn recompress_image(content: &[u8]) -> (r: Result<Vec<u8>, SkipReason>)
    ensures
        (r == Err::<Vec<u8>, SkipReason>(SkipReason::NotDecoded)) == !decodes(content@),
        r != Err::<Vec<u8>, SkipReason>(SkipReason::NotDecompressed),
{
    match decode_image(content) {
        Some(img) => {
            let resized = resize_image(&img, MAX_IMAGE_WIDTH, MAX_IMAGE_HEIGHT);
            match encode_jpeg(&resized, JPEG_QUALITY) {
                Some(jpeg) => Ok(jpeg),
                None => Err(SkipReason::NotEncoded),
            }
        },
        None => Err(SkipReason::NotDecoded),
    }
}

/// The name `DCTDecode`, the filter of JPEG data.
pub open spec fn dct_decode_name() -> Seq<u8> {
    seq![68u8, 67u8, 84u8, 68u8, 101u8, 99u8, 111u8, 100u8, 101u8]
}

/// A recompressed image stream: its new content, and the filter to name in
/// its dictionary in place of the old one. Its old `Length` entry no longer
/// holds and is dropped.
pub struct RecompressedStream {
    pub content: Vec<u8>,
    pub filter: Vec<u8>,
}

/// What becomes of an image stream, given its decompressed content (`None`
/// where it could not be decompressed): JPEG content under the `DCTDecode`
/// filter, or the reason it is left as it is.
pub fn recompress_stream(decompressed: Option<Vec<u8>>) -> (r: Result<RecompressedStream, SkipReason>)
    ensures
        decompressed is None <==> (r matches Err(SkipReason::NotDecompressed)),
        decompressed is Some ==> ((r matches Err(SkipReason::NotDecoded)) <==> !decodes(
            decompressed->0@,
        )),
        r matches Ok(s) ==> s.filter@ == dct_decode_name(),
{
    match decompressed {
        None => Err(SkipReason::NotDecompressed),
        Some(content) => match recompress_image(content.as_slice()) {
            Ok(jpeg) => {
                let filter: Vec<u8> = vec![68u8, 67u8, 84u8, 68u8, 101u8, 99u8, 111u8, 100u8, 101u8];
                assert(filter@ =~= dct_decode_name());
                Ok(RecompressedStream { content: jpeg, filter })
            },
            Err(e) => Err(e),
        },
    }
}

/// How the image streams of a document fared.
pub struct CompressionSummary {
    pub recompressed: usize,
    pub not_decompressed: usize,
    pub not_decoded: usize,
    pub not_encoded: usize,
}

/// How many of `outcomes` are `outcome`.
pub open spec fn count_of(outcomes: Seq<Option<SkipReason>>, outcome: Option<SkipReason>) -> nat
    decreases outcomes.len(),
{
    if outcomes.len() == 0 {
        0
    } else {
        count_of(outcomes.drop_last(), outcome) + if outcomes.last() == outcome {
            1nat
        } else {
            0nat
        }
    }
}

proof fn lemma_count_bounded(outcomes: Seq<Option<SkipReason>>, outcome: Option<SkipReason>)
    ensures
        count_of(outcomes, outcome) <= outcomes.len(),
    decreases outcomes.len(),
{
    if outcomes.len() > 0 {
        lemma_count_bounded(outcomes.drop_last(), outcome);
    }
}

/// Counts the outcomes of the image streams of a document: `None` for one
/// that was recompressed, else the reason it was skipped.
pub fn summarize(outcomes: &Vec<Option<SkipReason>>) -> (r: CompressionSummary)
    ensures
        r.recompressed == count_of(outcomes@, None),
        r.not_decompressed == count_of(outcomes@, Some(SkipReason::NotDecompressed)),
        r.not_decoded == count_of(outcomes@, Some(SkipReason::NotDecoded)),
        r.not_encoded == count_of(outcomes@, Some(SkipReason::NotEncoded)),
{
    let mut r = CompressionSummary {
        recompressed: 0,
        not_decompressed: 0,
        not_decoded: 0,
        not_encoded: 0,
    };
    let mut i: usize = 0;
    while i < outcomes.len()
        invariant
            i <= outcomes@.len(),
            r.recompressed == count_of(outcomes@.subrange(0, i as int), None),
            r.not_decompressed == count_of(
                outcomes@.subrange(0, i as int),
                Some(SkipReason::NotDecompressed),
            ),
            r.not_decoded == count_of(
                outcomes@.subrange(0, i as int),
                Some(SkipReason::NotDecoded),
            ),
            r.not_encoded == count_of(
                outcomes@.subrange(0, i as int),
                Some(SkipReason::NotEncoded),
            ),
        decreases outcomes@.len() - i,
    {
        let ghost next = outcomes@.subrange(0, i + 1);
        assert(next.drop_last() =~= outcomes@.subrange(0, i as int));
        proof {
            lemma_count_bounded(outcomes@.subrange(0, i as int), None);
            lemma_count_bounded(outcomes@.subrange(0, i as int), Some(SkipReason::NotDecompressed));
            lemma_count_bounded(outcomes@.subrange(0, i as int), Some(SkipReason::NotDecoded));
            lemma_count_bounded(outcomes@.subrange(0, i as int), Some(SkipReason::NotEncoded));
        }
        match outcomes[i] {
            None => r.recompressed = r.recompressed + 1,
            Some(SkipReason::NotDecompressed) => r.not_decompressed = r.not_decompressed + 1,
            Some(SkipReason::NotDecoded) => r.not_decoded = r.not_decoded + 1,
            Some(SkipReason::NotEncoded) => r.not_encoded = r.not_encoded + 1,
        }
        i = i + 1;
    }
    assert(outcomes@.subrange(0, outcomes@.len() as int) =~= outcomes@);
    r
}

/// The decimal digit `d`.
pub open spec fn digit_char(d: nat) -> char {
    seq!['0', '1', '2', '3', '4', '5', '6', '7', '8', '9'][d as int]
}

/// The decimal notation of `n`, without leading zeros.
pub open spec fn decimal(n: nat) -> Seq<char>
    decreases n,
{
    if n < 10 {
        seq![digit_char(n)]
    } else {
        decimal(n / 10).push(digit_char(n % 10))
    }
}

/// The share of the old size saved, in whole percent: 100 less the new
/// size as a percentage of the old one (rounded down), and 0 where the
/// document grew.
pub open spec fn saved_percent(old_size: u64, new_size: u64) -> nat
    recommends
        old_size > 0,
{
    let kept = (new_size * 100) as nat / old_size as nat;
    if kept >= 100 {
        0
    } else {
        (100 - kept) as nat
    }
}

/// The label of a size reduction: `-` and the saved percentage and `%`, or
/// `0%` where the old size is zero.
pub open spec fn savings_label_of(old_size: u64, new_size: u64) -> Seq<char> {
    if old_size == 0 {
        seq!['0', '%']
    } else {
        seq!['-'] + decimal(saved_percent(old_size, new_size)) + seq!['%']
    }
}

/// Relies on `u64`'s `Display` through `ToString::to_string`: the number in
/// decimal, without leading zeros.
#[verifier::external_body]
fn decimal_string(n: u64) -> (r: String)
    ensures
        r@ == decimal(n as nat),
{
    n.to_string()
}

/// Labels the reduction from `old_size` to `new_size` bytes.
pub fn savings_label(old_size: u64, new_size: u64) -> (r: String)
    ensures
        r@ == savings_label_of(old_size, new_size),
{
    if old_size == 0 {
        let r = "0%".to_owned();
        proof {
            reveal_strlit("0%");
        }
        assert(r@ =~= seq!['0', '%']);
        r
    } else {
        let kept: u128 = (new_size as u128) * 100 / (old_size as u128);
        let percent: u64 = if kept >= 100 {
            0
        } else {
            (100 - kept) as u64
        };
        let digits = decimal_string(percent);
        let mut r = "-".to_owned();
        r.append(digits.as_str());
        r.append("%");
        proof {
            reveal_strlit("-");
            reveal_strlit("%");
        }
        assert(r@ =~= seq!['-'] + decimal(percent as nat) + seq!['%']);
        r
    }
}

} // verus!
