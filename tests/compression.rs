use pdf_secure::compress::{image_ids, is_image, recompress_image, recompress_stream, savings_label, summarize, SkipReason};
use pdf_secure::document::{IndirectObject, ObjectBody, StreamObject};

fn stream(subtype: Option<&[u8]>) -> ObjectBody {
    ObjectBody::Stream(StreamObject { subtype: subtype.map(|s| s.to_vec()), content: vec![0u8; 4] })
}

#[test]
fn image_streams_are_recognised() {
    assert!(is_image(&stream(Some(b"Image"))));
    assert!(!is_image(&stream(Some(b"Form"))));
    assert!(!is_image(&stream(Some(b"Imag"))));
    assert!(!is_image(&stream(None)));
    assert!(!is_image(&ObjectBody::Text(b"Image".to_vec())));
    assert!(!is_image(&ObjectBody::Other));
}

#[test]
fn image_ids_keep_document_order() {
    let objects = vec![
        IndirectObject { id: 4, generation: 0, body: stream(Some(b"Image")) },
        IndirectObject { id: 5, generation: 0, body: stream(None) },
        IndirectObject { id: 6, generation: 1, body: ObjectBody::Other },
        IndirectObject { id: 7, generation: 2, body: stream(Some(b"Image")) },
    ];
    assert_eq!(image_ids(&objects), vec![(4, 0), (7, 2)]);
    assert_eq!(image_ids(&Vec::new()), Vec::<(u32, u16)>::new());
}

#[test]
fn savings_label_of_empty_input_is_zero() {
    assert_eq!(savings_label(0, 100), "0%");
}

#[test]
fn savings_label_gives_reduction() {
    assert_eq!(savings_label(1000, 580), "-42%");
    assert_eq!(savings_label(1000, 0), "-100%");
    assert_eq!(savings_label(3, 1), "-67%");
}

#[test]
fn savings_label_of_growth_is_zero_reduction() {
    assert_eq!(savings_label(100, 100), "-0%");
    assert_eq!(savings_label(100, 250), "-0%");
}

#[test]
fn savings_label_handles_large_sizes() {
    assert_eq!(savings_label(u64::MAX, u64::MAX / 2), "-51%");
    assert_eq!(savings_label(u64::MAX, u64::MAX), "-0%");
}

#[test]
fn undecodable_image_is_left_alone() {
    assert_eq!(recompress_image(b"not an image"), Err(SkipReason::NotDecoded));
}

fn gradient_png(width: u32, height: u32) -> Vec<u8> {
    let img = image::RgbImage::from_fn(width, height, |x, y| {
        image::Rgb([(x % 256) as u8, (y % 256) as u8, ((x * y) % 256) as u8])
    });
    let mut out = Vec::new();
    image::DynamicImage::ImageRgb8(img)
        .write_to(&mut std::io::Cursor::new(&mut out), image::ImageOutputFormat::Png)
        .unwrap();
    out
}

#[test]
fn large_image_is_scaled_down_to_jpeg() {
    let png = gradient_png(1500, 2000);
    let jpeg = recompress_image(&png).expect("image recompresses");
    assert_eq!(&jpeg[..2], &[0xFF, 0xD8]);
    assert!(jpeg.len() < png.len());
    let back = image::load_from_memory(&jpeg).unwrap();
    assert_eq!((back.width(), back.height()), (1200, 1600));
}

#[test]
fn summary_counts_each_outcome() {
    let outcomes = vec![
        None,
        Some(SkipReason::NotDecoded),
        None,
        Some(SkipReason::NotDecompressed),
        Some(SkipReason::NotDecoded),
    ];
    let s = summarize(&outcomes);
    assert_eq!(s.recompressed, 2);
    assert_eq!(s.not_decompressed, 1);
    assert_eq!(s.not_decoded, 2);
    assert_eq!(s.not_encoded, 0);
    let empty = summarize(&Vec::new());
    assert_eq!(empty.recompressed + empty.not_decoded + empty.not_encoded, 0);
}

#[test]
fn stream_that_does_not_decompress_is_skipped() {
    assert!(matches!(recompress_stream(None), Err(SkipReason::NotDecompressed)));
}

#[test]
fn stream_that_does_not_decode_is_skipped() {
    assert!(matches!(recompress_stream(Some(b"garbage".to_vec())), Err(SkipReason::NotDecoded)));
}

#[test]
fn image_stream_becomes_dct_encoded() {
    let png = gradient_png(400, 300);
    let r = recompress_stream(Some(png)).expect("image recompresses");
    assert_eq!(r.filter, b"DCTDecode".to_vec());
    assert_eq!(&r.content[..2], &[0xFF, 0xD8]);
    let back = image::load_from_memory(&r.content).unwrap();
    assert_eq!((back.width(), back.height()), (1200, 900));
}
