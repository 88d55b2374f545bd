use kvstore::compression::{infer_mime, Compressor};
use kvstore::kvs::compression::CompressionKvs;
use kvstore::kvs::memory::MemKvs;
use kvstore::kvs::{Kvs, KvsError};

#[test]
fn test_attach_content_type() {
    assert_eq!(infer_mime("/index.html"), "text/html");
}

#[test]
fn mime_defaults_to_octet_stream() {
    assert_eq!(infer_mime("k0"), "application/octet-stream");
    assert_eq!(infer_mime(""), "application/octet-stream");
}

#[test]
fn codec_selection() {
    assert!(matches!(Compressor::new("image/png"), Compressor::Webp));
    assert!(matches!(Compressor::new("image/webp"), Compressor::Webp));
    assert!(matches!(
        Compressor::new("application/vnd.oasis.opendocument.image"),
        Compressor::Webp
    ));
    assert!(matches!(Compressor::new("text/html"), Compressor::Zstd));
    assert!(matches!(Compressor::new("text/imag"), Compressor::Zstd));
    assert!(matches!(
        Compressor::new("application/octet-stream"),
        Compressor::Zstd
    ));
}

#[test]
fn memkvs_basics() {
    let mut store = MemKvs::new();
    assert_eq!(store.get("a").unwrap(), None);
    assert_eq!(store.insert("a", vec![1, 2, 3]).unwrap(), None);
    assert_eq!(store.get("a").unwrap(), Some(vec![1, 2, 3]));
    assert_eq!(store.insert("a", vec![4]).unwrap(), Some(vec![1, 2, 3]));
    assert_eq!(store.get("a").unwrap(), Some(vec![4]));
    assert_eq!(store.remove("a").unwrap(), Some(vec![4]));
    assert_eq!(store.get("a").unwrap(), None);
    assert_eq!(store.remove("a").unwrap(), None);
}

#[test]
fn generic_round_trip() {
    let mut store = CompressionKvs::new(MemKvs::new());
    assert_eq!(store.insert("notes/a.txt", b"hello".to_vec()).unwrap(), None);
    assert_eq!(store.get("notes/a.txt").unwrap(), Some(b"hello".to_vec()));
}

#[test]
fn generic_round_trip_empty_value() {
    let mut store = CompressionKvs::new(MemKvs::new());
    assert_eq!(store.insert("notes/empty.txt", Vec::new()).unwrap(), None);
    assert_eq!(store.get("notes/empty.txt").unwrap(), Some(Vec::new()));
}

#[test]
fn stored_form_is_compressed() {
    let mut store = CompressionKvs::new(MemKvs::new());
    store.insert("notes/a.txt", b"hello".to_vec()).unwrap();
    let prev = store
        .insert("notes/a.txt", b"world".to_vec())
        .unwrap()
        .unwrap();
    // the previous entry comes back in its stored form, not re-expanded
    assert_ne!(prev, b"hello".to_vec());
    assert_eq!(store.get("notes/a.txt").unwrap(), Some(b"world".to_vec()));
}

#[test]
fn overwrite_previous_is_deterministic() {
    let mut store = CompressionKvs::new(MemKvs::new());
    store.insert("k.txt", b"v1".to_vec()).unwrap();
    let p1 = store.insert("k.txt", b"v2".to_vec()).unwrap().unwrap();
    store.insert("k.txt", b"v1".to_vec()).unwrap();
    let p2 = store.insert("k.txt", b"v2".to_vec()).unwrap().unwrap();
    assert_eq!(p1, p2);
    assert_eq!(store.get("k.txt").unwrap(), Some(b"v2".to_vec()));
}

#[test]
fn absent_key() {
    let mut store = CompressionKvs::new(MemKvs::new());
    assert_eq!(store.get("missing").unwrap(), None);
    assert_eq!(store.remove("missing").unwrap(), None);
}

fn sample_png() -> Vec<u8> {
    let img = image::RgbImage::from_pixel(4, 4, image::Rgb([10, 200, 30]));
    let mut cursor = std::io::Cursor::new(Vec::new());
    img.write_to(&mut cursor, image::ImageFormat::Png).unwrap();
    cursor.into_inner()
}

#[test]
fn image_round_trip() {
    let png = sample_png();
    let mut store = CompressionKvs::new(MemKvs::new());
    assert_eq!(store.insert("img/p.png", png.clone()).unwrap(), None);
    let first = store.get("img/p.png").unwrap().unwrap();
    // the transcoded bytes come back, not the original upload
    assert_ne!(first, png);
    // a webp container: RIFF header with the WEBP tag
    assert_eq!(&first[0..4], b"RIFF");
    assert_eq!(&first[8..12], b"WEBP");
    // idempotent after the first write
    let second = store.get("img/p.png").unwrap().unwrap();
    assert_eq!(first, second);
    // an overwrite reports the stored (transcoded) form as the previous value
    let prev = store.insert("img/p.png", png).unwrap().unwrap();
    assert_eq!(prev, first);
}

#[test]
fn image_insert_rejects_undecodable_bytes() {
    let mut store = CompressionKvs::new(MemKvs::new());
    let err = store
        .insert("img/broken.png", b"not an image".to_vec())
        .unwrap_err();
    assert!(matches!(err, KvsError::Io(_)));
    // nothing was written
    assert_eq!(store.get("img/broken.png").unwrap(), None);
}

#[test]
fn error_messages() {
    let io = KvsError::Io("boom".to_string());
    assert_eq!(io.message(), "io error; boom");
    let other = KvsError::Other("lost".to_string());
    assert_eq!(other.message(), "other error; lost");
}
