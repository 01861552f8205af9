use mdx_model::blp::{blp_info_from_parts, compression_name, mipmap_selection, rgba_to_png_data_url};
use mdx_model::cache::{init_cache, MpqCache, MpqFileInfo};
use mdx_model::reader::MdxParser;

#[test]
fn test_decode_blp() {
    // Exercising the BLP container decoder needs a real texture payload;
    // the surrounding pieces are covered by the tests below.
}

#[test]
fn compression_kinds_are_named() {
    assert_eq!(compression_name(1), "JPEG");
    assert_eq!(compression_name(2), "Paletted");
    assert_eq!(compression_name(3), "DXT");
    assert_eq!(compression_name(0), "Unknown");
    assert_eq!(compression_name(200), "Unknown");
}

#[test]
fn blp_info_carries_header_fields() {
    let info = blp_info_from_parts(64, 32, 7, 3);
    assert_eq!(info.width, 64);
    assert_eq!(info.height, 32);
    assert_eq!(info.mipmap_count, 7);
    assert_eq!(info.format, "DXT");
}

#[test]
fn mipmap_selection_masks_one_level() {
    let mask = mipmap_selection(4, 2).unwrap();
    assert_eq!(mask, vec![false, false, true, false]);
    assert!(mipmap_selection(4, 4).is_none());
    assert!(mipmap_selection(0, 0).is_none());
}

#[test]
fn png_data_url_round_trip() {
    // A 2x1 image: one red and one translucent green pixel.
    let data = vec![255, 0, 0, 255, 0, 255, 0, 128];
    let url = rgba_to_png_data_url(2, 1, data.clone()).unwrap();
    let b64 = url.strip_prefix("data:image/png;base64,").unwrap();
    assert!(!b64.is_empty());
    assert_eq!(b64.len() % 4, 0);
    assert!(b64
        .bytes()
        .all(|c| c.is_ascii_alphanumeric() || c == b'+' || c == b'/' || c == b'='));
    // The encoded payload is a PNG, not the raw samples.
    assert!(b64.starts_with("iVBOR")); // base64 of the PNG signature
    // A short buffer cannot be assembled.
    assert!(rgba_to_png_data_url(2, 1, vec![1, 2, 3]).is_err());
}

#[test]
fn cache_insert_lookup_and_clear() {
    let mut cache = MpqCache::new();
    let war3 = String::from("war3.mpq");
    let war3x = String::from("war3x.mpq");
    assert!(cache.lookup(&war3).is_none());

    cache.insert(
        war3.clone(),
        vec![MpqFileInfo { name: String::from("unit\\footman.mdx"), size: 0 }],
    );
    cache.insert(
        war3x.clone(),
        vec![MpqFileInfo { name: String::from("abilities\\heal.mdx"), size: 0 }],
    );
    assert_eq!(cache.lookup(&war3).unwrap()[0].name, "unit\\footman.mdx");
    assert_eq!(cache.lookup(&war3x).unwrap()[0].name, "abilities\\heal.mdx");

    // Reinserting a key replaces its listing and leaves the other key alone.
    cache.insert(war3.clone(), vec![]);
    assert!(cache.lookup(&war3).unwrap().is_empty());
    assert_eq!(cache.lookup(&war3x).unwrap().len(), 1);

    cache.clear();
    assert!(cache.lookup(&war3).is_none());
    assert!(cache.lookup(&war3x).is_none());
}

#[test]
fn init_cache_is_idempotent() {
    let mut slot: Option<MpqCache> = None;
    init_cache(&mut slot);
    assert!(slot.is_some());
    slot.as_mut().unwrap().insert(String::from("a.mpq"), vec![]);
    init_cache(&mut slot);
    assert!(slot.as_ref().unwrap().lookup(&String::from("a.mpq")).is_some());
}

#[test]
fn keywords_and_strings_read_as_documented() {
    let mut bytes = b"MDLXhi\0paddVERS".to_vec();
    bytes.extend_from_slice(&[0, 0]);
    let mut parser = MdxParser::new(bytes).unwrap();
    let magic = parser.read_keyword().unwrap();
    assert_eq!(&magic, b"MDLX");
    // A 7-byte slot: the logical string stops at the first null, all seven
    // bytes are consumed.
    let s = parser.read_string(7).unwrap();
    assert_eq!(s, "hi");
    assert_eq!(parser.position(), 11);
    let tag = parser.read_keyword().unwrap();
    assert_eq!(&tag, b"VERS");
    // Fewer than four bytes remain: the next keyword read fails.
    assert!(parser.read_keyword().is_err());
}
