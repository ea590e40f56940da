use boxbreaker::hash::{hamming, phash, phash_bytes};
use boxbreaker::index::{find_matches, index_card, rank_matches, HashEntry, HashIndex};

fn png_bytes(w: u32, h: u32, f: impl Fn(u32, u32) -> u8) -> Vec<u8> {
    let img = image::GrayImage::from_fn(w, h, |x, y| image::Luma([f(x, y)]));
    let mut out = std::io::Cursor::new(Vec::new());
    image::DynamicImage::ImageLuma8(img).write_to(&mut out, image::ImageFormat::Png).unwrap();
    out.into_inner()
}

#[test]
fn hamming_counts_differing_bits() {
    assert_eq!(hamming(0, 0), 0);
    assert_eq!(hamming(0b1011, 0b0001), 2);
    assert_eq!(hamming(u64::MAX, 0), 64);
    assert_eq!(hamming(0xF0, 0x0F), hamming(0x0F, 0xF0));
}

#[test]
fn luma_hash_marks_pixels_brighter_than_mean() {
    assert_eq!(phash(&[]), 0);
    assert_eq!(phash(&[10, 10, 10]), 0);
    assert_eq!(phash(&[0, 255, 0, 255]), 0b1010);
    // Bit 8 * r + c comes from column c of row r of the 32-wide thumbnail.
    let mut px = vec![0u8; 1024];
    px[0] = 200; // (0, 0): bit 0
    px[32] = 200; // (0, 1): bit 8
    px[63] = 200; // (31, 1): outside the 8 by 8 region
    px[64] = 200; // (0, 2): bit 16
    px[231] = 200; // (7, 7): bit 63
    assert_eq!(phash(&px), 1 | (1 << 8) | (1 << 16) | (1 << 63));
    let mut row0 = vec![0u8; 1024];
    row0[8] = 255; // (8, 0): outside the region
    assert_eq!(phash(&row0), 0);
}

#[test]
fn image_bytes_decode_and_hash() {
    assert_eq!(phash_bytes(b"not an image"), None);
    let bytes = png_bytes(32, 32, |x, y| if (x + y) % 2 == 0 { 255 } else { 0 });
    let h = phash_bytes(&bytes).expect("a png decodes");
    let thumb = image::load_from_memory(&bytes)
        .unwrap()
        .resize_exact(32, 32, image::imageops::FilterType::Lanczos3)
        .grayscale()
        .to_luma8()
        .into_raw();
    assert_eq!(thumb.len(), 1024);
    assert_eq!(phash(&thumb), h);
    // A 32 by 32 checkerboard is its own thumbnail: in the 8 by 8 region the
    // bright squares are those with column plus row even.
    assert_eq!(h, 0xAA55_AA55_AA55_AA55);
    let left = png_bytes(64, 64, |x, _| if x < 32 { 0 } else { 255 });
    // The region lies in the dark left half.
    assert_eq!(phash_bytes(&left), Some(0));
}

fn entry(hash: u64, name: &str) -> HashEntry {
    HashEntry {
        hash,
        card_name: name.to_string(),
        game: "Pokemon".to_string(),
        set_name: "Set".to_string(),
        image_url: String::new(),
    }
}

#[test]
fn rank_orders_by_distance_then_index_order() {
    let index = HashIndex {
        entries: vec![
            ("a".to_string(), entry(0b1111, "A")),
            ("b".to_string(), entry(0b0001, "B")),
            ("c".to_string(), entry(0b0000, "C")),
            ("d".to_string(), entry(0b0010, "D")),
        ],
    };
    let r = rank_matches(0, &index, 3);
    let ids: Vec<(&str, u32)> = r.iter().map(|m| (m.card_id.as_str(), m.distance)).collect();
    assert_eq!(ids, vec![("c", 0), ("b", 1), ("d", 1)]);
    assert_eq!(rank_matches(0, &index, 10).len(), 4);
    assert!(rank_matches(0, &index, 0).is_empty());
}

#[test]
fn index_card_adds_each_card_once() {
    let mut index = HashIndex::new();
    let bytes = png_bytes(40, 40, |x, y| ((x * 7 + y * 3) % 256) as u8);
    index_card("id1", "Name", "Pokemon", "Set", "http://img", &bytes, &mut index);
    assert_eq!(index.entries.len(), 1);
    assert_eq!(index.entries[0].1.card_name, "Name");
    index_card("id1", "Other", "Pokemon", "Set", "http://img", &bytes, &mut index);
    assert_eq!(index.entries.len(), 1);
    assert_eq!(index.entries[0].1.card_name, "Name");
    index_card("id2", "Bad", "Pokemon", "Set", "", b"garbage", &mut index);
    assert_eq!(index.entries.len(), 1);
    assert!(index.contains_key("id1"));
    assert!(!index.contains_key("id2"));
    let m = find_matches(&bytes, &index, 3);
    assert_eq!(m.len(), 1);
    assert_eq!(m[0].distance, 0);
    assert!(find_matches(b"garbage", &index, 3).is_empty());
}

#[test]
fn hash_index_duplicate_copies_every_entry() {
    let mut index = HashIndex::new();
    let dark = png_bytes(32, 32, |x, _| if x < 16 { 0 } else { 255 });
    let light = png_bytes(32, 32, |_, y| if y < 16 { 255 } else { 0 });
    index_card("a", "Alpha", "Pokemon", "Set A", "u1", &dark, &mut index);
    index_card("b", "Beta", "MagicTheGathering", "Set B", "u2", &light, &mut index);
    let copy = index.duplicate();
    assert_eq!(copy.entries.len(), 2);
    for (c, o) in copy.entries.iter().zip(index.entries.iter()) {
        assert_eq!(c.0, o.0);
        assert_eq!(c.1.hash, o.1.hash);
        assert_eq!(c.1.card_name, o.1.card_name);
        assert_eq!(c.1.game, o.1.game);
        assert_eq!(c.1.set_name, o.1.set_name);
        assert_eq!(c.1.image_url, o.1.image_url);
    }
}

#[test]
fn hamming_zero_only_for_equal_hashes_and_triangle() {
    assert_eq!(hamming(0, u64::MAX), 64);
    assert_ne!(hamming(5, 4), 0);
    let (a, b, c) = (0b1100u64, 0b1010u64, 0b0110u64);
    assert!(hamming(a, c) <= hamming(a, b) + hamming(b, c));
}

#[test]
fn index_card_stores_the_hash_of_the_image() {
    let mut index = HashIndex::new();
    let bytes = png_bytes(32, 32, |x, y| if (x + y) % 2 == 0 { 255 } else { 0 });
    index_card("a", "Alpha", "Pokemon", "Set A", "u1", &bytes, &mut index);
    assert_eq!(index.entries[0].1.hash, phash_bytes(&bytes).unwrap());
    assert_eq!(index.entries[0].1.hash, 0xAA55_AA55_AA55_AA55);
    index_card("a", "Other", "Pokemon", "Set A", "u1", &bytes, &mut index);
    assert_eq!(index.entries.len(), 1);
    assert_eq!(index.entries[0].1.card_name, "Alpha");
}

#[test]
fn matches_never_repeat_a_card() {
    let mut index = HashIndex::new();
    let a = png_bytes(32, 32, |x, y| if (x + y) % 2 == 0 { 255 } else { 0 });
    let b = png_bytes(32, 32, |x, _| if x % 2 == 0 { 255 } else { 0 });
    index_card("a", "A", "Pokemon", "S", "", &a, &mut index);
    index_card("b", "B", "Pokemon", "S", "", &b, &mut index);
    index_card("a", "A again", "Pokemon", "S", "", &b, &mut index);
    let m = find_matches(&a, &index, 5);
    assert_eq!(m.len(), 2);
    assert_eq!(m[0].card_id, "a");
    assert_eq!(m[0].distance, 0);
    assert_eq!(m[1].card_id, "b");
}
