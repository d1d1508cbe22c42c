use eros::dedup::{select_duplicates, sort_paths, DUPLICATE_MAX_DISTANCE};
use eros::fingerprint::{calculate_fingerprint, grid_fingerprint, hamming_distance};
use eros::raster::RgbRaster;

#[test]
fn test_hamming_distance() {
    assert_eq!(hamming_distance(0b1111, 0b0000), 4);
    assert_eq!(hamming_distance(0b1010, 0b1010), 0);
    assert_eq!(hamming_distance(0b11111111, 0b00000000), 8);
    assert_eq!(hamming_distance(u64::MAX, 0), 64);
}

#[test]
fn test_fingerprint_consistency() {
    let img = RgbRaster::filled(100, 100, 128, 128, 128);
    let fingerprint1 = calculate_fingerprint(&img);
    let fingerprint2 = calculate_fingerprint(&img);
    assert_eq!(fingerprint1, fingerprint2);
}

#[test]
fn test_fingerprint_difference() {
    let img1 = RgbRaster::filled(100, 100, 0, 0, 0);
    let img2 = RgbRaster::filled(100, 100, 255, 255, 255);
    let fingerprint1 = calculate_fingerprint(&img1);
    let fingerprint2 = calculate_fingerprint(&img2);
    assert!(hamming_distance(fingerprint1, fingerprint2) > 32);
}

#[test]
fn solid_images_hash_by_brightness() {
    assert_eq!(calculate_fingerprint(&RgbRaster::filled(10, 10, 0, 0, 0)), 0);
    assert_eq!(calculate_fingerprint(&RgbRaster::filled(10, 10, 255, 255, 255)), u64::MAX);
}

#[test]
fn grid_hash_sets_bits_at_or_above_mean() {
    // Top half dark, bottom half bright: mean is 100, bits 32..64 set.
    let mut grid = vec![0u8; 64];
    for v in grid.iter_mut().skip(32) {
        *v = 200;
    }
    assert_eq!(grid_fingerprint(&grid), 0xFFFF_FFFF_0000_0000);
    // A single bright cell at index 5 against a dark background.
    let mut grid = vec![10u8; 64];
    grid[5] = 250;
    // mean = (63*10 + 250) / 64 = 13.75, so only cell 5 is at or above it.
    assert_eq!(grid_fingerprint(&grid), 1 << 5);
    // One sample of 1 among zeros: the mean is 1/64, so only that sample reaches it.
    let mut grid = vec![0u8; 64];
    grid[9] = 1;
    assert_eq!(grid_fingerprint(&grid), 1 << 9);
}

#[test]
fn fingerprint_of_split_image_is_not_solid() {
    // Left half black, right half white: the resampled grid is not solid.
    let mut img = RgbRaster::filled(64, 64, 0, 0, 0);
    for y in 0..64 {
        for x in 32..64 {
            img.put_pixel(x, y, 255, 255, 255);
        }
    }
    let fp = calculate_fingerprint(&img);
    assert_ne!(fp, 0);
    assert_ne!(fp, u64::MAX);
    // Column 0 of each row is dark, column 7 bright.
    for row in 0..8 {
        assert_eq!((fp >> (row * 8)) & 1, 0);
        assert_eq!((fp >> (row * 8 + 7)) & 1, 1);
    }
}

fn inverted(img: &RgbRaster) -> RgbRaster {
    let data = img.data.iter().map(|v| 255 - v).collect();
    RgbRaster::from_raw(img.width, img.height, data).unwrap()
}

#[test]
fn test_remove_duplicate_images_integration() {
    let paths = vec![
        "d_different.png".to_string(),
        "c_similar.png".to_string(),
        "a_original.png".to_string(),
        "b_duplicate.png".to_string(),
    ];
    let sorted = sort_paths(paths);
    assert_eq!(sorted, vec!["a_original.png", "b_duplicate.png", "c_similar.png", "d_different.png"]);

    let original = RgbRaster::filled(100, 100, 80, 120, 160);
    let duplicate = RgbRaster::filled(100, 100, 80, 120, 160);
    let mut similar = RgbRaster::filled(100, 100, 80, 120, 160);
    similar.put_pixel(50, 50, 81, 121, 161);
    let different = RgbRaster::filled(100, 100, 200, 220, 250);
    let fps: Vec<Option<u64>> = [&original, &duplicate, &similar, &different]
        .iter()
        .map(|img| Some(calculate_fingerprint(img)))
        .collect();
    let removed = select_duplicates(&fps, DUPLICATE_MAX_DISTANCE);
    assert!(!removed[0], "Original image should not be removed.");
    assert!(removed[1], "Exact duplicate should have been removed.");
    assert!(removed[2], "Similar image should have been removed.");
    assert!(!removed[3], "Different image should not be removed.");
}

#[test]
fn dedup_keeps_original_and_inverted_copy() {
    let a = RgbRaster::filled(100, 100, 80, 120, 160);
    let b = RgbRaster::filled(100, 100, 80, 120, 160);
    let mut c = RgbRaster::filled(100, 100, 80, 120, 160);
    c.put_pixel(10, 10, 81, 120, 160);
    let d = inverted(&a);
    let fps: Vec<Option<u64>> =
        [&a, &b, &c, &d].iter().map(|img| Some(calculate_fingerprint(img))).collect();
    let removed = select_duplicates(&fps, DUPLICATE_MAX_DISTANCE);
    assert_eq!(removed, vec![false, true, true, false]);
}

#[test]
fn three_near_duplicates_and_one_distinct_leave_two() {
    let base: u64 = 0x0123_4567_89AB_CDEF;
    let fps = vec![Some(base), Some(base ^ 0b1), Some(base ^ 0b11_1111), Some(!base)];
    let removed = select_duplicates(&fps, DUPLICATE_MAX_DISTANCE);
    assert_eq!(removed, vec![false, true, true, false]);
    assert_eq!(removed.iter().filter(|r| !**r).count(), 2);
}

#[test]
fn dedup_skips_undecodable_and_removed_items() {
    // Item 1 has no fingerprint: never removed, never a reason to remove.
    // Item 3 is near item 2 only, which is removed, so item 3 stays.
    let fps = vec![Some(0u64), None, Some(0b111), Some(0b111_1111_1000)];
    let removed = select_duplicates(&fps, 6);
    assert_eq!(removed, vec![false, false, true, false]);
    assert_eq!(select_duplicates(&vec![], 6), Vec::<bool>::new());
    // Distance exactly at the limit counts; one more does not.
    assert_eq!(select_duplicates(&vec![Some(0), Some(0b11_1111)], 6), vec![false, true]);
    assert_eq!(select_duplicates(&vec![Some(0), Some(0b111_1111)], 6), vec![false, false]);
}

#[test]
fn sort_paths_orders_by_characters() {
    let sorted = sort_paths(vec!["b/a.png".to_string(), "a-b.png".to_string(), "a/b.png".to_string()]);
    assert_eq!(sorted, vec!["a-b.png", "a/b.png", "b/a.png"]);
}
