use eros::pipeline::{decode, DecodeError};
use eros::score::{is_nan_key, score_bits, score_key};
use eros::tags::{read_table, LabelTags, Tag, TagCategory, TagTableError};

fn key(x: f32) -> u32 {
    score_key(x.to_bits())
}

fn catalog() -> LabelTags {
    let tags = vec![
        Tag::new(0, "general".to_string(), TagCategory::Rating, 10),
        Tag::new(1, "1girl".to_string(), TagCategory::General, 20),
        Tag::new(2, "solo".to_string(), TagCategory::General, 30),
        Tag::new(3, "hatsune_miku".to_string(), TagCategory::Character, 40),
        Tag::new(4, "some_artist".to_string(), TagCategory::Artist, 50),
        Tag::new(5, "long_hair".to_string(), TagCategory::General, 60),
        Tag::new(6, "sensitive".to_string(), TagCategory::Rating, 70),
    ];
    LabelTags::new(tags, None)
}

#[test]
fn test_create_probability_pairs() {
    let tags = catalog();
    let num_tags = tags.idx2tag().len();
    let probabilities = vec![vec![key(0.1); num_tags], vec![key(0.2); num_tags]];
    let pairs = tags.create_probality_pairs(&probabilities, &vec![]).unwrap();
    assert_eq!(pairs.len(), 2);
    assert_eq!(pairs[0].len(), num_tags);
    assert_eq!(pairs[1].len(), num_tags);
    let get = |row: &Vec<(String, u32)>, name: &str| row.iter().find(|(n, _)| n == name).unwrap().1;
    assert_eq!(f32::from_bits(score_bits(get(&pairs[0], "1girl"))), 0.1);
    assert_eq!(f32::from_bits(score_bits(get(&pairs[1], "1girl"))), 0.2);
}

#[test]
fn test_create_probability_pairs_mismatch() {
    let tags = catalog();
    let num_tags = tags.idx2tag().len();
    let probabilities = vec![vec![key(0.1); num_tags + 1]];
    let result = tags.create_probality_pairs(&probabilities, &vec![]);
    assert!(result.is_err());
    assert_eq!(result.clone().unwrap_err(), DecodeError::LengthMismatch { expected: num_tags, actual: num_tags + 1 });
    assert_eq!(result.unwrap_err().message(), "Tags and probabilities length mismatch");
}

#[test]
fn decode_filters_ranks_and_buckets() {
    let labels = catalog();
    let scores: Vec<u32> = [0.9f32, 0.6, 0.95, 0.7, 0.99, 0.6, 0.2].iter().map(|&x| key(x)).collect();
    let r = decode(&labels, &scores, key(0.5)).unwrap();
    let names = |p: &Vec<(String, u32)>| p.iter().map(|(n, _)| n.clone()).collect::<Vec<_>>();
    assert_eq!(names(&r.rating), vec!["general"]);
    assert_eq!(names(&r.character), vec!["hatsune_miku"]);
    // Equal scores of 1girl and long_hair keep catalog order; the artist tag is dropped.
    assert_eq!(names(&r.general), vec!["solo", "1girl", "long_hair"]);
    for p in [&r.rating, &r.character, &r.general] {
        assert!(p.iter().all(|(_, s)| *s >= key(0.5)));
        assert!(p.windows(2).all(|w| w[0].1 >= w[1].1));
    }
}

#[test]
fn decode_threshold_is_inclusive() {
    let labels = catalog();
    let scores: Vec<u32> = [0.5f32, 0.5, 0.49, 0.0, 1.0, -1.0, 0.5].iter().map(|&x| key(x)).collect();
    let r = decode(&labels, &scores, key(0.5)).unwrap();
    assert_eq!(r.rating.len(), 2);
    assert_eq!(r.rating[0].0, "general");
    assert_eq!(r.rating[1].0, "sensitive");
    assert_eq!(r.general.len(), 1);
    assert!(r.character.is_empty());
}

#[test]
fn decode_rejects_wrong_length() {
    let labels = catalog();
    let short = vec![key(0.9); 3];
    assert_eq!(
        decode(&labels, &short, key(0.5)).unwrap_err(),
        DecodeError::LengthMismatch { expected: 7, actual: 3 }
    );
    let long = vec![key(0.9); 8];
    assert!(decode(&labels, &long, key(0.5)).is_err());
}

#[test]
fn feature_length_follows_embedding_width() {
    let plain = catalog();
    assert!(plain.check_feature_len(7).is_ok());
    assert_eq!(plain.check_feature_len(6), Err(DecodeError::LengthMismatch { expected: 7, actual: 6 }));
    let projected = LabelTags::new(vec![], Some(4));
    assert!(projected.check_feature_len(4).is_ok());
    assert_eq!(
        projected.check_feature_len(7),
        Err(DecodeError::FeatureMismatch { expected: 4, actual: 7 })
    );
}

#[test]
fn score_keys_follow_float_order() {
    let xs = [-2.5f32, -1.0, -0.25, 0.0, 1e-6, 0.1, 0.5, 1.0, 3.0];
    for w in xs.windows(2) {
        assert!(key(w[0]) < key(w[1]));
    }
    for &x in &xs {
        assert_eq!(f32::from_bits(score_bits(key(x))), x);
    }
    assert_eq!(key(-0.0), key(0.0));
    assert!(is_nan_key(key(f32::NAN)));
    assert!(is_nan_key(key(-f32::NAN)));
    assert!(!is_nan_key(key(f32::INFINITY)));
    assert!(!is_nan_key(key(f32::NEG_INFINITY)));
}

#[test]
fn nan_scores_are_never_selected() {
    let labels = catalog();
    let scores: Vec<u32> = [f32::NAN, 0.7, 0.0, -f32::NAN, 0.0, -0.0, 0.9].iter().map(|&x| key(x)).collect();
    let r = decode(&labels, &scores, key(0.5)).unwrap();
    assert_eq!(r.rating.len(), 1);
    assert_eq!(r.rating[0].0, "sensitive");
    assert_eq!(r.general.len(), 1);
    assert_eq!(r.general[0].0, "1girl");
    // A zero threshold admits both zeros; they rank as equals, in catalog order.
    let r = decode(&labels, &scores, key(0.0)).unwrap();
    let general: Vec<_> = r.general.iter().map(|(n, _)| n.clone()).collect();
    assert_eq!(general, vec!["1girl", "solo", "long_hair"]);
    assert!(r.character.is_empty());
    let r = decode(&labels, &scores, key(-0.0)).unwrap();
    assert_eq!(r.general.len(), 3);
    // A NaN threshold selects nothing.
    let r = decode(&labels, &scores, key(f32::NAN)).unwrap();
    assert!(r.rating.is_empty() && r.general.is_empty() && r.character.is_empty());
}

#[test]
fn later_record_wins_name_lookup() {
    let tags = vec![
        Tag::new(1, "dup".to_string(), TagCategory::General, 1),
        Tag::new(2, "dup".to_string(), TagCategory::Character, 2),
    ];
    let lt = LabelTags::new(tags, None);
    let t = lt.label2tag("dup").unwrap();
    assert_eq!(t.tag_id(), 2);
    assert_eq!(t.category(), TagCategory::Character);
}

fn strings(v: &[&str]) -> Vec<String> {
    v.iter().map(|s| s.to_string()).collect()
}

#[test]
fn tag_table_reads_records() {
    let headers = strings(&["tag_id", "name", "category", "count", "embedding__0", "embedding__1"]);
    let records = vec![
        strings(&["9999999", "general", "9", "807489", "0.1", "0.2"]),
        strings(&["470575", "1girl", "0", "-3", "0.3", "0.4"]),
        strings(&["1", "hatsune_miku", "4", "+12", "0.5", "0.6"]),
    ];
    let lt = LabelTags::from_table(&headers, &records).unwrap();
    assert_eq!(lt.len(), 3);
    assert_eq!(lt.embedding_dim(), Some(2));
    let t = &lt.idx2tag()[1];
    assert_eq!(t.name(), "1girl");
    assert_eq!(t.tag_id(), 470575);
    assert_eq!(t.count(), -3);
    assert_eq!(t.category(), TagCategory::General);
    assert_eq!(lt.idx2tag()[2].count(), 12);
    assert_eq!(lt.label2tag("hatsune_miku").unwrap().category(), TagCategory::Character);
    assert!(lt.label2tag("missing").is_none());
}

#[test]
fn tag_table_errors() {
    let headers = strings(&["tag_id", "name", "category", "count"]);
    let ragged = vec![strings(&["1", "a", "0", "1"]), strings(&["2", "b", "0"])];
    assert_eq!(LabelTags::from_table(&headers, &ragged).unwrap_err(), TagTableError::RaggedRecord { row: 1 });
    let bad = vec![strings(&["1", "a", "0", "1"]), strings(&["2", "b", "2", "1"])];
    assert_eq!(LabelTags::from_table(&headers, &bad).unwrap_err(), TagTableError::BadRecord { row: 1 });
    let overflow = vec![strings(&["2147483648", "a", "0", "1"])];
    assert_eq!(LabelTags::from_table(&headers, &overflow).unwrap_err(), TagTableError::BadRecord { row: 0 });
    let no_count = strings(&["tag_id", "name", "category"]);
    let rows = vec![strings(&["1", "a", "0"])];
    assert_eq!(LabelTags::from_table(&no_count, &rows).unwrap_err(), TagTableError::MissingColumn);
    let empty = LabelTags::from_table(&no_count, &vec![]).unwrap();
    assert_eq!(empty.len(), 0);
    assert_eq!(empty.embedding_dim(), None);
}

#[test]
fn category_codes() {
    assert_eq!(TagCategory::from_code("0"), Some(TagCategory::General));
    assert_eq!(TagCategory::from_code("1"), Some(TagCategory::Artist));
    assert_eq!(TagCategory::from_code("3"), Some(TagCategory::Copyright));
    assert_eq!(TagCategory::from_code("4"), Some(TagCategory::Character));
    assert_eq!(TagCategory::from_code("5"), Some(TagCategory::Meta));
    assert_eq!(TagCategory::from_code("9"), Some(TagCategory::Rating));
    assert_eq!(TagCategory::from_code("2"), None);
    assert_eq!(TagCategory::from_code("00"), None);
}

#[test]
fn tag_table_from_csv_bytes() {
    let csv = b"tag_id,name,category,count\n9999999,general,9,807489\n470575,1girl,0,5\n";
    let (headers, records) = read_table(&csv.to_vec()).unwrap();
    assert_eq!(headers, vec!["tag_id", "name", "category", "count"]);
    assert_eq!(records.len(), 2);
    assert_eq!(records[1], vec!["470575", "1girl", "0", "5"]);
    let lt = LabelTags::from_table(&headers, &records).unwrap();
    assert_eq!(lt.idx2tag()[0].category(), TagCategory::Rating);
    let ragged = b"a,b\n1,2,3\n";
    assert_eq!(read_table(&ragged.to_vec()).unwrap_err(), TagTableError::Unreadable);
}

#[test]
fn projected_pairs_check_raw_width() {
    let tags = vec![
        Tag::new(0, "a".to_string(), TagCategory::General, 1),
        Tag::new(1, "b".to_string(), TagCategory::General, 1),
        Tag::new(2, "c".to_string(), TagCategory::General, 1),
    ];
    let lt = LabelTags::new(tags, Some(2));
    // Raw rows as long as the label count are not the embedding width: an error.
    assert_eq!(
        lt.create_probality_pairs(&vec![vec![key(0.1); 3]], &vec![vec![key(0.1); 3]]).unwrap_err(),
        DecodeError::FeatureMismatch { expected: 2, actual: 3 }
    );
    // Raw rows of the embedding width pair the projected scores with the labels.
    let pairs = lt
        .create_probality_pairs(&vec![vec![key(0.1); 2]], &vec![vec![key(0.3), key(0.2), key(0.1)]])
        .unwrap();
    assert_eq!(pairs[0].len(), 3);
    assert_eq!(pairs[0][0], ("a".to_string(), key(0.3)));
    assert_eq!(pairs[0][2], ("c".to_string(), key(0.1)));
    // A projection of the wrong length, or a missing one, is an error too.
    assert_eq!(
        lt.create_probality_pairs(&vec![vec![key(0.1); 2]], &vec![vec![key(0.3)]]).unwrap_err(),
        DecodeError::LengthMismatch { expected: 3, actual: 1 }
    );
    assert_eq!(
        lt.create_probality_pairs(&vec![vec![key(0.1); 2]], &vec![]).unwrap_err(),
        DecodeError::LengthMismatch { expected: 3, actual: 0 }
    );
}

#[test]
fn tag_table_reads_hexadecimal_fields() {
    let headers = strings(&["tag_id", "name", "category", "count"]);
    let records = vec![strings(&["0x1F", "a", "0", "0x-10"])];
    let lt = LabelTags::from_table(&headers, &records).unwrap();
    assert_eq!(lt.idx2tag()[0].tag_id(), 31);
    assert_eq!(lt.idx2tag()[0].count(), -16);
    let signed_first = vec![strings(&["1", "a", "0", "-0x10"])];
    assert_eq!(LabelTags::from_table(&headers, &signed_first).unwrap_err(), TagTableError::BadRecord { row: 0 });
}
