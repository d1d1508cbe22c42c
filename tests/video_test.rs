use eros::pipeline::TaggingResult;
use eros::rating::Rating;
use eros::raster::RgbRaster;
use eros::video::{select_scene_frames, SceneSampler, VideoError, VideoTags, SCENE_CHANGE_PERCENT};

#[test]
fn first_frame_is_always_kept() {
    let mut s = SceneSampler::new();
    assert!(s.offer(vec![0; 16]));
    let mut s = SceneSampler::new();
    assert!(s.offer(vec![]));
}

#[test]
fn identical_frames_give_one_kept_frame() {
    let frames = vec![vec![7u8; 100], vec![7u8; 100]];
    assert_eq!(select_scene_frames(&frames, SCENE_CHANGE_PERCENT), vec![true, false]);
}

#[test]
fn scene_change_needs_more_than_ten_percent() {
    // Mean difference 25 is 9.8% of 255: not a new scene. 26 is 10.2%: a new scene.
    let frames = vec![vec![0u8; 10], vec![25u8; 10], vec![26u8; 10], vec![30u8; 10]];
    assert_eq!(select_scene_frames(&frames, SCENE_CHANGE_PERCENT), vec![true, false, true, false]);
    // Comparison is with the last kept frame, not the previous one.
    let drift = vec![vec![0u8; 4], vec![20u8; 4], vec![40u8; 4]];
    assert_eq!(select_scene_frames(&drift, SCENE_CHANGE_PERCENT), vec![true, false, true]);
    assert_eq!(select_scene_frames(&vec![], SCENE_CHANGE_PERCENT), Vec::<bool>::new());
}

#[test]
fn rgb_frames_are_compared_by_luminance() {
    let mut s = SceneSampler::new();
    assert!(s.offer_rgb(&RgbRaster::filled(8, 8, 0, 0, 0)));
    assert!(!s.offer_rgb(&RgbRaster::filled(8, 8, 1, 1, 1)));
    assert!(s.offer_rgb(&RgbRaster::filled(8, 8, 255, 255, 255)));
}

fn result(character: &[&str], general: &[&str]) -> TaggingResult {
    let p = |v: &[&str]| v.iter().map(|s| (s.to_string(), 0u32)).collect();
    TaggingResult { rating: vec![], character: p(character), general: p(general) }
}

#[test]
fn video_rating_escalates_once_and_tags_union() {
    let mut v = VideoTags::new();
    assert!(v.needs_rating());
    v.add_frame(Some(Rating::Sfw), &result(&["hatsune_miku"], &["long_hair", "1girl"]));
    assert_eq!(v.rating(), Rating::Sfw);
    v.add_frame(Some(Rating::Nsfw), &result(&[], &["1girl", "smile"]));
    assert!(!v.needs_rating());
    v.add_frame(None, &result(&[], &["long_hair", ">_<"]));
    let (rating, tags) = v.finish().unwrap();
    assert_eq!(rating, Rating::Nsfw);
    assert_eq!(tags, vec!["hatsune miku", "long hair", "1girl", "smile", ">_<"]);
}

#[test]
fn video_without_frames_is_an_error() {
    assert_eq!(VideoTags::new().finish().unwrap_err(), VideoError::NoFrames);
}
