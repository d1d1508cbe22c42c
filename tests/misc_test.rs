use eros::args::V3Model;
use eros::screen::{cursor_down, cursor_up, push_log, Action, CurrentScreen, Key, MenuItem, ScreenState};
use eros::config::{resize_target, ConfigError, ModelConfig, PretrainedCfg, StageShape};
use eros::file::{download_url, get_file_path, ConfigFile, RatingModelFile, TagCSVFile, TaggerModelFile};
use eros::media::{is_image, is_video};
use eros::pipeline::TaggingResult;
use eros::rating::{argmax, rating_from_scores, Rating, RatingError};
use eros::summary::{TaggingResultSimple, TaggingResultSimpleTags};
use eros::tag::fix_tag_underscore;
use eros::tagger::Device;
use eros::text::{join, parse_field_i32, parse_i32};

#[test]
fn image_and_video_extensions() {
    assert!(is_image("photos/a.jpg"));
    assert!(is_image("photos/a.JPEG"));
    assert!(is_image("a.b.PnG"));
    assert!(is_image("dir/x.webp/"));
    assert!(is_image("a/b.png/."));
    assert!(is_image("a/b.png/./"));
    assert!(!is_image("./."));
    assert!(!is_image("a/b.png/.."));
    assert!(!is_image("photos/.png"));
    assert!(!is_image("photos/png"));
    assert!(!is_image("archive.tar.gz"));
    assert!(!is_image(".."));
    assert!(!is_image(""));
    assert!(is_video("clip.MKV"));
    assert!(is_video("/v/clip.mp4"));
    assert!(!is_video("clip.mp3"));
    assert!(!is_video("a.mp4.d/b"));
}

#[test]
fn tag_display_form() {
    assert_eq!(fix_tag_underscore("long_hair"), "long hair");
    assert_eq!(fix_tag_underscore("a_b_c"), "a b c");
    assert_eq!(fix_tag_underscore(">_<"), ">_<");
    assert_eq!(fix_tag_underscore("(o)_(o)"), "(o)_(o)");
    assert_eq!(fix_tag_underscore("solo"), "solo");
}

#[test]
fn join_and_parse() {
    let parts = vec!["a".to_string(), "b c".to_string(), "d".to_string()];
    assert_eq!(join(&parts, ", "), "a, b c, d");
    assert_eq!(join(&vec![], ", "), "");
    assert_eq!(parse_i32("-2147483648"), Some(i32::MIN));
    assert_eq!(parse_i32("2147483647"), Some(i32::MAX));
    assert_eq!(parse_i32("2147483648"), None);
    assert_eq!(parse_i32("+7"), Some(7));
    assert_eq!(parse_i32("007"), Some(7));
    assert_eq!(parse_i32("-"), None);
    assert_eq!(parse_i32(""), None);
    assert_eq!(parse_i32("1x"), None);
    assert_eq!(parse_i32("0x10"), None);
    assert_eq!(parse_field_i32("0x10"), Some(16));
    assert_eq!(parse_field_i32("0xfF"), Some(255));
    assert_eq!(parse_field_i32("0x-8"), Some(-8));
    assert_eq!(parse_field_i32("0x"), None);
    assert_eq!(parse_field_i32("0x80000000"), None);
    assert_eq!(parse_field_i32("-0x1"), None);
    assert_eq!(parse_field_i32("12"), Some(12));
}

#[test]
fn rating_labels_and_argmax() {
    assert_eq!(Rating::from_label("nsfw"), Ok(Rating::Nsfw));
    assert_eq!(Rating::from_label("sfw"), Ok(Rating::Sfw));
    assert_eq!(Rating::from_label("safe"), Err(RatingError::UnknownLabel));
    assert_eq!(Rating::Nsfw.as_str(), "nsfw");
    assert_eq!(argmax(&vec![3, 9, 9, 1]), Some(2));
    assert_eq!(argmax(&vec![]), None);
    let table = vec![(0usize, "nsfw".to_string()), (1usize, "sfw".to_string())];
    assert_eq!(rating_from_scores(&vec![5, 7], &table), Ok(Rating::Sfw));
    assert_eq!(rating_from_scores(&vec![7, 5], &table), Ok(Rating::Nsfw));
    assert_eq!(rating_from_scores(&vec![], &table), Err(RatingError::NoScores));
    assert_eq!(
        rating_from_scores(&vec![1, 2, 3], &table),
        Err(RatingError::LabelNotFound { index: 2 })
    );
}

#[test]
fn model_file_paths() {
    let repo_id = "SmilingWolf/wd-swinv2-tagger-v3";
    assert_eq!(TaggerModelFile::new(repo_id).location().path(), "models/SmilingWolf/wd-swinv2-tagger-v3/model.onnx");
    assert_eq!(TagCSVFile::new(repo_id).location().path(), "models/SmilingWolf/wd-swinv2-tagger-v3/selected_tags.csv");
    assert_eq!(ConfigFile::new(repo_id).location().path(), "models/SmilingWolf/wd-swinv2-tagger-v3/config.json");
    assert_eq!(RatingModelFile::location().path(), "models/AdamCodd/vit-base-nsfw-detector/onnx/model.onnx");
    assert_eq!(get_file_path("r", "f"), "models/r/f");
    assert_eq!(
        download_url(repo_id, "model.onnx"),
        "https://huggingface.co/SmilingWolf/wd-swinv2-tagger-v3/resolve/main/model.onnx"
    );
}

#[test]
fn models_and_devices() {
    assert_eq!(V3Model::default(), V3Model::SwinV2);
    assert_eq!(V3Model::SwinV2.repo_id(), "SmilingWolf/wd-swinv2-tagger-v3");
    assert_eq!(V3Model::VitLarge.next(), V3Model::Eva02Large);
    assert_eq!(V3Model::SwinV2.next(), V3Model::VitLarge);
    assert_eq!(V3Model::Eva02Large.to_string(), "Eva02-Large");
    assert_eq!(Device::cpu(), vec![Device::Cpu]);
    assert_eq!(Device::cuda_devices(vec![0, 2]), vec![Device::Cuda(0), Device::Cuda(2)]);
    assert_eq!(Device::tensorrt_devices(vec![1]), vec![Device::TensorRT(1)]);
    assert_eq!(Device::coreml(), vec![Device::CoreML]);
    assert_eq!(MenuItem::all().len(), 6);
}

#[test]
fn config_sizes() {
    let cfg = ModelConfig {
        architecture: "SwinV2".to_string(),
        num_classes: 10,
        num_features: 5,
        pretrained_cfg: PretrainedCfg { input_size: vec![3, 448, 440], fixed_input_size: true, num_classes: 10 },
    };
    assert_eq!(cfg.input_dims(), Ok((448, 440)));
    let mut bad = cfg.clone();
    bad.pretrained_cfg.input_size = vec![448, 448];
    assert_eq!(bad.input_dims(), Err(ConfigError::InvalidInputSize));
    let stages = vec![
        StageShape { stage_type: "normalize".to_string(), size: None },
        StageShape { stage_type: "resize".to_string(), size: Some(vec![1, 2, 3]) },
        StageShape { stage_type: "resize".to_string(), size: Some(vec![384, 256]) },
    ];
    assert_eq!(resize_target(&stages), Ok((384, 256)));
    assert_eq!(resize_target(&stages[..2].to_vec()), Err(ConfigError::ResizeNotFound));
}

#[test]
fn stored_records() {
    let result = TaggingResult {
        rating: vec![("general".to_string(), 3)],
        character: vec![("hatsune_miku".to_string(), 2)],
        general: vec![("long_hair".to_string(), 2), (">_<".to_string(), 1)],
    };
    let tags = TaggingResultSimpleTags::from_result(&result);
    assert_eq!(tags.rating, "general");
    assert_eq!(tags.character, vec!["hatsune miku"]);
    assert_eq!(tags.general, vec!["long hair", ">_<"]);
    let rec = TaggingResultSimple::from_parts(&result, "a.png".to_string(), 12, "ab".to_string(), "sfw".to_string());
    assert_eq!(rec.tags, "hatsune miku, long hair, >_<");
    assert_eq!(rec.rating, "sfw");
    assert_eq!(rec.size, 12);
    let video = TaggingResultSimple::for_video("v.mp4".to_string(), 1, "h".to_string(), Rating::Nsfw, vec!["x".to_string(), "y".to_string()]);
    assert_eq!(video.tags, "x, y");
    assert_eq!(video.tagger.rating, "nsfw");
    assert!(video.tagger.character.is_empty());
}

#[test]
fn cursor_and_log() {
    assert_eq!(cursor_up(0), 0);
    assert_eq!(cursor_up(3), 2);
    assert_eq!(cursor_down(2, 6), 3);
    assert_eq!(cursor_down(5, 6), 5);
    assert_eq!(cursor_down(4, 0), 4);
    let mut logs: Vec<String> = (0..100).map(|i| i.to_string()).collect();
    push_log(&mut logs, "new".to_string());
    assert_eq!(logs.len(), 100);
    assert_eq!(logs[0], "1");
    assert_eq!(logs[99], "new");
}

#[test]
fn key_handling_walks_the_screens() {
    let mut s = ScreenState::new();
    assert_eq!(s.on_key(Key::Char(' '), 0, 0), Action::Nothing);
    assert_eq!(s.on_key(Key::Down, 3, 0), Action::Nothing);
    assert_eq!(s.suggestion_index, 1);
    assert_eq!(s.on_key(Key::Char(' '), 3, 0), Action::ToggleDir(1));
    assert_eq!(s.on_key(Key::Enter, 3, 0), Action::Nothing);
    assert_eq!(s.screen, CurrentScreen::SuggestingDirs);
    assert_eq!(s.on_key(Key::Enter, 3, 1), Action::ConfirmDirs);
    assert_eq!(s.screen, CurrentScreen::Main);
    assert_eq!(s.on_key(Key::Enter, 3, 1), Action::CycleModel);
    assert_eq!(s.on_key(Key::Char('j'), 3, 1), Action::Nothing);
    assert_eq!(s.on_key(Key::Enter, 3, 1), Action::StartEditing(MenuItem::InputPath));
    assert_eq!(s.screen, CurrentScreen::Editing);
    assert_eq!(s.on_key(Key::Char('x'), 3, 1), Action::TypeChar('x'));
    assert_eq!(s.on_key(Key::Char('a'), 3, 1), Action::ScrollLeft);
    assert_eq!(s.on_key(Key::Enter, 3, 1), Action::FinishEditing(MenuItem::InputPath));
    assert_eq!(s.screen, CurrentScreen::Main);
    for _ in 0..10 {
        s.on_key(Key::Down, 3, 1);
    }
    assert_eq!(s.menu_index, 5);
    assert_eq!(s.on_key(Key::Enter, 3, 1), Action::StartProcessing);
    assert_eq!(s.screen, CurrentScreen::Processing);
    assert_eq!(s.on_key(Key::Char('q'), 3, 1), Action::StopProcessing);
    assert_eq!(s.screen, CurrentScreen::Main);
    assert_eq!(s.on_key(Key::Char('q'), 3, 1), Action::Nothing);
    assert_eq!(s.screen, CurrentScreen::Exiting);
}

#[test]
fn content_hash_is_sha256_hex() {
    assert_eq!(eros::digest::to_hex(&vec![0x0a, 0x14, 0x1e, 0xff]), "0a141eff");
    assert_eq!(
        eros::digest::get_hash(&b"abc".to_vec()),
        "ba7816bf8f01cfea414140de5dae2223b00361a396177a9cb410ff61f20015ad"
    );
    assert_eq!(
        eros::digest::get_hash(&Vec::new()),
        "e3b0c44298fc1c149afbf4c8996fb92427ae41e4649b934ca495991b7852b855"
    );
}
