use eros::processor::{fit_dimensions, BatchError, TensorLayout, PAD_VALUE};
use eros::raster::RgbRaster;

fn normalize(v: u8, mean: f32, std: f32) -> f32 {
    (v as f32 / 255.0 - mean) / std
}

#[test]
fn test_process_image() {
    let image = RgbRaster::filled(100, 100, 128, 128, 128);
    let processor = TensorLayout::new(448, 448, true);
    let tensor = processor.process(&image);
    assert_eq!(tensor.shape, vec![1, 448, 448, 3]);
    assert_eq!(tensor.data.len(), 448 * 448 * 3);
    let mean = [0.48145466f32, 0.4578275, 0.40821073];
    let std = [0.26862954f32, 0.26130258, 0.27577711];
    assert!(tensor
        .data
        .iter()
        .enumerate()
        .any(|(i, &x)| normalize(x, mean[i % 3], std[i % 3]) != 0.0));
}

#[test]
fn test_process_batch() {
    let image = RgbRaster::filled(100, 100, 128, 128, 128);
    let processor = TensorLayout::new(448, 448, true);
    let batch = processor.process_batch(&vec![image.clone(), image]).unwrap();
    assert_eq!(batch.shape, vec![2, 448, 448, 3]);
    let one = 448 * 448 * 3;
    assert_eq!(batch.data[..one], batch.data[one..]);
}

#[test]
fn test_aspect_ratio_preservation() {
    let wide = RgbRaster::filled(800, 200, 255, 0, 0);
    let mean = [0.5f32, 0.5, 0.5];
    let std = [0.5f32, 0.5, 0.5];
    let processor = TensorLayout::new(448, 448, false);
    let tensor = processor.process(&wide);
    assert_eq!(tensor.shape, vec![1, 3, 448, 448]);

    let at = |c: usize, y: usize, x: usize| tensor.data[(c * 448 + y) * 448 + x];
    let norm_pad_val = (128.0 / 255.0 - mean[0]) / std[0];
    assert!((0..448).all(|x| (normalize(at(0, 0, x), mean[0], std[0]) - norm_pad_val).abs() < 1e-5));

    let norm_r = (255.0 / 255.0 - mean[0]) / std[0];
    let norm_g = (0.0 / 255.0 - mean[1]) / std[1];
    assert!((normalize(at(0, 224, 224), mean[0], std[0]) - norm_r).abs() < 1e-5);
    assert!((normalize(at(1, 224, 224), mean[1], std[1]) - norm_g).abs() < 1e-5);
}

#[test]
fn fit_dimensions_keeps_aspect_ratio() {
    assert_eq!(fit_dimensions(800, 200, 448, 448), (448, 112));
    assert_eq!(fit_dimensions(200, 800, 448, 448), (112, 448));
    assert_eq!(fit_dimensions(100, 100, 448, 448), (448, 448));
    // 3 * 448 / 1000 = 1.344 rounds to 1; 5 * 448 / 1000 = 2.24 rounds to 2.
    assert_eq!(fit_dimensions(1000, 3, 448, 448), (448, 1));
    assert_eq!(fit_dimensions(1000, 5, 448, 448), (448, 2));
    // 1 * 448 / 1000 rounds to 0 and is kept at 1.
    assert_eq!(fit_dimensions(1000, 1, 448, 448), (448, 1));
    // Halves round up: 3 * 10 / 4 = 7.5.
    assert_eq!(fit_dimensions(4, 3, 10, 100), (10, 8));
    assert_eq!(fit_dimensions(0, 10, 448, 448), (0, 0));
}

#[test]
fn shape_never_depends_on_aspect_ratio() {
    for (w, h) in [(1u32, 1u32), (7, 300), (300, 7), (64, 48)] {
        let img = RgbRaster::filled(w, h, 10, 20, 30);
        let first = TensorLayout::new(24, 32, false).process(&img);
        assert_eq!(first.shape, vec![1, 3, 24, 32]);
        assert_eq!(first.data.len(), 3 * 24 * 32);
        let last = TensorLayout::new(24, 32, true).process(&img);
        assert_eq!(last.shape, vec![1, 24, 32, 3]);
        assert_eq!(last.data.len(), 3 * 24 * 32);
    }
}

#[test]
fn padding_band_is_gray_and_centered() {
    // A 4x2 image into a 4x4 box: rows 0 and 3 are padding, rows 1 and 2 the image.
    let img = RgbRaster::filled(4, 2, 1, 2, 3);
    let t = TensorLayout::new(4, 4, true).process(&img);
    for y in 0..4usize {
        for x in 0..4usize {
            for c in 0..3usize {
                let v = t.data[(y * 4 + x) * 3 + c];
                if y == 0 || y == 3 {
                    assert_eq!(v, PAD_VALUE);
                } else {
                    assert_eq!(v, (c + 1) as u8);
                }
            }
        }
    }
    // A 2x3 image into a 5x3 box: left padding floor(3/2) = 1, right padding 2.
    let img = RgbRaster::filled(2, 3, 9, 9, 9);
    let t = TensorLayout::new(3, 5, false).process(&img);
    for x in 0..5usize {
        let v = t.data[x];
        if x == 1 || x == 2 {
            assert_eq!(v, 9);
        } else {
            assert_eq!(v, PAD_VALUE);
        }
    }
}

#[test]
fn empty_batch_is_an_error() {
    let processor = TensorLayout::new(8, 8, true);
    assert_eq!(processor.process_batch(&vec![]).unwrap_err(), BatchError::Empty);
}
