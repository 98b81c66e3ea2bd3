use pdfvectorizer::ai::{
    channel_indices, download_model, download_model_with_progress, image_dimensions,
    model_filename, AiError, ChannelOrder, DownloadAction, Progress, REALESRGAN_X4PLUS_ONNX,
    SWINIR_X4_ONNX,
};
use pdfvectorizer::fixed::Fixed;
use pdfvectorizer::trace::{
    apply_overrides, apply_preset, apply_quality, channel_order_choice_to_channel_order, exceeds_dimension,
    palette_size_to_bits, plan_pre_filters, resolve_preprocess_settings,
    resolve_smoothing_settings, smooths_path, ChannelOrderChoice, FilterPlan, PrecisionChoice,
    PreprocessSettings, PresetChoice, SmoothingSettings, TraceOverrides, TraceSettings, Unsharp,
};

fn fx(units: i64, millionths: i64) -> Fixed {
    Fixed::from_raw(units * 1_000_000 + millionths)
}

fn whole(units: i64) -> Fixed {
    fx(units, 0)
}

fn settings() -> TraceSettings {
    TraceSettings {
        color_precision: 6,
        layer_difference: 16,
        filter_speckle: 4,
        corner_threshold: 60,
        length_threshold: whole(4),
        splice_threshold: 45,
        max_iterations: 10,
        path_precision: Some(2),
    }
}

#[test]
fn channel_orders() {
    assert_eq!(channel_indices(ChannelOrder::Rgb), (0, 1, 2));
    assert_eq!(channel_indices(ChannelOrder::Bgr), (2, 1, 0));
    assert_eq!(channel_order_choice_to_channel_order(&ChannelOrderChoice::Rgb), ChannelOrder::Rgb);
    assert_eq!(channel_order_choice_to_channel_order(&ChannelOrderChoice::Bgr), ChannelOrder::Bgr);
}

#[test]
fn tensor_shapes() {
    assert_eq!(image_dimensions(&[1, 3, 480, 640]).unwrap(), (480, 640));
    assert_eq!(image_dimensions(&[1, 3, 0, 0]).unwrap(), (0, 0));
    for shape in [vec![], vec![1, 3, 4], vec![2, 3, 4, 4], vec![1, 4, 4, 4], vec![1, 3, 4, 4, 1]] {
        match image_dimensions(&shape) {
            Err(AiError::InvalidTensorShape(refused)) => assert_eq!(refused, shape),
            other => panic!("unexpected outcome: {:?}", other),
        }
    }
}

#[test]
fn model_files_are_named_by_their_address() {
    assert_eq!(model_filename(REALESRGAN_X4PLUS_ONNX).unwrap(), "realesrgan-x4plus.onnx");
    assert_eq!(model_filename(SWINIR_X4_ONNX).unwrap(), "swinir_x4.onnx");
    assert_eq!(model_filename("model.onnx").unwrap(), "model.onnx");
    assert_eq!(model_filename("a/b//c").unwrap(), "c");
    for url in ["", "https://example.org/models/", "/"] {
        match model_filename(url) {
            Err(AiError::MissingFilename(refused)) => assert_eq!(refused, url),
            other => panic!("unexpected outcome: {:?}", other),
        }
    }
}

#[test]
fn downloads_keep_count() {
    let mut quiet = download_model("https://example.org/m/net.onnx").unwrap();
    assert_eq!(quiet.filename, "net.onnx");
    assert!(!quiet.reports);
    assert_eq!(quiet.progress, Progress { downloaded: 0, total: None });
    assert_eq!(quiet.received(100), DownloadAction::Write { len: 100, report: None });
    assert_eq!(quiet.received(0), DownloadAction::Finish);
    assert_eq!(quiet.progress.downloaded, 100);

    let mut loud = download_model_with_progress("https://example.org/m/net.onnx", true).unwrap();
    assert!(loud.reports);
    loud.expect(Some(300));
    assert_eq!(
        loud.received(100),
        DownloadAction::Write { len: 100, report: Some(Progress { downloaded: 100, total: Some(300) }) }
    );
    assert_eq!(
        loud.received(200),
        DownloadAction::Write { len: 200, report: Some(Progress { downloaded: 300, total: Some(300) }) }
    );
    assert_eq!(loud.received(0), DownloadAction::Finish);
    assert_eq!(loud.progress, Progress { downloaded: 300, total: Some(300) });
    assert_eq!(loud.filename, "net.onnx");
    assert!(download_model("https://example.org/").is_err());
    assert!(download_model_with_progress("", false).is_err());
}

#[test]
fn model_failures_are_reported_in_words() {
    assert_eq!(AiError::Ort("bad graph".to_string()).message(), "ORT error: bad graph");
    assert_eq!(AiError::Io("disk full".to_string()).message(), "IO error: disk full");
    assert_eq!(AiError::Http("404".to_string()).message(), "HTTP error: 404");
    assert_eq!(AiError::InvalidTensorShape(vec![1, 3, 4]).message(), "unexpected tensor shape: [1, 3, 4]");
    assert_eq!(AiError::InvalidTensorShape(vec![]).message(), "unexpected tensor shape: []");
    assert_eq!(AiError::InvalidTensorShape(vec![20]).message(), "unexpected tensor shape: [20]");
    assert_eq!(AiError::MissingOutput.message(), "model run did not produce any outputs");
    assert_eq!(
        AiError::MissingFilename("http://x/".to_string()).message(),
        "failed to derive filename from URL http://x/"
    );
}

#[test]
fn palette_sizes_in_bits() {
    assert_eq!(palette_size_to_bits(0, 6), 6);
    assert_eq!(palette_size_to_bits(0, -3), -3);
    let expected = [(1, 1), (2, 1), (3, 2), (4, 2), (5, 3), (8, 3), (9, 4), (16, 4), (17, 5), (32, 5), (33, 6), (64, 6), (65, 7), (128, 7), (129, 8), (256, 8), (257, 8), (1 << 20, 8), (usize::MAX, 8)];
    for (size, bits) in expected {
        assert_eq!(palette_size_to_bits(size, 6), bits, "{}", size);
    }
    for size in 1..=300usize {
        let bits = ((size as f64).log2().ceil() as i32).clamp(1, 8);
        assert_eq!(palette_size_to_bits(size, 6), bits, "{}", size);
    }
}

#[test]
fn presets() {
    let mut s = settings();
    apply_preset(&mut s, &PresetChoice::Illustration);
    assert_eq!(
        s,
        TraceSettings {
            color_precision: 6,
            layer_difference: 12,
            filter_speckle: 4,
            corner_threshold: 85,
            length_threshold: fx(2, 200_000),
            splice_threshold: 40,
            max_iterations: 12,
            path_precision: Some(3),
        }
    );
    apply_preset(&mut s, &PresetChoice::Natural);
    assert_eq!(
        s,
        TraceSettings {
            color_precision: 7,
            layer_difference: 16,
            filter_speckle: 3,
            corner_threshold: 95,
            length_threshold: whole(3),
            splice_threshold: 45,
            max_iterations: 12,
            path_precision: Some(3),
        }
    );
    apply_preset(&mut s, &PresetChoice::HighPrecision);
    assert_eq!(
        s,
        TraceSettings {
            color_precision: 8,
            layer_difference: 10,
            filter_speckle: 2,
            corner_threshold: 120,
            length_threshold: fx(1, 800_000),
            splice_threshold: 35,
            max_iterations: 16,
            path_precision: Some(4),
        }
    );
}

#[test]
fn quality() {
    let mut s = settings();
    apply_quality(&mut s, &PrecisionChoice::Illustration);
    assert_eq!(s, settings());
    apply_quality(&mut s, &PrecisionChoice::Natural);
    assert_eq!(s, settings());
    apply_quality(&mut s, &PrecisionChoice::HighPrecision);
    assert_eq!(s.color_precision, 8);
    assert_eq!(s.path_precision, Some(4));
    assert_eq!(s.length_threshold, fx(3, 200_000));
    assert_eq!(s.layer_difference, 16);
    let mut fine = TraceSettings { color_precision: 9, path_precision: Some(6), length_threshold: fx(0, 500_000), ..settings() };
    apply_quality(&mut fine, &PrecisionChoice::HighPrecision);
    assert_eq!(fine.color_precision, 9);
    assert_eq!(fine.path_precision, Some(6));
    assert_eq!(fine.length_threshold, fx(0, 500_000));
    let mut none = TraceSettings { path_precision: None, ..settings() };
    apply_quality(&mut none, &PrecisionChoice::HighPrecision);
    assert_eq!(none.path_precision, Some(4));
}

#[test]
fn preprocessing_defaults() {
    let nothing = PreprocessSettings { denoise_radius: None, unsharp_sigma: None, unsharp_threshold: None, enhance_contrast: None };
    assert_eq!(
        resolve_preprocess_settings(&PrecisionChoice::Illustration, &nothing),
        PreprocessSettings {
            denoise_radius: Some(fx(0, 800_000)),
            unsharp_sigma: Some(whole(1)),
            unsharp_threshold: Some(2),
            enhance_contrast: Some(whole(3)),
        }
    );
    assert_eq!(
        resolve_preprocess_settings(&PrecisionChoice::Natural, &nothing),
        PreprocessSettings {
            denoise_radius: Some(fx(0, 500_000)),
            unsharp_sigma: Some(fx(0, 800_000)),
            unsharp_threshold: Some(1),
            enhance_contrast: Some(whole(2)),
        }
    );
    assert_eq!(
        resolve_preprocess_settings(&PrecisionChoice::HighPrecision, &nothing),
        PreprocessSettings {
            denoise_radius: Some(whole(1)),
            unsharp_sigma: Some(fx(1, 200_000)),
            unsharp_threshold: Some(2),
            enhance_contrast: Some(whole(4)),
        }
    );
    let asked = PreprocessSettings { denoise_radius: Some(whole(0)), unsharp_sigma: None, unsharp_threshold: Some(-1), enhance_contrast: Some(whole(0)) };
    let resolved = resolve_preprocess_settings(&PrecisionChoice::Natural, &asked);
    assert_eq!(
        resolved,
        PreprocessSettings {
            denoise_radius: Some(whole(0)),
            unsharp_sigma: Some(fx(0, 800_000)),
            unsharp_threshold: Some(-1),
            enhance_contrast: Some(whole(0)),
        }
    );
    assert_eq!(plan_pre_filters(&resolved), FilterPlan { blur: None, unsharpen: None, contrast: None });
    assert_eq!(
        plan_pre_filters(&resolve_preprocess_settings(&PrecisionChoice::Natural, &nothing)),
        FilterPlan {
            blur: Some(fx(0, 500_000)),
            unsharpen: Some(Unsharp { sigma: fx(0, 800_000), threshold: 1 }),
            contrast: Some(whole(2)),
        }
    );
    assert_eq!(plan_pre_filters(&nothing), FilterPlan { blur: None, unsharpen: None, contrast: None });
    let negative = PreprocessSettings { denoise_radius: Some(whole(-1)), unsharp_sigma: Some(whole(1)), unsharp_threshold: Some(0), enhance_contrast: Some(whole(-2)) };
    assert_eq!(
        plan_pre_filters(&negative),
        FilterPlan { blur: None, unsharpen: Some(Unsharp { sigma: whole(1), threshold: 0 }), contrast: Some(whole(-2)) }
    );
}

#[test]
fn smoothing_defaults() {
    assert_eq!(
        resolve_smoothing_settings(&PrecisionChoice::Illustration, None, None, None, None),
        SmoothingSettings { enabled: true, corner_threshold: whole(100), outset_ratio: fx(0, 200_000), segment_length: whole(6) }
    );
    assert_eq!(
        resolve_smoothing_settings(&PrecisionChoice::Natural, None, None, None, None),
        SmoothingSettings { enabled: true, corner_threshold: whole(95), outset_ratio: fx(0, 180_000), segment_length: whole(7) }
    );
    assert_eq!(
        resolve_smoothing_settings(&PrecisionChoice::HighPrecision, None, None, None, None),
        SmoothingSettings { enabled: true, corner_threshold: whole(110), outset_ratio: fx(0, 160_000), segment_length: fx(5, 500_000) }
    );
    let asked = resolve_smoothing_settings(&PrecisionChoice::Natural, Some(false), Some(whole(0)), Some(whole(1)), None);
    assert_eq!(
        asked,
        SmoothingSettings { enabled: false, corner_threshold: whole(0), outset_ratio: whole(1), segment_length: whole(7) }
    );
    assert!(!smooths_path(&asked));
    assert!(smooths_path(&resolve_smoothing_settings(&PrecisionChoice::Natural, None, None, None, None)));
    assert!(!smooths_path(&SmoothingSettings { enabled: true, corner_threshold: whole(0), outset_ratio: whole(1), segment_length: whole(7) }));
    assert!(!smooths_path(&SmoothingSettings { enabled: true, corner_threshold: whole(9), outset_ratio: whole(1), segment_length: whole(-7) }));
}

#[test]
fn large_images_are_resized() {
    assert!(!exceeds_dimension(5000, 5000, 0));
    assert!(!exceeds_dimension(4096, 100, 4096));
    assert!(exceeds_dimension(4097, 100, 4096));
    assert!(exceeds_dimension(100, 4097, 4096));
    assert!(!exceeds_dimension(0, 0, 1));
}

fn nothing_asked() -> TraceOverrides {
    TraceOverrides {
        colors: None,
        color_precision: None,
        layer_difference: None,
        filter_speckle: None,
        corner_threshold: None,
        length_threshold: None,
        max_iterations: None,
        splice_threshold: None,
        path_precision: None,
    }
}

#[test]
fn overrides() {
    let mut s = settings();
    apply_overrides(&mut s, &nothing_asked());
    assert_eq!(s, settings());
    apply_overrides(
        &mut s,
        &TraceOverrides {
            colors: Some(100),
            layer_difference: Some(-4),
            filter_speckle: Some(9),
            corner_threshold: Some(fx(59, 500_000)),
            length_threshold: Some(fx(1, 250_000)),
            max_iterations: Some(3),
            splice_threshold: Some(fx(-44, -500_000)),
            path_precision: Some(fx(2, 499_999)),
            ..nothing_asked()
        },
    );
    assert_eq!(
        s,
        TraceSettings {
            color_precision: 7,
            layer_difference: 0,
            filter_speckle: 9,
            corner_threshold: 60,
            length_threshold: fx(1, 250_000),
            splice_threshold: -45,
            max_iterations: 3,
            path_precision: Some(2),
        }
    );
    let mut both = settings();
    apply_overrides(&mut both, &TraceOverrides { colors: Some(4), color_precision: Some(12), ..nothing_asked() });
    assert_eq!(both.color_precision, 8);
    apply_overrides(&mut both, &TraceOverrides { color_precision: Some(0), ..nothing_asked() });
    assert_eq!(both.color_precision, 1);
    apply_overrides(&mut both, &TraceOverrides { colors: Some(0), ..nothing_asked() });
    assert_eq!(both.color_precision, 1);
    apply_overrides(
        &mut both,
        &TraceOverrides {
            corner_threshold: Some(Fixed::from_raw(i64::MAX)),
            splice_threshold: Some(Fixed::from_raw(i64::MIN)),
            path_precision: Some(whole(-3)),
            ..nothing_asked()
        },
    );
    assert_eq!(both.corner_threshold, i32::MAX);
    assert_eq!(both.splice_threshold, i32::MIN);
    assert_eq!(both.path_precision, Some(0));
}

#[test]
fn rounding_to_whole_numbers() {
    for (value, rounded) in [
        (0.0f64, 0i64),
        (0.4, 0),
        (0.5, 1),
        (1.5, 2),
        (2.499999, 2),
        (-0.4, 0),
        (-0.5, -1),
        (-1.5, -2),
        (-2.6, -3),
        (59.5, 60),
    ] {
        let fixed = Fixed::from_raw((value * 1_000_000.0).round() as i64);
        assert_eq!(fixed.round(), rounded, "{}", value);
        assert_eq!(fixed.round(), value.round() as i64, "{}", value);
    }
    assert_eq!(Fixed::from_raw(i64::MAX).round(), 9_223_372_036_855);
    assert_eq!(Fixed::from_raw(i64::MIN).round(), -9_223_372_036_855);
}
