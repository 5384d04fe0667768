use html5_picture::webp::processor::Parameter;
use html5_picture::webp::{WebpParameter, DEFAULT_QUALITY, MAX_QUALITY, MIN_QUALITY};

#[test]
fn quality_of_zero_is_raised_to_one() {
    assert_eq!(WebpParameter::new(Some(0)).quality, 1);
}

#[test]
fn quality_of_255_is_lowered_to_100() {
    assert_eq!(WebpParameter::new(Some(255)).quality, 100);
}

#[test]
fn quality_of_70_stays() {
    assert_eq!(WebpParameter::new(Some(70)).quality, 70);
}

#[test]
fn quality_defaults_to_70() {
    assert_eq!(WebpParameter::new(None).quality, 70);
    assert_eq!(DEFAULT_QUALITY, 70);
}

#[test]
fn quality_in_range_is_kept() {
    for quality in MIN_QUALITY..=MAX_QUALITY {
        assert_eq!(WebpParameter::new(Some(quality)).quality, quality);
        assert_eq!(WebpParameter::parameter_check_quality(Some(quality)), quality);
    }
}

#[test]
fn quality_is_always_in_range() {
    for quality in 0..=255u8 {
        let checked = WebpParameter::parameter_check_quality(Some(quality));
        assert!((1..=100).contains(&checked));
        let expected = quality.clamp(1, 100);
        assert_eq!(checked, expected);
    }
    assert_eq!(WebpParameter::parameter_check_quality(None), 70);
    assert_eq!(WebpParameter::parameter_check_quality(Some(101)), 100);
}

#[test]
fn parameter_counts_its_outputs() {
    let mut params = Parameter {
        webp_parameter: WebpParameter::new(None),
        input: String::from("a.png"),
        output_dir: String::from("out"),
        scaled_images_count: None,
        single_threaded: false,
    };
    assert_eq!(params.scale_count(), 0);
    assert_eq!(params.output_count(), 1);
    params.scaled_images_count = Some(0);
    assert_eq!(params.scale_count(), 0);
    assert_eq!(params.output_count(), 1);
    params.scaled_images_count = Some(3);
    assert_eq!(params.scale_count(), 3);
    assert_eq!(params.output_count(), 4);
    params.scaled_images_count = Some(255);
    assert_eq!(params.output_count(), 256);
}

#[test]
fn parameter_duplicate_is_equal() {
    let params = Parameter {
        webp_parameter: WebpParameter::new(Some(12)),
        input: String::from("in/a.png"),
        output_dir: String::from("out"),
        scaled_images_count: Some(2),
        single_threaded: true,
    };
    let copy = params.duplicate();
    assert_eq!(copy.webp_parameter.quality, 12);
    assert_eq!(copy.input, "in/a.png");
    assert_eq!(copy.output_dir, "out");
    assert_eq!(copy.scaled_images_count, Some(2));
    assert!(copy.single_threaded);
}
