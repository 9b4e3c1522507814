use qr_transfer::config::EcLevel;
use qr_transfer::config::QrConfig;
use qr_transfer::errors::Error;
use qr_transfer::render::render_frame;
use qr_transfer::render::render_frames;
use qr_transfer::render::LARGEST_FRAME;
use qrcode::render::svg;
use qrcode::QrCode;
use qrcode::Version;

fn frame(len: usize) -> Vec<u8> {
    (0..len).map(|i| (i * 13 + 1) as u8).collect()
}

fn config(version: i16, level: EcLevel) -> QrConfig {
    QrConfig { bytes_per_qr: 630, qr_version: version, error_level: level }
}

#[test]
fn default_config_is_630_bytes_version_21_medium() {
    let config = QrConfig::default();
    assert_eq!(config.bytes_per_qr, 630);
    assert_eq!(config.qr_version, 21);
    assert_eq!(config.error_level, EcLevel::M);
}

#[test]
fn image_is_svg_markup() {
    let image = render_frame(&frame(100), &QrConfig::default()).unwrap();
    assert!(image.starts_with("<?xml version=\"1.0\" standalone=\"yes\"?><svg"));
    assert!(image.ends_with("</svg>"));
    assert_ne!(image.as_bytes(), &frame(100)[..]);
}

#[test]
fn image_is_black_on_white() {
    let image = render_frame(&frame(100), &QrConfig::default()).unwrap();
    assert!(image.contains("fill=\"#ffffff\""));
    assert!(image.contains("<path fill=\"#000000\""));
}

#[test]
fn image_of_version_21_is_218_units_wide() {
    let image = render_frame(&frame(100), &QrConfig::default()).unwrap();
    assert!(image.contains("width=\"218\" height=\"218\""));
}

#[test]
fn image_of_version_1_is_at_least_200_units_wide() {
    let image = render_frame(&frame(10), &config(1, EcLevel::L)).unwrap();
    assert!(image.contains("width=\"203\" height=\"203\""));
}

#[test]
fn image_of_version_40_is_at_least_200_units_wide() {
    let image = render_frame(&frame(10), &config(40, EcLevel::H)).unwrap();
    assert!(image.contains("width=\"370\" height=\"370\""));
}

#[test]
fn image_is_what_the_generator_draws() {
    let data = frame(300);
    let code = QrCode::with_version(&data, Version::Normal(21), qrcode::EcLevel::Q).unwrap();
    let expected = code
        .render()
        .min_dimensions(200, 200)
        .dark_color(svg::Color("#000000"))
        .light_color(svg::Color("#ffffff"))
        .build();
    assert_eq!(render_frame(&data, &config(21, EcLevel::Q)), Ok(expected));
}

#[test]
fn level_changes_the_image() {
    let data = frame(50);
    let low = render_frame(&data, &config(10, EcLevel::L)).unwrap();
    let medium = render_frame(&data, &config(10, EcLevel::M)).unwrap();
    let quartile = render_frame(&data, &config(10, EcLevel::Q)).unwrap();
    let high = render_frame(&data, &config(10, EcLevel::H)).unwrap();
    assert_ne!(low, medium);
    assert_ne!(medium, quartile);
    assert_ne!(quartile, high);
}

#[test]
fn full_frame_fits_the_default_symbol() {
    assert!(render_frame(&frame(36 + 630), &QrConfig::default()).is_ok());
}

#[test]
fn frame_too_long_for_the_symbol_exceeds_capacity() {
    assert_eq!(render_frame(&frame(36 + 630), &config(21, EcLevel::H)), Err(Error::CapacityExceeded));
    assert_eq!(render_frame(&frame(100), &config(1, EcLevel::M)), Err(Error::CapacityExceeded));
}

#[test]
fn frame_longer_than_any_symbol_exceeds_capacity() {
    let data = vec![0u8; LARGEST_FRAME + 1];
    assert_eq!(render_frame(&data, &QrConfig::default()), Err(Error::CapacityExceeded));
    assert_eq!(render_frame(&data, &config(0, EcLevel::M)), Err(Error::CapacityExceeded));
}

#[test]
fn unknown_version_is_a_render_failure() {
    assert_eq!(render_frame(&frame(100), &config(0, EcLevel::M)), Err(Error::Render));
    assert_eq!(render_frame(&frame(100), &config(41, EcLevel::M)), Err(Error::Render));
    assert_eq!(render_frame(&frame(100), &config(-3, EcLevel::M)), Err(Error::Render));
    assert_eq!(render_frame(&frame(100), &config(i16::MAX, EcLevel::M)), Err(Error::Render));
    assert_eq!(render_frame(&frame(100), &config(i16::MIN, EcLevel::M)), Err(Error::Render));
}

#[test]
fn frames_are_rendered_in_order() {
    let frames = vec![frame(40), frame(60), frame(80)];
    let images = render_frames(&frames, &QrConfig::default()).unwrap();
    assert_eq!(images.len(), 3);
    for (image, data) in images.iter().zip(frames.iter()) {
        assert_eq!(Ok(image.clone()), render_frame(data, &QrConfig::default()));
    }
}

#[test]
fn no_frames_give_no_images() {
    assert_eq!(render_frames(&Vec::new(), &QrConfig::default()), Ok(Vec::new()));
}

#[test]
fn one_failing_frame_fails_them_all() {
    let frames = vec![frame(40), frame(2000), frame(80)];
    assert_eq!(render_frames(&frames, &QrConfig::default()), Err(Error::CapacityExceeded));
}

#[test]
fn rendering_twice_gives_the_same_image() {
    let data = frame(400);
    assert_eq!(render_frame(&data, &QrConfig::default()), render_frame(&data, &QrConfig::default()));
}
