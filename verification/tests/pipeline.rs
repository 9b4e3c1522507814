use base64::engine::general_purpose::STANDARD;
use base64::Engine;
use qr_transfer::config::EcLevel;
use qr_transfer::config::QrConfig;
use qr_transfer::container::build_container;
use qr_transfer::errors::Error;
use qr_transfer::frame::container_frames;
use qr_transfer::pipeline::decode_payload;
use qr_transfer::pipeline::generate_all;
use qr_transfer::pipeline::generate_qr_svgs;
use qr_transfer::pipeline::render_container;
use qr_transfer::pipeline::tag_images;
use qr_transfer::pipeline::PtcData;
use qr_transfer::render::render_frames;

fn bytes(len: usize) -> Vec<u8> {
    let mut state: u32 = 12345;
    (0..len)
        .map(|_| {
            state = state.wrapping_mul(1_103_515_245).wrapping_add(12_345);
            (state >> 16) as u8
        })
        .collect()
}

fn file(name: &str, raw: &[u8]) -> PtcData {
    PtcData { base64: STANDARD.encode(raw), name: String::from(name), description: None }
}

fn small(bytes_per_qr: i32) -> QrConfig {
    QrConfig { bytes_per_qr, qr_version: 21, error_level: EcLevel::M }
}

#[test]
fn payload_is_decoded_from_base64() {
    assert_eq!(decode_payload("AAAA"), Ok(vec![0, 0, 0]));
    assert_eq!(decode_payload("aGVsbG8gd29ybGQ="), Ok(b"hello world".to_vec()));
    assert_eq!(decode_payload(""), Ok(Vec::new()));
    assert_eq!(decode_payload("/+8="), Ok(vec![0xff, 0xef]));
}

#[test]
fn text_that_is_not_base64_is_refused() {
    assert_eq!(decode_payload("not base64!"), Err(Error::Decode));
    assert_eq!(decode_payload("AAA"), Err(Error::Decode));
    assert_eq!(decode_payload("AAAA\n"), Err(Error::Decode));
    assert_eq!(decode_payload("_-8="), Err(Error::Decode));
}

#[test]
fn malformed_payload_fails_the_file() {
    let bad = PtcData { base64: String::from("***"), name: String::from("AB"), description: None };
    assert_eq!(generate_qr_svgs(bad, QrConfig::default()), Err(Error::Decode));
}

#[test]
fn short_file_fails_before_chunking() {
    assert_eq!(generate_qr_svgs(file("AB", &[0u8; 11]), QrConfig::default()), Err(Error::TooShort));
    assert_eq!(generate_qr_svgs(file("AB", &[0u8; 11]), small(0)), Err(Error::TooShort));
    assert_eq!(generate_qr_svgs(file("AB", &[]), small(-1)), Err(Error::TooShort));
}

#[test]
fn small_file_gives_one_code() {
    let images = generate_qr_svgs(file("AB", &[0u8; 16]), QrConfig::default()).unwrap();
    assert_eq!(images.len(), 1);
    assert!(images[0].starts_with("<?xml"));
}

#[test]
fn example_file_at_eight_bytes_a_code() {
    let container = build_container("AB", &[0u8; 16]).unwrap();
    let images = generate_qr_svgs(file("AB", &[0u8; 16]), small(8)).unwrap();
    assert_eq!(images.len(), (container.len() + 7) / 8);
}

#[test]
fn images_are_the_rendered_frames_of_the_container() {
    let raw = bytes(2000);
    let container = build_container("PROGRAM", &raw).unwrap();
    let frames = container_frames(&container, 630).unwrap();
    assert!(frames.len() >= 3);
    let expected = render_frames(&frames, &QrConfig::default()).unwrap();
    assert_eq!(generate_qr_svgs(file("PROGRAM", &raw), QrConfig::default()), Ok(expected.clone()));
    assert_eq!(render_container(&container, &QrConfig::default()), Ok(expected));
}

#[test]
fn large_file_exceeds_255_codes() {
    let raw = bytes(3000);
    assert_eq!(generate_qr_svgs(file("BIG", &raw), small(10)), Err(Error::CapacityExceeded));
    assert_eq!(render_container(&bytes(256), &small(1)), Err(Error::CapacityExceeded));
}

#[test]
fn budget_of_no_bytes_exceeds_capacity() {
    assert_eq!(generate_qr_svgs(file("AB", &[0u8; 16]), small(0)), Err(Error::CapacityExceeded));
    assert_eq!(generate_qr_svgs(file("AB", &[0u8; 16]), small(-630)), Err(Error::CapacityExceeded));
}

#[test]
fn budget_larger_than_the_symbol_exceeds_capacity() {
    let raw = bytes(4000);
    assert_eq!(generate_qr_svgs(file("AB", &raw), small(2000)), Err(Error::CapacityExceeded));
}

#[test]
fn unknown_version_fails_with_render() {
    let config = QrConfig { bytes_per_qr: 630, qr_version: 0, error_level: EcLevel::M };
    assert_eq!(generate_qr_svgs(file("AB", &[0u8; 16]), config), Err(Error::Render));
}

#[test]
fn running_twice_gives_the_same_images() {
    let raw = bytes(1500);
    let first = generate_qr_svgs(file("TWICE", &raw), QrConfig::default());
    let second = generate_qr_svgs(file("TWICE", &raw), QrConfig::default());
    assert!(first.is_ok());
    assert_eq!(first, second);
}

#[test]
fn running_twice_gives_the_same_failure() {
    let raw = bytes(3000);
    assert_eq!(
        generate_qr_svgs(file("TWICE", &raw), small(5)),
        generate_qr_svgs(file("TWICE", &raw), small(5))
    );
}

#[test]
fn name_changes_every_image() {
    let raw = bytes(1500);
    let first = generate_qr_svgs(file("AB", &raw), QrConfig::default()).unwrap();
    let second = generate_qr_svgs(file("CD", &raw), QrConfig::default()).unwrap();
    assert_eq!(first.len(), second.len());
    for (a, b) in first.iter().zip(second.iter()) {
        assert_ne!(a, b);
    }
}

#[test]
fn images_are_tagged_from_one() {
    let images = vec![String::from("a"), String::from("b"), String::from("c")];
    let tagged = tag_images(&images);
    assert_eq!(tagged.len(), 3);
    for (i, image) in tagged.iter().enumerate() {
        assert_eq!(image.sequence_number, i + 1);
        assert_eq!(image.total_chunks, 3);
        assert_eq!(image.svg, images[i]);
    }
}

#[test]
fn no_images_give_no_tags() {
    assert!(tag_images(&Vec::new()).is_empty());
}

#[test]
fn list_of_files_keeps_its_order() {
    let one = bytes(100);
    let two = bytes(1500);
    let files = vec![file("ONE", &one), file("TWO", &two)];
    let all = generate_all(&files, QrConfig::default()).unwrap();
    assert_eq!(all.len(), 2);
    let first = generate_qr_svgs(file("ONE", &one), QrConfig::default()).unwrap();
    let second = generate_qr_svgs(file("TWO", &two), QrConfig::default()).unwrap();
    assert_eq!(all[0].len(), first.len());
    assert_eq!(all[1].len(), second.len());
    for (i, image) in all[1].iter().enumerate() {
        assert_eq!(image.sequence_number, i + 1);
        assert_eq!(image.total_chunks, second.len());
        assert_eq!(image.svg, second[i]);
    }
    assert_eq!(all[0][0].svg, first[0]);
}

#[test]
fn empty_list_gives_an_empty_result() {
    assert!(generate_all(&Vec::new(), QrConfig::default()).unwrap().is_empty());
}

#[test]
fn one_failing_file_fails_the_list() {
    let files = vec![file("GOOD", &bytes(100)), file("BAD", &[1, 2, 3]), file("ALSO", &bytes(50))];
    assert_eq!(generate_all(&files, QrConfig::default()).err(), Some(Error::TooShort));
}

#[test]
fn first_failing_file_decides() {
    let broken = PtcData { base64: String::from("?"), name: String::from("X"), description: None };
    let files = vec![broken, file("BAD", &[1, 2, 3])];
    assert_eq!(generate_all(&files, QrConfig::default()).err(), Some(Error::Decode));
    let broken = PtcData { base64: String::from("?"), name: String::from("X"), description: None };
    let files = vec![file("BAD", &[1, 2, 3]), broken];
    assert_eq!(generate_all(&files, QrConfig::default()).err(), Some(Error::TooShort));
}

#[test]
fn description_does_not_change_the_images() {
    let raw = bytes(64);
    let mut described = file("AB", &raw);
    described.description = Some(String::from("a program"));
    assert_eq!(
        generate_qr_svgs(described, QrConfig::default()),
        generate_qr_svgs(file("AB", &raw), QrConfig::default())
    );
}

#[test]
fn files_of_many_sizes_are_generated() {
    for len in [12usize, 13, 100, 629, 630, 631, 5000, 20_000] {
        let raw = bytes(len);
        let container = build_container("SIZES", &raw).unwrap();
        let images = generate_qr_svgs(file("SIZES", &raw), QrConfig::default()).unwrap();
        assert_eq!(images.len(), (container.len() + 629) / 630);
    }
}
