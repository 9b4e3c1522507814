use flate2::read::ZlibDecoder;
use qr_transfer::container::assemble_container;
use qr_transfer::container::build_container;
use qr_transfer::container::compress;
use qr_transfer::container::encode_length;
use qr_transfer::container::pad_name;
use qr_transfer::container::HEADER_LEN;
use qr_transfer::container::MIN_RAW_LEN;
use qr_transfer::errors::Error;
use qr_transfer::errors::ErrorWrapper;
use std::io::Read;

fn inflate(stream: &[u8]) -> Vec<u8> {
    let mut decoder = ZlibDecoder::new(stream);
    let mut raw = Vec::new();
    decoder.read_to_end(&mut raw).unwrap();
    raw
}

fn sample_raw(len: usize) -> Vec<u8> {
    (0..len).map(|i| (i * 7 + 3) as u8).collect()
}

#[test]
fn short_name_is_padded_with_zeros() {
    assert_eq!(pad_name(b"AB"), vec![b'A', b'B', 0, 0, 0, 0, 0, 0]);
}

#[test]
fn empty_name_is_all_zeros() {
    assert_eq!(pad_name(b""), vec![0u8; 8]);
}

#[test]
fn name_of_eight_bytes_fills_the_field() {
    assert_eq!(pad_name(b"ABCDEFGH"), b"ABCDEFGH".to_vec());
}

#[test]
fn long_name_gives_its_first_eight_bytes() {
    assert_eq!(pad_name(b"ABCDEFGHIJKL"), b"ABCDEFGH".to_vec());
}

#[test]
fn length_is_little_endian() {
    assert_eq!(encode_length(0), vec![0, 0, 0, 0]);
    assert_eq!(encode_length(16), vec![16, 0, 0, 0]);
    assert_eq!(encode_length(0x0102_0304), vec![4, 3, 2, 1]);
    assert_eq!(encode_length(256), vec![0, 1, 0, 0]);
    assert_eq!(encode_length(0xffff_ffff), vec![255, 255, 255, 255]);
}

#[test]
fn length_beyond_four_bytes_keeps_its_low_bits() {
    let len = ((1u64 << 32) + 16) as usize;
    assert_eq!(encode_length(len), (len as u32).to_le_bytes().to_vec());
}

#[test]
fn length_agrees_with_std() {
    for len in [1usize, 255, 256, 65_535, 65_536, 16_777_215, 16_777_216, 305_419_896] {
        assert_eq!(encode_length(len), (len as u32).to_le_bytes().to_vec());
    }
}

#[test]
fn container_has_the_fixed_layout() {
    let raw = sample_raw(40);
    let compressed = vec![9u8, 8, 7, 6, 5];
    let container = assemble_container("PRG", &raw, &compressed).unwrap();
    assert_eq!(container.len(), HEADER_LEN + 5);
    assert_eq!(&container[0..8], &[b'P', b'R', b'G', 0, 0, 0, 0, 0]);
    assert_eq!(&container[8..12], &raw[8..12]);
    assert_eq!(&container[12..16], &[5, 0, 0, 0]);
    assert_eq!(&container[16..20], &[40, 0, 0, 0]);
    assert_eq!(&container[20..], &compressed[..]);
}

#[test]
fn example_container_has_thirty_two_bytes() {
    let raw = vec![0u8; 16];
    let compressed = vec![1u8; 12];
    let container = assemble_container("AB", &raw, &compressed).unwrap();
    assert_eq!(container.len(), 32);
    assert_eq!(&container[0..8], &[b'A', b'B', 0, 0, 0, 0, 0, 0]);
    assert_eq!(&container[8..12], &[0, 0, 0, 0]);
    assert_eq!(&container[12..16], &[12, 0, 0, 0]);
    assert_eq!(&container[16..20], &[16, 0, 0, 0]);
}

#[test]
fn type_tag_is_taken_from_offset_eight() {
    let mut raw = vec![0u8; 12];
    raw[8] = b'P';
    raw[9] = b'R';
    raw[10] = b'G';
    raw[11] = b'0';
    let container = build_container("X", &raw).unwrap();
    assert_eq!(&container[8..12], b"PRG0");
}

#[test]
fn file_of_eleven_bytes_is_too_short() {
    let raw = vec![1u8; MIN_RAW_LEN - 1];
    assert_eq!(build_container("AB", &raw), Err(Error::TooShort));
    assert_eq!(assemble_container("AB", &raw, &[1, 2, 3]), Err(Error::TooShort));
}

#[test]
fn empty_file_is_too_short() {
    assert_eq!(build_container("AB", &[]), Err(Error::TooShort));
}

#[test]
fn file_of_twelve_bytes_is_accepted() {
    let raw = vec![1u8; MIN_RAW_LEN];
    let container = build_container("AB", &raw).unwrap();
    assert_eq!(&container[16..20], &[12, 0, 0, 0]);
}

#[test]
fn compressed_bytes_inflate_to_the_file() {
    let raw = sample_raw(500);
    let stream = compress(&raw).unwrap();
    assert_ne!(stream, raw);
    assert_eq!(inflate(&stream), raw);
}

#[test]
fn compressor_writes_a_zlib_header_of_the_highest_level() {
    let stream = compress(&vec![0u8; 64]).unwrap();
    assert_eq!(stream[0], 0x78);
    assert_eq!(stream[1], 0xda);
}

#[test]
fn built_container_carries_the_compressed_file() {
    let raw = sample_raw(300);
    let container = build_container("NAME", &raw).unwrap();
    let stored = u32::from_le_bytes([container[12], container[13], container[14], container[15]]);
    assert_eq!(stored as usize, container.len() - HEADER_LEN);
    assert_eq!(&container[16..20], &300u32.to_le_bytes());
    assert_eq!(inflate(&container[20..]), raw);
    assert_eq!(container[20..].to_vec(), compress(&raw).unwrap());
}

#[test]
fn name_with_wide_characters_is_cut_by_bytes() {
    let container = assemble_container("ééééé", &sample_raw(12), &[]).unwrap();
    assert_eq!(&container[0..8], &"éééé".as_bytes()[..]);
    assert_eq!(container.len(), HEADER_LEN);
}

#[test]
fn building_twice_gives_the_same_container() {
    let raw = sample_raw(1000);
    assert_eq!(build_container("SAME", &raw), build_container("SAME", &raw));
}

#[test]
fn different_names_give_different_containers() {
    let raw = sample_raw(64);
    let first = build_container("AB", &raw).unwrap();
    let second = build_container("AC", &raw).unwrap();
    assert_ne!(first, second);
    assert_eq!(first[8..], second[8..]);
}

#[test]
fn error_is_wrapped_unchanged() {
    assert_eq!(ErrorWrapper::from(Error::TooShort).error, Error::TooShort);
    assert_eq!(ErrorWrapper::from(Error::Render), ErrorWrapper { error: Error::Render });
}
