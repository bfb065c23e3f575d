use desk_todo::icon::{calendar_icon_data, ICON_SIZE};
use desk_todo::png::{adler32, crc32, encode_png, png_chunk};

#[test]
fn png_encode_matches_expected_size() {
    let width: u32 = 2;
    let height: u32 = 2;
    let rgba: Vec<u8> = (0..16).collect();
    let png = encode_png(&rgba, width, height);
    assert_eq!(&png[..8], &[0x89, b'P', b'N', b'G', b'\r', b'\n', 0x1a, b'\n']);
    assert_eq!(&png[8..12], &13u32.to_be_bytes());
    assert_eq!(&png[12..16], b"IHDR");
    assert_eq!(&png[16..20], &width.to_be_bytes());
    assert_eq!(&png[20..24], &height.to_be_bytes());
    // signature 8 + IHDR 25 + IDAT (12 + zlib 29) + IEND 12
    assert_eq!(png.len(), 86);
    assert_eq!(&png[37..41], b"IDAT");
    assert_eq!(&png[png.len() - 8..png.len() - 4], b"IEND");
}

#[test]
fn checksums_match_known_values() {
    assert_eq!(crc32(b""), 0);
    assert_eq!(crc32(b"123456789"), 0xCBF4_3926);
    assert_eq!(crc32(b"IEND"), 0xAE42_6082);
    assert_eq!(adler32(b""), 1);
    assert_eq!(adler32(b"Wikipedia"), 0x11E6_0398);
    let long = vec![0xffu8; 100_000];
    let (mut a, mut b) = (1u64, 0u64);
    for byte in &long {
        a = (a + *byte as u64) % 65_521;
        b = (b + a) % 65_521;
    }
    assert_eq!(adler32(&long) as u64, b << 16 | a);
}

#[test]
fn chunks_have_length_tag_data_and_checksum() {
    let chunk = png_chunk(b"IEND", &[]);
    assert_eq!(chunk, vec![0, 0, 0, 0, b'I', b'E', b'N', b'D', 0xAE, 0x42, 0x60, 0x82]);
    let chunk = png_chunk(b"abcd", &[1, 2, 3]);
    assert_eq!(&chunk[..11], &[0, 0, 0, 3, b'a', b'b', b'c', b'd', 1, 2, 3]);
    assert_eq!(&chunk[11..], &crc32(b"abcd\x01\x02\x03").to_be_bytes());
}

fn stored_data(zlib: &[u8]) -> Vec<u8> {
    assert_eq!(&zlib[..2], &[0x78, 0x01]);
    let mut at = 2;
    let mut data: Vec<u8> = Vec::new();
    loop {
        let last = zlib[at];
        let length = u16::from_le_bytes([zlib[at + 1], zlib[at + 2]]);
        assert_eq!(u16::from_le_bytes([zlib[at + 3], zlib[at + 4]]), !length);
        at += 5;
        data.extend_from_slice(&zlib[at..at + length as usize]);
        at += length as usize;
        if last == 1 {
            break;
        }
    }
    assert_eq!(&zlib[at..], &adler32(&data).to_be_bytes());
    data
}

#[test]
fn the_pixels_can_be_read_from_the_file() {
    let width = 200usize;
    let height = 100usize;
    let rgba: Vec<u8> = (0..width * height * 4).map(|i| (i * 7 % 251) as u8).collect();
    let png = encode_png(&rgba, width as u32, height as u32);
    let length = u32::from_be_bytes([png[33], png[34], png[35], png[36]]) as usize;
    let raw = stored_data(&png[41..41 + length]);
    assert_eq!(raw.len(), (width * 4 + 1) * height);
    let mut pixels: Vec<u8> = Vec::new();
    for row in raw.chunks(width * 4 + 1) {
        assert_eq!(row[0], 0);
        pixels.extend_from_slice(&row[1..]);
    }
    assert_eq!(pixels, rgba);
}

#[test]
fn the_flat_icon_is_a_calendar_sheet() {
    let rgba = calendar_icon_data();
    assert_eq!(rgba.len(), 64 * 64 * 4);
    let pixel = |x: usize, y: usize| rgba[(y * ICON_SIZE + x) * 4..][..4].to_vec();
    assert_eq!(pixel(0, 0), vec![45, 92, 180, 255]);
    assert_eq!(pixel(20, 4), vec![235, 105, 95, 255]);
    assert_eq!(pixel(12, 13), vec![235, 105, 95, 255]);
    assert_eq!(pixel(52, 13), vec![45, 92, 180, 255]);
    assert_eq!(pixel(12, 22), vec![255, 255, 255, 255]);
    assert_eq!(pixel(47, 43), vec![255, 255, 255, 255]);
    assert_eq!(pixel(20, 22), vec![45, 92, 180, 255]);
    assert_eq!(pixel(63, 63), vec![45, 92, 180, 255]);
}
