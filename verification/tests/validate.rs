use wallpaper_cache::validate::{is_left_unread, judge_size, validate_image, Rejection};

fn frame_header(marker: u8, width: u16, height: u16) -> Vec<u8> {
    let mut bytes = vec![0xff, marker, 0x00, 0x0b, 0x08];
    bytes.extend_from_slice(&height.to_be_bytes());
    bytes.extend_from_slice(&width.to_be_bytes());
    bytes.extend_from_slice(&[0x01, 0x01, 0x11, 0x00]);
    bytes
}

fn jpeg(width: u16, height: u16) -> Vec<u8> {
    let mut bytes = vec![0xff, 0xd8];
    bytes.extend_from_slice(&frame_header(0xc0, width, height));
    bytes
}

fn jfif(width: u16, height: u16) -> Vec<u8> {
    let mut bytes = vec![0xff, 0xd8, 0xff, 0xe0, 0x00, 0x10];
    bytes.extend_from_slice(b"JFIF\0");
    bytes.extend_from_slice(&[0x01, 0x01, 0x00, 0x00, 0x01, 0x00, 0x01, 0x00, 0x00]);
    bytes.extend_from_slice(&[0xff, 0xfe, 0x00, 0x05, b'a', b'b', b'c']);
    bytes.extend_from_slice(&frame_header(0xc2, width, height));
    bytes.extend_from_slice(&[0xff, 0xda, 0x00, 0x08, 0x01, 0x01, 0x00, 0x00, 0x3f, 0x00, 0x12, 0x34]);
    bytes
}

fn farbfeld(width: u32, height: u32) -> Vec<u8> {
    let mut bytes = b"farbfeld".to_vec();
    bytes.extend_from_slice(&width.to_be_bytes());
    bytes.extend_from_slice(&height.to_be_bytes());
    bytes
}

fn bitmap_header(width: i32, height: i32, bits: u16) -> Vec<u8> {
    let mut bytes = 40u32.to_le_bytes().to_vec();
    bytes.extend_from_slice(&width.to_le_bytes());
    bytes.extend_from_slice(&height.to_le_bytes());
    bytes.extend_from_slice(&1u16.to_le_bytes());
    bytes.extend_from_slice(&bits.to_le_bytes());
    bytes.extend_from_slice(&[0u8; 24]);
    bytes
}

fn bitmap(width: i32, height: i32) -> Vec<u8> {
    let mut bytes = b"BM".to_vec();
    bytes.extend_from_slice(&[0u8; 12]);
    bytes.extend_from_slice(&bitmap_header(width, height, 24));
    bytes
}

fn icon(width: i32, height: i32) -> Vec<u8> {
    let mut bytes = vec![0, 0, 1, 0, 1, 0];
    bytes.extend_from_slice(&[0, 0, 0, 0, 1, 0, 32, 0]);
    bytes.extend_from_slice(&40u32.to_le_bytes());
    bytes.extend_from_slice(&22u32.to_le_bytes());
    bytes.extend_from_slice(&bitmap_header(width, 2 * height, 32));
    bytes
}

fn gif(width: u16, height: u16) -> Vec<u8> {
    let mut bytes = b"GIF89a".to_vec();
    bytes.extend_from_slice(&width.to_le_bytes());
    bytes.extend_from_slice(&height.to_le_bytes());
    bytes.extend_from_slice(&[0x00, 0x00, 0x00]);
    bytes.extend_from_slice(&[0x21, 0xfe, 0x02, b'h', b'i', 0x00]);
    bytes.extend_from_slice(&[0x2c, 0, 0, 0, 0, 1, 0, 1, 0, 0]);
    bytes
}

fn crc32(bytes: &[u8]) -> u32 {
    let mut crc = 0xffff_ffffu32;
    for byte in bytes {
        crc ^= u32::from(*byte);
        for _ in 0..8 {
            crc = if crc & 1 == 1 { (crc >> 1) ^ 0xedb8_8320 } else { crc >> 1 };
        }
    }
    !crc
}

fn png_chunk(kind: &[u8; 4], data: &[u8]) -> Vec<u8> {
    let mut body = kind.to_vec();
    body.extend_from_slice(data);
    let mut bytes = (data.len() as u32).to_be_bytes().to_vec();
    bytes.extend_from_slice(&body);
    bytes.extend_from_slice(&crc32(&body).to_be_bytes());
    bytes
}

fn png(width: u32, height: u32) -> Vec<u8> {
    let mut header = width.to_be_bytes().to_vec();
    header.extend_from_slice(&height.to_be_bytes());
    header.extend_from_slice(&[8, 2, 0, 0, 0]);
    let mut bytes = vec![0x89, b'P', b'N', b'G', b'\r', b'\n', 0x1a, b'\n'];
    bytes.extend_from_slice(&png_chunk(b"IHDR", &header));
    bytes.extend_from_slice(&png_chunk(b"gAMA", &45455u32.to_be_bytes()));
    bytes.extend_from_slice(&png_chunk(b"IDAT", &[0x78, 0x01]));
    bytes
}

fn qoi(width: u32, height: u32) -> Vec<u8> {
    let mut bytes = b"qoif".to_vec();
    bytes.extend_from_slice(&width.to_be_bytes());
    bytes.extend_from_slice(&height.to_be_bytes());
    bytes.extend_from_slice(&[3, 0]);
    bytes
}

fn dds(width: u32, height: u32) -> Vec<u8> {
    let mut bytes = b"DDS ".to_vec();
    bytes.extend_from_slice(&124u32.to_le_bytes());
    bytes.extend_from_slice(&0x1007u32.to_le_bytes());
    bytes.extend_from_slice(&height.to_le_bytes());
    bytes.extend_from_slice(&width.to_le_bytes());
    bytes.extend_from_slice(&[0u8; 12]);
    bytes.extend_from_slice(&[0u8; 44]);
    bytes.extend_from_slice(&32u32.to_le_bytes());
    bytes.extend_from_slice(&4u32.to_le_bytes());
    bytes.extend_from_slice(b"DXT1");
    bytes.extend_from_slice(&[0u8; 20]);
    bytes.extend_from_slice(&[0u8; 8]);
    bytes.extend_from_slice(&[0u8; 12]);
    bytes
}

fn radiance(width: u32, height: u32) -> Vec<u8> {
    format!("#?RADIANCE\nFORMAT=32-bit_rle_rgbe\nEXPOSURE=1.5\n\n-Y {} +X {}\n", height, width).into_bytes()
}

fn pixmap(width: u32, height: u32) -> Vec<u8> {
    let mut bytes = vec![0x50, 0x36];
    bytes.extend_from_slice(format!("\n# made by hand\n{} {}\n255\n", width, height).as_bytes());
    bytes
}

fn tiff_entry(tag: u16, kind: u16, count: u32, value: u32) -> Vec<u8> {
    let mut bytes = tag.to_le_bytes().to_vec();
    bytes.extend_from_slice(&kind.to_le_bytes());
    bytes.extend_from_slice(&count.to_le_bytes());
    bytes.extend_from_slice(&value.to_le_bytes());
    bytes
}

fn tiff(width: u32, height: u32, samples: u32, planar: u32) -> Vec<u8> {
    let entries = [
        tiff_entry(256, 4, 1, width),
        tiff_entry(257, 4, 1, height),
        tiff_entry(258, 3, 1, 8),
        tiff_entry(262, 3, 1, 1),
        tiff_entry(273, 4, 1, 200),
        tiff_entry(277, 3, 1, samples),
        tiff_entry(278, 4, 1, 1),
        tiff_entry(279, 4, 1, 1),
        tiff_entry(284, 3, 1, planar),
    ];
    let mut bytes = vec![b'I', b'I', 42, 0, 8, 0, 0, 0];
    bytes.extend_from_slice(&(entries.len() as u16).to_le_bytes());
    for entry in entries.iter() {
        bytes.extend_from_slice(entry);
    }
    bytes.extend_from_slice(&[0, 0, 0, 0]);
    bytes
}

#[test]
fn judgement_by_size() {
    assert_eq!(judge_size(Some((1920, 1080))), Ok((1920, 1080)));
    assert_eq!(judge_size(Some((1920, 1920))), Ok((1920, 1920)));
    assert_eq!(judge_size(Some((3840, 3840))), Ok((3840, 3840)));
    assert_eq!(judge_size(Some((u32::MAX, u32::MAX))), Ok((u32::MAX, u32::MAX)));
    assert_eq!(judge_size(Some((0, 0))), Err(Rejection::TooNarrow));
    assert_eq!(judge_size(Some((1919, 10))), Err(Rejection::TooNarrow));
    assert_eq!(judge_size(Some((1000, 2000))), Err(Rejection::TooNarrow));
    assert_eq!(judge_size(Some((1920, 1921))), Err(Rejection::Portrait));
    assert_eq!(judge_size(None), Err(Rejection::Undecodable));
}

#[test]
fn jpeg_size_is_read_from_the_frame_header() {
    assert_eq!(validate_image(&jpeg(1920, 1080)), Ok((1920, 1080)));
    assert_eq!(validate_image(&jpeg(2560, 2560)), Ok((2560, 2560)));
    assert_eq!(validate_image(&jpeg(65535, 65535)), Ok((65535, 65535)));
    assert_eq!(validate_image(&jfif(4000, 3000)), Ok((4000, 3000)));
    assert_eq!(validate_image(&jpeg(1919, 1080)), Err(Rejection::TooNarrow));
    assert_eq!(validate_image(&jpeg(1, 1)), Err(Rejection::TooNarrow));
    assert_eq!(validate_image(&jpeg(1920, 1921)), Err(Rejection::Portrait));
    assert_eq!(validate_image(&jfif(640, 480)), Err(Rejection::TooNarrow));
}

#[test]
fn every_format_that_is_read_is_judged_by_its_size() {
    assert_eq!(validate_image(&farbfeld(4000, 3000)), Ok((4000, 3000)));
    assert_eq!(validate_image(&bitmap(4000, 3000)), Ok((4000, 3000)));
    assert_eq!(validate_image(&bitmap(4000, -3000)), Ok((4000, 3000)));
    assert_eq!(validate_image(&png(4000, 3000)), Ok((4000, 3000)));
    assert_eq!(validate_image(&gif(4000, 3000)), Ok((4000, 3000)));
    assert_eq!(validate_image(&qoi(4000, 3000)), Ok((4000, 3000)));
    assert_eq!(validate_image(&dds(4000, 3000)), Ok((4000, 3000)));
    assert_eq!(validate_image(&radiance(4000, 3000)), Ok((4000, 3000)));
    assert_eq!(validate_image(&pixmap(4000, 3000)), Ok((4000, 3000)));
    assert_eq!(validate_image(&icon(4000, 3000)), Ok((4000, 3000)));
}

#[test]
fn size_policy_holds_for_every_format() {
    assert_eq!(validate_image(&farbfeld(640, 480)), Err(Rejection::TooNarrow));
    assert_eq!(validate_image(&farbfeld(1920, 1921)), Err(Rejection::Portrait));
    assert_eq!(validate_image(&bitmap(1919, 1080)), Err(Rejection::TooNarrow));
    assert_eq!(validate_image(&png(1920, 4000)), Err(Rejection::Portrait));
    assert_eq!(validate_image(&gif(800, 600)), Err(Rejection::TooNarrow));
    assert_eq!(validate_image(&qoi(1920, 1080)), Ok((1920, 1080)));
    assert_eq!(validate_image(&radiance(1920, 1920)), Ok((1920, 1920)));
}

#[test]
fn unreadable_bytes_are_rejected() {
    assert_eq!(validate_image(b""), Err(Rejection::Undecodable));
    assert_eq!(validate_image(b"this is not an image"), Err(Rejection::Undecodable));
    assert_eq!(validate_image(b"<html>1920 1080</html>"), Err(Rejection::Undecodable));
    assert_eq!(validate_image(&[0xff, 0xd8, 0xff]), Err(Rejection::Undecodable));
    assert_eq!(validate_image(&[0xff, 0xd8, 0xff, 0xd9]), Err(Rejection::Undecodable));
    assert_eq!(validate_image(&jpeg(1920, 1080)[..9]), Err(Rejection::Undecodable));
    assert_eq!(validate_image(&jpeg(0, 1080)), Err(Rejection::Undecodable));
    assert_eq!(validate_image(&jpeg(1920, 0)), Err(Rejection::Undecodable));
    assert_eq!(validate_image(&[0x89, b'P', b'N', b'G', b'\r', b'\n', 0x1a, b'\n']), Err(Rejection::Undecodable));
    assert_eq!(validate_image(&png(4000, 3000)[..20]), Err(Rejection::Undecodable));
    assert_eq!(validate_image(&png(0, 3000)), Err(Rejection::Undecodable));
    assert_eq!(validate_image(b"farbfeld\x00\x00"), Err(Rejection::Undecodable));
    assert_eq!(validate_image(b"GIF89a\x80\x07"), Err(Rejection::Undecodable));
    assert_eq!(validate_image(&bitmap(4000, 0)), Err(Rejection::Undecodable));
    assert_eq!(validate_image(&dds(4001, 3000)), Err(Rejection::Undecodable));
    assert_eq!(validate_image(&qoi(0, 0)), Err(Rejection::Undecodable));
    let mut damaged = png(4000, 3000);
    damaged[30] ^= 0xff;
    assert_eq!(validate_image(&damaged), Err(Rejection::Undecodable));
}

#[test]
fn webp_and_tiff_are_left_unread() {
    let webp = b"RIFF\x10\x00\x00\x00WEBPVP8L\x04\x00\x00\x00\x2f\x00\x00\x00".to_vec();
    assert!(is_left_unread(&webp));
    assert!(is_left_unread(b"RIFF"));
    assert!(is_left_unread(b"MM\x00*\x00\x00\x00\x08"));
    assert!(is_left_unread(b"II*\x00\x08\x00\x00\x00"));
    assert!(is_left_unread(&tiff(4000, 3000, 1, 1)));
    assert_eq!(validate_image(&webp), Err(Rejection::Undecodable));
    assert_eq!(validate_image(&tiff(4000, 3000, 1, 1)), Err(Rejection::Undecodable));
    assert_eq!(validate_image(&tiff(1, 70000, 65535, 2)), Err(Rejection::Undecodable));
}

#[test]
fn other_content_is_handed_on() {
    assert!(!is_left_unread(b""));
    assert!(!is_left_unread(b"RIF"));
    assert!(!is_left_unread(b"RIFX"));
    assert!(!is_left_unread(b"II+\x00"));
    assert!(!is_left_unread(b"MM*\x00"));
    assert!(!is_left_unread(&jpeg(1, 1)));
    assert!(!is_left_unread(&png(1, 1)));
    assert!(!is_left_unread(&icon(1, 1)));
    assert!(!is_left_unread(&farbfeld(1, 1)));
    assert!(!is_left_unread(&bitmap(1, 1)));
}
