use stegsolve::apng::{check_apng, ApngInfo};
use stegsolve::bmpfile::analyse_bmp;
use stegsolve::bytes::{get_dword_be, get_dword_le, get_word_le, uf};
use stegsolve::filekind::{detect_format, FileKind};
use stegsolve::giffile::{analyse_gif, GifEvent};
use stegsolve::hexdump::hex_dump;
use stegsolve::jpegfile::jpeg_layout;
use stegsolve::pngfile::png_chunks;

const SIG: [u8; 8] = [0x89, 0x50, 0x4e, 0x47, 0x0d, 0x0a, 0x1a, 0x0a];

fn chunk(kind: &[u8; 4], body: &[u8], crc: u32) -> Vec<u8> {
    let mut out = (body.len() as u32).to_be_bytes().to_vec();
    out.extend_from_slice(kind);
    out.extend_from_slice(body);
    out.extend_from_slice(&crc.to_be_bytes());
    out
}

#[test]
fn byte_readers_return_zero_past_the_end() {
    let data = [0x01, 0x02, 0x03, 0x04, 0x05];
    assert_eq!(uf(&data, 4), 5);
    assert_eq!(uf(&data, 5), 0);
    assert_eq!(get_word_le(&data, 0), 0x0201);
    assert_eq!(get_word_le(&data, 4), 0);
    assert_eq!(get_dword_le(&data, 1), 0x05040302);
    assert_eq!(get_dword_le(&data, 2), 0);
    assert_eq!(get_dword_be(&data, 0), 0x01020304);
    assert_eq!(get_dword_be(&data, 2), 0);
}

#[test]
fn formats_are_told_by_magic_bytes() {
    assert_eq!(detect_format(b"BM......"), FileKind::Bmp);
    assert_eq!(detect_format(&SIG), FileKind::Png);
    assert_eq!(detect_format(b"GIF89a"), FileKind::Gif);
    assert_eq!(detect_format(b"GIF"), FileKind::Unknown);
    assert_eq!(detect_format(&[0xff, 0xd8]), FileKind::Jpeg);
    assert_eq!(detect_format(b""), FileKind::Unknown);
}

#[test]
fn png_chunks_with_crc_check() {
    let mut data = SIG.to_vec();
    data.extend(chunk(b"tEXt", b"hi", 0x1234_5678));
    data.extend(chunk(b"IEND", b"", 0xAE42_6082));
    data.extend(chunk(b"junk", b"zz", 0));
    let chunks = png_chunks(&data).unwrap();
    assert_eq!(chunks.len(), 2);
    assert_eq!(chunks[0].offset, 8);
    assert_eq!(&chunks[0].kind, b"tEXt");
    assert_eq!(chunks[0].length, 2);
    assert_eq!(chunks[0].stored_crc, 0x1234_5678);
    assert_ne!(chunks[0].computed_crc, chunks[0].stored_crc);
    assert_eq!(chunks[1].offset, 22);
    assert_eq!(chunks[1].computed_crc, 0xAE42_6082);
    assert_eq!(chunks[1].stored_crc, chunks[1].computed_crc);
}

#[test]
fn png_walk_stops_at_truncated_chunk() {
    let mut data = SIG.to_vec();
    data.extend_from_slice(&100u32.to_be_bytes());
    data.extend_from_slice(b"IDAT1234");
    assert_eq!(png_chunks(&data).unwrap().len(), 0);
    assert!(png_chunks(b"\x89PNG").is_none());
    assert!(png_chunks(b"not a png file").is_none());
}

#[test]
fn apng_detection() {
    let mut ihdr = 3u32.to_be_bytes().to_vec();
    ihdr.extend_from_slice(&2u32.to_be_bytes());
    ihdr.extend_from_slice(&[8, 6, 0, 0, 0]);
    let mut actl = 5u32.to_be_bytes().to_vec();
    actl.extend_from_slice(&0u32.to_be_bytes());
    let mut data = SIG.to_vec();
    data.extend(chunk(b"IHDR", &ihdr, 0));
    data.extend(chunk(b"acTL", &actl, 0));
    data.extend(chunk(b"IEND", b"", 0));
    assert_eq!(check_apng(&data), Some(ApngInfo { is_apng: true, frame_count: 5, width: 3, height: 2 }));
    let still = [SIG.to_vec(), chunk(b"IHDR", &ihdr, 0)].concat();
    assert_eq!(check_apng(&still), Some(ApngInfo { is_apng: false, frame_count: 1, width: 3, height: 2 }));
    assert_eq!(check_apng(b"GIF89a.."), Some(ApngInfo { is_apng: false, frame_count: 1, width: 0, height: 0 }));
    assert_eq!(check_apng(b"short"), None);
}

#[test]
fn jpeg_segments_and_trailing_bytes() {
    let mut data = vec![0xff, 0xd8];
    data.extend_from_slice(&[0xff, 0xe0, 0x00, 0x04, 0xaa, 0xbb]);
    data.extend_from_slice(&[0xff, 0xc0, 0x00, 0x0b, 0x08, 0x00, 0x20, 0x00, 0x40, 0x01, 0x01, 0x11, 0x00]);
    data.extend_from_slice(&[0xff, 0xd9, 0x00, 0x00, 0x99]);
    let layout = jpeg_layout(&data).unwrap();
    assert_eq!(layout.segments.len(), 3);
    assert_eq!(layout.segments[0].marker, 0xe0);
    assert_eq!(layout.segments[0].length, 4);
    assert_eq!(layout.segments[1].frame_size, Some((64, 32)));
    assert_eq!(layout.segments[2].marker, 0xd9);
    assert_eq!(layout.bad_marker_at, None);
    assert_eq!(layout.end, 21);
    assert!(jpeg_layout(&[0xff, 0xd9]).is_none());
}

#[test]
fn jpeg_walk_reports_bad_marker() {
    let data = [0xff, 0xd8, 0xff, 0xe1, 0x00, 0x02, 0x12, 0x34, 0x56, 0x78];
    let layout = jpeg_layout(&data).unwrap();
    assert_eq!(layout.segments.len(), 1);
    assert_eq!(layout.bad_marker_at, Some(6));
    assert_eq!(layout.end, 6);
}

#[test]
fn gif_blocks() {
    let mut data = b"GIF89a".to_vec();
    data.extend_from_slice(&[0x02, 0x00, 0x03, 0x00, 0x80, 0x00, 0x00]);
    data.extend_from_slice(&[1, 2, 3, 4, 5, 6]);
    data.extend_from_slice(&[0x21, 0xfe, 0x02, b'h', b'i', 0x00]);
    data.extend_from_slice(&[0x21, 0xf9, 0x04, 0x00, 0x0a, 0x00, 0x00, 0x00]);
    data.extend_from_slice(&[0x2c, 0, 0, 0, 0, 2, 0, 3, 0, 0]);
    data.extend_from_slice(&[0x21, 0x01, 0x3b]);
    let gif = analyse_gif(&data).unwrap();
    assert_eq!((gif.width, gif.height), (2, 3));
    assert!(gif.has_global_table);
    assert_eq!(gif.color_resolution, 1);
    assert!(!gif.sorted);
    assert_eq!(gif.global_table_size, 2);
    assert_eq!(gif.global_colors, vec![13, 16]);
    assert_eq!(
        gif.events,
        vec![
            GifEvent::CommentExtension(19),
            GifEvent::CommentText(22, 2),
            GifEvent::GraphicControl(25, true),
            GifEvent::ImageDescriptor(33, true),
            GifEvent::UnknownExtension(43, 0x01),
            GifEvent::Trailer(45),
        ]
    );
    assert!(analyse_gif(b"GIF89a").is_none());
}

#[test]
fn bmp_header_fields() {
    let mut data = vec![0u8; 70];
    data[0] = b'B';
    data[1] = b'M';
    data[2..6].copy_from_slice(&70u32.to_le_bytes());
    data[10..14].copy_from_slice(&62u32.to_le_bytes());
    data[14..18].copy_from_slice(&40u32.to_le_bytes());
    data[18..22].copy_from_slice(&1u32.to_le_bytes());
    data[22..26].copy_from_slice(&1u32.to_le_bytes());
    data[26..28].copy_from_slice(&1u16.to_le_bytes());
    data[28..30].copy_from_slice(&1u16.to_le_bytes());
    let bmp = analyse_bmp(&data).unwrap();
    assert_eq!(bmp.file_size, 70);
    assert_eq!(bmp.bit_count, 1);
    assert_eq!(bmp.color_count, Some(2));
    assert_eq!(bmp.color_entries, vec![54, 58]);
    assert_eq!(bmp.gap, Some((54, 61)));
    assert!(analyse_bmp(&data[..53]).is_none());
}

#[test]
fn hex_dump_rows() {
    let data: Vec<u8> = (0x41u8..0x41 + 18).collect();
    let mut report = vec!["x".to_string()];
    hex_dump(&data, 0, 100, &mut report);
    assert_eq!(
        report,
        vec![
            "x",
            "十六进制:",
            "41 42 43 44 45 46 47 48  49 4A 4B 4C 4D 4E 4F 50 ",
            "51 52 ",
            "ASCII:",
            "ABCDEFGH IJKLMNOP",
            "QR",
        ]
    );
    let mut empty = Vec::new();
    hex_dump(&data, 18, 20, &mut empty);
    assert!(empty.is_empty());
}

#[test]
fn hex_dump_marks_unprintable_bytes() {
    let data = [0x00, 0x20, 0x7f, 0x41];
    let mut report = Vec::new();
    hex_dump(&data, 1, 2, &mut report);
    assert_eq!(report, vec!["十六进制:", "20 7F ", "ASCII:", ".."]);
}
