use stegsolve::extract::{BitOrder, ChannelSelection, ExtractDialog, ExtractDirection, RgbOrder};
use stegsolve::grid::{Pixel, PixelGrid};

const RED: usize = 0;
const GREEN: usize = 1;
const BLUE: usize = 2;
const ALPHA: usize = 3;

fn grid(width: u32, height: u32, pixels: Vec<Pixel>) -> PixelGrid {
    PixelGrid::from_pixels(width, height, pixels).unwrap()
}

#[test]
fn single_red_msb_packs_into_top_bit() {
    let img = grid(1, 1, vec![Pixel::new(0b1010_1010, 0, 0, 0)]);
    let mut d = ExtractDialog::default();
    d.channel_selections[RED].bits[0] = true;
    d.generate_extract(&img);
    assert_eq!(d.extract_data, vec![0x80]);
}

#[test]
fn channel_selection_starts_empty() {
    let c = ChannelSelection::new("Red");
    assert_eq!(c.name, "Red");
    assert_eq!(c.bits, [false; 8]);
}

#[test]
fn default_dialog_settings() {
    let d = ExtractDialog::default();
    assert!(d.open);
    assert_eq!(d.channel_selections.len(), 4);
    assert_eq!(d.channel_selections[ALPHA].name, "Alpha");
    assert!(d.extract_direction == ExtractDirection::Row);
    assert!(d.bit_order == BitOrder::MSBFirst);
    assert!(d.rgb_order == RgbOrder::RGB);
    assert!(d.preview_hex_dump);
    assert!(d.extract_data.is_empty());
}

#[test]
fn no_selection_gives_empty_output() {
    let img = grid(2, 1, vec![Pixel::new(1, 2, 3, 4), Pixel::new(5, 6, 7, 8)]);
    let d = ExtractDialog::default();
    assert!(d.extract(&img).is_empty());
}

#[test]
fn output_length_is_rounded_up() {
    let pixels: Vec<Pixel> = (0..5u8).map(|i| Pixel::new(i, i, i, i)).collect();
    let img = grid(5, 1, pixels);
    let mut d = ExtractDialog::default();
    d.channel_selections[RED].bits[7] = true;
    d.channel_selections[GREEN].bits[7] = true;
    d.channel_selections[BLUE].bits[7] = true;
    // 5 pixels * 3 bits = 15 bits -> 2 bytes
    assert_eq!(d.extract(&img).len(), 2);
    d.channel_selections[ALPHA].bits = [true; 8];
    // 5 * 11 = 55 bits -> 7 bytes
    assert_eq!(d.extract(&img).len(), 7);
}

#[test]
fn all_bits_row_major_msb_first_is_argb() {
    let img = grid(2, 1, vec![Pixel::new(0x11, 0x22, 0x33, 0x44), Pixel::new(0x55, 0x66, 0x77, 0x88)]);
    let mut d = ExtractDialog::default();
    for c in d.channel_selections.iter_mut() {
        c.bits = [true; 8];
    }
    assert_eq!(d.extract(&img), vec![0x44, 0x11, 0x22, 0x33, 0x88, 0x55, 0x66, 0x77]);
}

#[test]
fn channel_order_changes_group_order() {
    let img = grid(1, 1, vec![Pixel::new(0x11, 0x22, 0x33, 0x44)]);
    let mut d = ExtractDialog::default();
    for c in d.channel_selections.iter_mut() {
        c.bits = [true; 8];
    }
    d.rgb_order = RgbOrder::BGR;
    assert_eq!(d.extract(&img), vec![0x44, 0x33, 0x22, 0x11]);
    d.rgb_order = RgbOrder::GBR;
    assert_eq!(d.extract(&img), vec![0x44, 0x22, 0x33, 0x11]);
}

#[test]
fn lsb_first_reverses_each_byte() {
    let img = grid(1, 1, vec![Pixel::new(0x01, 0x00, 0x00, 0x80)]);
    let mut d = ExtractDialog::default();
    d.channel_selections[RED].bits = [true; 8];
    d.channel_selections[ALPHA].bits = [true; 8];
    d.bit_order = BitOrder::LSBFirst;
    // alpha 0x80 read from bit 0 upward: 0000_0001; red 0x01 read upward: 1000_0000
    assert_eq!(d.extract(&img), vec![0x01, 0x80]);
}

#[test]
fn column_major_visits_columns_first() {
    // 2 x 2 image, red LSB only: pixel (x, y) has red bit = x XOR y parity pattern
    let img = grid(
        2,
        2,
        vec![Pixel::new(1, 0, 0, 0), Pixel::new(0, 0, 0, 0), Pixel::new(1, 0, 0, 0), Pixel::new(1, 0, 0, 0)],
    );
    let mut d = ExtractDialog::default();
    d.channel_selections[RED].bits[7] = true;
    // row-major bits: 1,0,1,1 -> 1011_0000
    assert_eq!(d.extract(&img), vec![0xb0]);
    d.extract_direction = ExtractDirection::Column;
    // column-major bits: (0,0)=1,(0,1)=1,(1,0)=0,(1,1)=1 -> 1101_0000
    assert_eq!(d.extract(&img), vec![0xd0]);
}

#[test]
fn extraction_repeats_exactly() {
    let pixels: Vec<Pixel> = (0..12u8).map(|i| Pixel::new(i * 17, i * 3, 255 - i, i * 21)).collect();
    let img = grid(4, 3, pixels);
    let mut d = ExtractDialog::default();
    d.channel_selections[RED].bits[6] = true;
    d.channel_selections[BLUE].bits[7] = true;
    d.channel_selections[ALPHA].bits[0] = true;
    d.extract_direction = ExtractDirection::Column;
    assert_eq!(d.extract(&img), d.extract(&img));
    assert_eq!(d.extract(&img).len(), (12 * 3 + 7) / 8);
}

#[test]
fn preview_with_hex_dump() {
    let mut d = ExtractDialog::default();
    d.extract_data = b"Hello, world!\x00\x01\xffAB".to_vec();
    d.generate_preview();
    let expected = "48656c6c6f2c2077 6f726c64210001ff  Hello, w orld!...\n4142  AB\n";
    assert_eq!(d.preview_text, expected);
}

#[test]
fn preview_without_hex_dump() {
    let mut d = ExtractDialog::default();
    d.preview_hex_dump = false;
    d.extract_data = vec![0x41, 0x0a, 0x7f];
    // line feed and DEL are not printable
    d.generate_preview();
    assert_eq!(d.preview_text, "A..\n");
}

#[test]
fn preview_shows_control_bytes_as_dots() {
    let mut d = ExtractDialog::default();
    d.extract_data = vec![0x0a, 0x09, 0x20, 0x7e];
    d.generate_preview();
    assert_eq!(d.preview_text, "0a09207e  .. ~\n");
}

#[test]
fn preview_of_nothing_is_empty() {
    let mut d = ExtractDialog::default();
    d.generate_preview();
    assert_eq!(d.preview_text, "");
}
