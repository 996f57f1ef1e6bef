use softrender::color::Color;
use softrender::image::Image;

const RED: Color = Color(255, 0, 0);
const BLACK: Color = Color(0, 0, 0);

fn gamma_table(gamma: f32) -> [u8; 256] {
    let mut table = [0u8; 256];
    for v in 0..256usize {
        let unit = v as f32 / 255.0;
        table[v] = (unit.powf(1.0 / gamma) * 255.0).round() as u8;
    }
    table
}

fn grey_image(width: i32, height: i32, level: u8) -> Image {
    let data = vec![Color(level, level, level); (width * height) as usize];
    Image::from_pixels(width, height, data).unwrap()
}

#[test]
fn new_image_is_black_everywhere() {
    let img = Image::new(4, 3);
    assert_eq!(img.width(), 4);
    assert_eq!(img.height(), 3);
    for y in 0..3 {
        for x in 0..4 {
            assert_eq!(img.pixel_at(x, y), BLACK);
        }
    }
}

#[test]
fn empty_image_has_no_pixel() {
    let mut img = Image::new(0, 0);
    img.set_pixel(0, 0, RED);
    assert_eq!(img.pixel_at(0, 0), BLACK);
    assert!(img.get_raw_bytes().is_empty());
}

#[test]
fn set_pixel_changes_one_pixel_only() {
    let mut img = Image::new(4, 3);
    img.set_pixel(2, 1, RED);
    for y in 0..3 {
        for x in 0..4 {
            let expected = if (x, y) == (2, 1) { RED } else { BLACK };
            assert_eq!(img.pixel_at(x, y), expected);
        }
    }
}

#[test]
fn set_pixel_overwrites() {
    let mut img = Image::new(2, 2);
    img.set_pixel(1, 1, RED);
    img.set_pixel(1, 1, Color(1, 2, 3));
    assert_eq!(img.pixel_at(1, 1), Color(1, 2, 3));
}

#[test]
fn read_outside_the_image_is_black() {
    let mut img = Image::new(2, 2);
    for y in 0..2 {
        for x in 0..2 {
            img.set_pixel(x, y, RED);
        }
    }
    assert_eq!(img.pixel_at(-1, 0), BLACK);
    assert_eq!(img.pixel_at(0, -1), BLACK);
    assert_eq!(img.pixel_at(2, 0), BLACK);
    assert_eq!(img.pixel_at(0, 2), BLACK);
    assert_eq!(img.pixel_at(i32::MAX, i32::MIN), BLACK);
}

#[test]
fn write_outside_the_image_is_dropped() {
    let mut img = Image::new(2, 2);
    img.set_pixel(-1, 0, RED);
    img.set_pixel(0, -1, RED);
    img.set_pixel(2, 1, RED);
    img.set_pixel(1, 2, RED);
    img.set_pixel(i32::MIN, i32::MAX, RED);
    for y in 0..2 {
        for x in 0..2 {
            assert_eq!(img.pixel_at(x, y), BLACK);
        }
    }
}

#[test]
fn no_wraparound_between_rows() {
    let mut img = Image::new(3, 2);
    img.set_pixel(3, 0, RED);
    assert_eq!(img.pixel_at(0, 1), BLACK);
    assert_eq!(img.pixel_at(0, 0), BLACK);
    img.set_pixel(-1, 1, RED);
    assert_eq!(img.pixel_at(2, 0), BLACK);
    assert_eq!(img.pixel_at(2, 1), BLACK);
}

#[test]
fn from_pixels_puts_the_first_row_on_top() {
    let data = vec![
        Color(1, 0, 0),
        Color(2, 0, 0),
        Color(3, 0, 0),
        Color(4, 0, 0),
        Color(5, 0, 0),
        Color(6, 0, 0),
    ];
    let img = Image::from_pixels(3, 2, data).unwrap();
    assert_eq!(img.pixel_at(0, 1), Color(1, 0, 0));
    assert_eq!(img.pixel_at(1, 1), Color(2, 0, 0));
    assert_eq!(img.pixel_at(2, 1), Color(3, 0, 0));
    assert_eq!(img.pixel_at(0, 0), Color(4, 0, 0));
    assert_eq!(img.pixel_at(1, 0), Color(5, 0, 0));
    assert_eq!(img.pixel_at(2, 0), Color(6, 0, 0));
}

#[test]
fn from_pixels_wants_one_pixel_per_coordinate() {
    assert!(Image::from_pixels(2, 2, vec![BLACK; 3]).is_none());
    assert!(Image::from_pixels(2, 2, vec![BLACK; 5]).is_none());
    assert!(Image::from_pixels(-1, 2, vec![]).is_none());
    assert!(Image::from_pixels(2, -1, vec![]).is_none());
    assert!(Image::from_pixels(-2, -2, vec![BLACK; 4]).is_none());
    assert!(Image::from_pixels(2, 2, vec![BLACK; 4]).is_some());
    assert!(Image::from_pixels(0, 5, vec![]).is_some());
}

#[test]
fn raw_bytes_are_rgba_rows_from_the_top() {
    let mut img = Image::new(2, 2);
    img.set_pixel(0, 1, Color(1, 2, 3));
    img.set_pixel(1, 1, Color(4, 5, 6));
    img.set_pixel(0, 0, Color(7, 8, 9));
    img.set_pixel(1, 0, Color(10, 11, 12));
    assert_eq!(
        img.get_raw_bytes(),
        vec![1, 2, 3, 255, 4, 5, 6, 255, 7, 8, 9, 255, 10, 11, 12, 255]
    );
}

#[test]
fn map_channels_looks_every_channel_up() {
    let mut table = [0u8; 256];
    for v in 0..256usize {
        table[v] = 255 - v as u8;
    }
    let mut img = Image::new(2, 1);
    img.set_pixel(0, 0, Color(0, 100, 255));
    img.set_pixel(1, 0, Color(7, 7, 8));
    img.map_channels(&table);
    assert_eq!(img.pixel_at(0, 0), Color(255, 155, 0));
    assert_eq!(img.pixel_at(1, 0), Color(248, 248, 247));
    assert_eq!(img.width(), 2);
    assert_eq!(img.height(), 1);
}

#[test]
fn gamma_one_is_a_no_op() {
    let mut img = grey_image(3, 2, 128);
    img.map_channels(&gamma_table(1.0));
    for y in 0..2 {
        for x in 0..3 {
            assert_eq!(img.pixel_at(x, y), Color(128, 128, 128));
        }
    }
}

#[test]
fn gamma_above_one_moves_all_channels_the_same_way() {
    let mut img = grey_image(3, 2, 128);
    img.map_channels(&gamma_table(2.2));
    let first = img.pixel_at(0, 0);
    assert!(first.0 > 128);
    assert_eq!(first.0, first.1);
    assert_eq!(first.1, first.2);
    assert_eq!(first, Color(186, 186, 186));
    for y in 0..2 {
        for x in 0..3 {
            assert_eq!(img.pixel_at(x, y), first);
        }
    }
}

#[test]
fn gamma_keeps_the_order_of_channel_values() {
    let table = gamma_table(2.2);
    for v in 1..256usize {
        assert!(table[v - 1] <= table[v]);
    }
    let mut img = Image::new(1, 1);
    img.set_pixel(0, 0, Color(10, 100, 200));
    img.map_channels(&table);
    let c = img.pixel_at(0, 0);
    assert!(c.0 < c.1 && c.1 < c.2);
    assert!(c.0 > 10 && c.1 > 100 && c.2 > 200);
}
