use softrender::color::Color;
use softrender::image::Image;
use softrender::render;

const INK: Color = Color(255, 255, 255);
const PAPER: Color = Color(0, 0, 0);

fn marked(img: &Image) -> Vec<(i32, i32)> {
    let mut points = Vec::new();
    for y in 0..img.height() {
        for x in 0..img.width() {
            if img.pixel_at(x, y) == INK {
                points.push((x, y));
            } else {
                assert_eq!(img.pixel_at(x, y), PAPER);
            }
        }
    }
    points
}

fn drawn(x0: i32, y0: i32, x1: i32, y1: i32) -> Vec<(i32, i32)> {
    let mut img = Image::new(8, 8);
    render::line(x0, y0, x1, y1, &mut img, INK);
    assert_eq!(img.width(), 8);
    assert_eq!(img.height(), 8);
    marked(&img)
}

#[test]
fn horizontal_line_marks_every_column_between_its_ends() {
    assert_eq!(drawn(1, 3, 5, 3), vec![(1, 3), (2, 3), (3, 3), (4, 3), (5, 3)]);
}

#[test]
fn vertical_line_marks_every_row_between_its_ends() {
    assert_eq!(drawn(2, 1, 2, 4), vec![(2, 1), (2, 2), (2, 3), (2, 4)]);
}

#[test]
fn diagonal_line_is_walked_along_y() {
    assert_eq!(drawn(0, 0, 3, 3), vec![(0, 0), (1, 1), (2, 2), (3, 3)]);
}

#[test]
fn shallow_line_rounds_a_tie_away_from_zero() {
    assert_eq!(drawn(0, 0, 4, 2), vec![(0, 0), (1, 1), (2, 1), (3, 2), (4, 2)]);
}

#[test]
fn shallow_falling_line() {
    assert_eq!(drawn(0, 2, 4, 0), vec![(4, 0), (2, 1), (3, 1), (0, 2), (1, 2)]);
}

#[test]
fn steep_line_marks_one_pixel_per_row() {
    assert_eq!(drawn(0, 0, 2, 4), vec![(0, 0), (1, 1), (1, 2), (2, 3), (2, 4)]);
}

#[test]
fn thirds_round_to_the_nearest_row() {
    assert_eq!(drawn(0, 0, 6, 2), vec![(0, 0), (1, 0), (2, 1), (3, 1), (4, 1), (5, 2), (6, 2)]);
}

#[test]
fn swapping_the_ends_gives_the_same_line() {
    assert_eq!(drawn(4, 2, 0, 0), drawn(0, 0, 4, 2));
    assert_eq!(drawn(2, 4, 0, 0), drawn(0, 0, 2, 4));
    assert_eq!(drawn(6, 1, 1, 7), drawn(1, 7, 6, 1));
    assert_eq!(drawn(7, 5, 0, 3), drawn(0, 3, 7, 5));
}

#[test]
fn point_marks_column_zero_of_its_row() {
    assert_eq!(drawn(2, 3, 2, 3), vec![(0, 3)]);
    assert_eq!(drawn(0, 0, 0, 0), vec![(0, 0)]);
    assert_eq!(drawn(5, 9, 5, 9), vec![]);
}

#[test]
fn line_is_clipped_to_the_image() {
    assert_eq!(
        drawn(-3, 2, 12, 2),
        vec![(0, 2), (1, 2), (2, 2), (3, 2), (4, 2), (5, 2), (6, 2), (7, 2)]
    );
    assert_eq!(drawn(-4, -4, -1, -1), vec![]);
    assert_eq!(drawn(6, 6, 9, 9), vec![(6, 6), (7, 7)]);
    assert_eq!(drawn(20, 0, 30, 7), vec![]);
}

#[test]
fn line_across_the_whole_coordinate_range() {
    assert_eq!(
        drawn(i32::MIN, 4, i32::MAX, 4),
        vec![(0, 4), (1, 4), (2, 4), (3, 4), (4, 4), (5, 4), (6, 4), (7, 4)]
    );
    assert_eq!(
        drawn(3, i32::MAX, 3, i32::MIN),
        vec![(3, 0), (3, 1), (3, 2), (3, 3), (3, 4), (3, 5), (3, 6), (3, 7)]
    );
    assert_eq!(drawn(i32::MIN, i32::MIN, i32::MAX, i32::MAX).len(), 8);
}

#[test]
fn line_leaves_other_pixels_alone() {
    let mut img = Image::new(4, 4);
    let blue = Color(0, 0, 255);
    img.set_pixel(0, 3, blue);
    img.set_pixel(1, 1, blue);
    render::line(0, 0, 3, 3, &mut img, INK);
    assert_eq!(img.pixel_at(0, 3), blue);
    assert_eq!(img.pixel_at(1, 1), INK);
    assert_eq!(img.pixel_at(3, 0), PAPER);
}

#[test]
fn line_on_an_empty_image_does_nothing() {
    let mut img = Image::new(0, 0);
    render::line(0, 0, 5, 5, &mut img, INK);
    assert_eq!(img.width(), 0);
    assert_eq!(img.height(), 0);
}
