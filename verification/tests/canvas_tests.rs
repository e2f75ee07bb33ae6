use raytracer::color::Color;
use raytracer::canvas::{Canvas, MAX_COL};
use raytracer::scalar::Scalar;

/// The double that a scalar holds.
#[allow(dead_code)]
fn f(x: Scalar) -> f64 {
    f64::from_bits(x.to_bits())
}

/// The scalar that holds a double.
#[allow(dead_code)]
fn s(x: f64) -> Scalar {
    Scalar::from_bits(x.to_bits())
}

/// The comparison tolerance, which is the library's.
#[allow(dead_code)]
fn epsilon() -> f64 {
    f(Scalar::epsilon())
}

#[allow(dead_code)]
fn color(red: f64, green: f64, blue: f64) -> Color {
    Color::new(s(red), s(green), s(blue))
}

/// `a + b`, channel by channel.
#[allow(dead_code)]
fn color_sum(a: &Color, b: &Color) -> Color {
    color(f(a.red) + f(b.red), f(a.green) + f(b.green), f(a.blue) + f(b.blue))
}

/// `a - b`, channel by channel.
#[allow(dead_code)]
fn color_difference(a: &Color, b: &Color) -> Color {
    color(f(a.red) - f(b.red), f(a.green) - f(b.green), f(a.blue) - f(b.blue))
}

/// `c * k`.
#[allow(dead_code)]
fn color_scaled(c: &Color, k: f64) -> Color {
    color(f(c.red) * k, f(c.green) * k, f(c.blue) * k)
}

/// `a * b`, channel by channel.
#[allow(dead_code)]
fn color_product(a: &Color, b: &Color) -> Color {
    color(f(a.red) * f(b.red), f(a.green) * f(b.green), f(a.blue) * f(b.blue))
}

/// A canvas of the given size. Panics where the number of its pixels is
/// beyond what the machine can count.
#[allow(dead_code)]
fn new_canvas(width: usize, height: usize) -> Canvas {
    assert!(width.checked_mul(height).is_some(), "capacity overflow");
    Canvas::new(width, height)
}

#[allow(dead_code)]
fn in_bounds(canvas: &Canvas, x: usize, y: usize) -> bool {
    let count = canvas.width() * canvas.height();
    matches!(y.checked_mul(canvas.width()).and_then(|row| row.checked_add(x)), Some(at) if at < count)
}

#[allow(dead_code)]
fn pixel_at(canvas: &Canvas, x: usize, y: usize) -> Color {
    assert!(in_bounds(canvas, x, y), "index out of bounds");
    canvas.pixel_at(x, y)
}

#[allow(dead_code)]
fn write_pixel(canvas: &mut Canvas, x: usize, y: usize, c: Color) {
    assert!(in_bounds(canvas, x, y), "index out of bounds");
    canvas.write_pixel(x, y, c);
}

/// The level of a channel: from 0 for none to `MAX_COL` for full or more.
#[allow(dead_code)]
fn level(channel: Scalar) -> u8 {
    let mut c = f(channel) * (MAX_COL as f64);
    if c < 0.0 {
        c = 0.0;
    }
    if c > MAX_COL as f64 {
        c = MAX_COL as f64;
    }
    c.round() as u8
}

/// The picture in the plain PPM format.
#[allow(dead_code)]
fn to_ppm(canvas: &Canvas) -> String {
    let mut levels: Vec<u8> = Vec::new();
    for y in 0..canvas.height() {
        for x in 0..canvas.width() {
            let color = pixel_at(canvas, x, y);
            levels.push(level(color.red));
            levels.push(level(color.green));
            levels.push(level(color.blue));
        }
    }
    canvas.to_ppm(&levels)
}

#[test]
fn test_creating_a_canvas() {
    let c = Canvas::new(10, 20);
    assert_eq!(c.width(), 10);
    assert_eq!(c.height(), 20);
    let black = color(0.0, 0.0, 0.0);
    for y in 0..20 {
        for x in 0..10 {
            assert_eq!(c.pixel_at(x, y), black);
        }
    }
}

#[test]
fn test_writing_pixels_to_a_canvas() {
    let mut c = Canvas::new(10, 20);
    let red = color(1.0, 0.0, 0.0);
    c.write_pixel(2, 3, red);
    assert_eq!(c.pixel_at(2, 3), red);
}

#[test]
fn test_constructing_the_ppm_header() {
    let c = Canvas::new(5, 3);
    let ppm = to_ppm(&c);
    assert_eq!(ppm.lines().take(3).collect::<Vec<_>>(), vec!["P3", "5 3", "255"]);
}

#[test]
fn test_constructing_the_ppm_pixel_data() {
    let mut c = Canvas::new(5, 3);
    let c1 = color(1.5, 0.0, 0.0);
    let c2 = color(0.0, 0.5, 0.0);
    let c3 = color(-0.5, 0.0, 1.0);
    c.write_pixel(0, 0, c1);
    c.write_pixel(2, 1, c2);
    c.write_pixel(4, 2, c3);
    let ppm = to_ppm(&c);
    assert_eq!(
        ppm.lines().skip(3).collect::<Vec<_>>(),
        vec![
            "255 0 0 0 0 0 0 0 0 0 0 0 0 0 0",
            "0 0 0 0 0 0 0 128 0 0 0 0 0 0 0",
            "0 0 0 0 0 0 0 0 0 0 0 0 0 0 255"
        ]
    );
}

#[test]
fn test_splitting_long_lines_in_ppm_files() {
    let mut c = Canvas::new(10, 2);
    let col = color(1.0, 0.8, 0.6);
    for y in 0..c.height() {
        for x in 0..c.width() {
            c.write_pixel(x, y, col);
        }
    }
    let ppm = to_ppm(&c);
    assert_eq!(
        ppm.lines().skip(3).collect::<Vec<_>>(),
        vec![
            "255 204 153 255 204 153 255 204 153 255 204 153 255 204 153 255 204",
            "153 255 204 153 255 204 153 255 204 153 255 204 153",
            "255 204 153 255 204 153 255 204 153 255 204 153 255 204 153 255 204",
            "153 255 204 153 255 204 153 255 204 153 255 204 153"
        ]
    );
}

#[test]
fn test_ppm_files_are_terminated_by_a_newline_character() {
    let c = Canvas::new(5, 3);
    let ppm = to_ppm(&c);
    assert!(ppm.ends_with("\n"));
}

#[test]
fn writing_a_pixel_changes_no_other() {
    let mut c = Canvas::new(4, 3);
    let red = color(1.0, 0.0, 0.0);
    c.write_pixel(3, 1, red);
    for y in 0..3 {
        for x in 0..4 {
            let want = if (x, y) == (3, 1) { red } else { color(0.0, 0.0, 0.0) };
            assert_eq!(c.pixel_at(x, y), want);
        }
    }
    assert_eq!(c.width(), 4);
    assert_eq!(c.height(), 3);
}

#[test]
fn the_whole_text_of_a_small_picture() {
    let c = Canvas::new(2, 2);
    let text = c.to_ppm(&vec![0, 9, 10, 99, 100, 255, 1, 2, 3, 4, 5, 6]);
    assert_eq!(text, "P3\n2 2\n255\n0 9 10 99 100 255\n1 2 3 4 5 6\n");
}

#[test]
fn a_picture_without_pixels_has_only_its_header_and_empty_rows() {
    assert_eq!(Canvas::new(0, 0).to_ppm(&vec![]), "P3\n0 0\n255\n");
    assert_eq!(Canvas::new(3, 0).to_ppm(&vec![]), "P3\n3 0\n255\n");
    assert_eq!(Canvas::new(0, 2).to_ppm(&vec![]), "P3\n0 2\n255\n\n\n");
}

#[test]
fn no_line_of_pixel_data_is_longer_than_seventy_characters() {
    let c = Canvas::new(40, 3);
    let mut data = Vec::new();
    for i in 0..(3 * 40 * 3) {
        data.push(if i % 7 == 0 { 5 } else if i % 3 == 0 { 42 } else { 200 });
    }
    let text = c.to_ppm(&data);
    let mut numbers: Vec<u8> = Vec::new();
    for line in text.lines().skip(3) {
        assert!(line.len() <= 70, "{}", line.len());
        assert!(!line.starts_with(' ') && !line.ends_with(' '));
        for word in line.split(' ') {
            numbers.push(word.parse().unwrap());
        }
    }
    assert_eq!(numbers, data);
}

#[test]
fn a_line_may_have_exactly_seventy_characters() {
    // seventeen levels of three digits and one of two: 17 * 4 + 2 = 70
    let c = Canvas::new(6, 1);
    let mut data = vec![100u8; 17];
    data.push(10);
    let text = c.to_ppm(&data);
    let lines: Vec<&str> = text.lines().skip(3).collect();
    assert_eq!(lines.len(), 1);
    assert_eq!(lines[0].len(), 70);

    // with three digits at the end the last level moves to a line of its own
    let text = c.to_ppm(&vec![100u8; 18]);
    let lines: Vec<&str> = text.lines().skip(3).collect();
    assert_eq!(lines.len(), 2);
    assert_eq!(lines[0].len(), 67);
    assert_eq!(lines[1], "100");
}
