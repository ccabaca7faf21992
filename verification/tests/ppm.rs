use raytracer_rust::canvas::ppm_canvas::{parse_ppm, PPMCanvas, PPMColor};

fn filled(count: usize, color: PPMColor) -> Vec<PPMColor> {
    let mut pixels = Vec::new();
    for _ in 0..count {
        pixels.push(color);
    }
    pixels
}

#[test]
fn ppm_canvas_pixels() {
    let canvas: PPMCanvas<10, 2> = PPMCanvas::from_pixels(filled(20, PPMColor::new(255, 204, 153)));
    for p in canvas.pixels() {
        assert_eq!(*p, PPMColor::new(255_u8, 204_u8, 153_u8));
    }
}

#[test]
fn split_long_lines_exactly() {
    let canvas: PPMCanvas<10, 2> = PPMCanvas::from_pixels(filled(20, PPMColor::new(255, 204, 153)));
    let line = "255 204 153 255 204 153 255 204 153 255 204 153 255 204 153 ";
    let expected = format!("P3\n10 2\n255\n{}\n{}\n{}\n{}\n", line, line, line, line);
    assert_eq!(canvas.to_ppm_string(), expected);
    // No output line exceeds 70 characters.
    for l in canvas.to_ppm_string().lines() {
        assert!(l.len() <= 70);
    }
}

#[test]
fn header_of_small_canvas() {
    let canvas: PPMCanvas<1, 1> = PPMCanvas::from_pixels(filled(1, PPMColor::new(0, 0, 0)));
    assert_eq!(canvas.to_ppm_string(), "P3\n1 1\n255\n0 0 0 \n");
}

#[test]
fn encode_then_parse_round_trip() {
    let mut pixels = Vec::new();
    for i in 0..12_usize {
        pixels.push(PPMColor::new((i * 20) as u8, (255 - i) as u8, (i * i) as u8));
    }
    let canvas: PPMCanvas<4, 3> = PPMCanvas::from_pixels(pixels.clone());
    let text = canvas.to_ppm_string();
    let parsed = parse_ppm(&text);
    assert_eq!(parsed, Some((4, 3, pixels)));
}

#[test]
fn round_trip_full_fill() {
    let pixels = filled(20, PPMColor::new(255, 204, 153));
    let canvas: PPMCanvas<10, 2> = PPMCanvas::from_pixels(pixels.clone());
    let parsed = parse_ppm(&canvas.to_ppm_string());
    assert_eq!(parsed, Some((10, 2, pixels)));
}

#[test]
fn parse_accepts_any_whitespace_layout() {
    let parsed = parse_ppm("P3 2 1 255 1 2 3 4 5 6");
    assert_eq!(
        parsed,
        Some((2, 1, vec![PPMColor::new(1, 2, 3), PPMColor::new(4, 5, 6)]))
    );
    let parsed = parse_ppm("P3\n1\t1\r\n255\n\n  7 8\t9\n");
    assert_eq!(parsed, Some((1, 1, vec![PPMColor::new(7, 8, 9)])));
}

#[test]
fn parse_rejects_malformed_texts() {
    // Wrong magic number.
    assert_eq!(parse_ppm("P6\n1 1\n255\n1 2 3\n"), None);
    // Wrong maximum channel value.
    assert_eq!(parse_ppm("P3\n1 1\n254\n1 2 3\n"), None);
    // Dimensions that are no numbers.
    assert_eq!(parse_ppm("P3\nx 1\n255\n1 2 3\n"), None);
    // Too few channel values.
    assert_eq!(parse_ppm("P3\n2 1\n255\n1 2 3\n"), None);
    // Too many channel values.
    assert_eq!(parse_ppm("P3\n1 1\n255\n1 2 3 4\n"), None);
    // A channel value out of range.
    assert_eq!(parse_ppm("P3\n1 1\n255\n1 2 256\n"), None);
    // A channel value that is no number.
    assert_eq!(parse_ppm("P3\n1 1\n255\n1 2 z\n"), None);
    // Empty input.
    assert_eq!(parse_ppm(""), None);
}

#[test]
fn parse_rejects_huge_numbers() {
    assert_eq!(parse_ppm("P3 99999999999999999999999999 1 255"), None);
}
