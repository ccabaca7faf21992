use raytracer_rust::canvas::CanvasIndexError;
use raytracer_rust::colors::Color;
use raytracer_rust::RawCanvas;

#[test]
fn create_canvas() {
    let canvas: RawCanvas<90, 55> = RawCanvas::default();
    assert_eq!(canvas.width(), 90);
    assert_eq!(canvas.height(), 55);
    assert_eq!(canvas.pixels().len(), 90 * 55);
    for p in canvas.pixels() {
        assert_eq!(*p, Color::default());
    }
}

#[test]
fn writing_pixel() {
    let mut canvas: RawCanvas<10, 20> = RawCanvas::default();
    let red = Color::new(1, 0, 0);
    canvas.write_pixel(2, 3, Color::new(1, 0, 0)).unwrap();
    // Reading back at (2, 3) returns the written color exactly.
    assert_eq!(red, *canvas.pixel_at(2, 3).unwrap());
    // Other pixels are untouched.
    assert_eq!(*canvas.pixel_at(3, 2).unwrap(), Color::default());
    let write_to_out_bound = canvas.write_pixel(10, 5, red);
    assert_eq!(
        write_to_out_bound.unwrap_err(),
        CanvasIndexError::new(10, 5, 10, 20)
    );
}

#[test]
fn out_of_range_is_reported() {
    let mut canvas: RawCanvas<10, 20> = RawCanvas::default();
    let red = Color::new(1, 0, 0);
    assert_eq!(
        canvas.write_pixel(10, 5, red).unwrap_err(),
        CanvasIndexError::new(10, 5, 10, 20)
    );
    // A failed write changes nothing.
    for p in canvas.pixels() {
        assert_eq!(*p, Color::default());
    }
    let read_out_of_bound = canvas.pixel_at(3, 20);
    assert_eq!(
        read_out_of_bound.unwrap_err(),
        CanvasIndexError::new(3, 20, 10, 20)
    );
}

#[test]
fn index_error_message() {
    let e = CanvasIndexError::new(10, 5, 10, 20);
    assert_eq!(
        e.message(),
        "Invalid index at 10, 5; The canvas size is 10 x 20."
    );
}

#[test]
fn row_major_layout() {
    let mut canvas: RawCanvas<3, 2> = RawCanvas::default();
    canvas.write_pixel(1, 0, Color::new(7, 0, 0)).unwrap();
    canvas.write_pixel(0, 1, Color::new(0, 7, 0)).unwrap();
    let pixels = canvas.pixels();
    assert_eq!(pixels[1], Color::new(7, 0, 0));
    assert_eq!(pixels[3], Color::new(0, 7, 0));
}
