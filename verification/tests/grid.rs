use termpix::grid::ImageGrid;
use termpix::pixel::Pixel;

#[test]
fn rejects_wrong_buffer_length() {
    let bytes: Vec<u8> = vec![0; 12];
    assert!(ImageGrid::from_rgba_bytes(2, 2, &bytes).is_none());
    let bytes: Vec<u8> = vec![0; 17];
    assert!(ImageGrid::from_rgba_bytes(2, 2, &bytes).is_none());
}

#[test]
fn accepts_matching_buffer() {
    let bytes: Vec<u8> = vec![
        255, 0, 0, 255, // (0, 0) red
        0, 0, 0, 0, // (1, 0) transparent
        0, 0, 0, 255, // (0, 1) black
        128, 64, 32, 255, // (1, 1) mid-tone
    ];
    let grid = ImageGrid::from_rgba_bytes(2, 2, &bytes).unwrap();
    assert_eq!(grid.width(), 2);
    assert_eq!(grid.height(), 2);
    assert_eq!(grid.get_pixel(0, 0), Pixel { r: 255, g: 0, b: 0, a: 255 });
    assert_eq!(grid.get_pixel(1, 0), Pixel { r: 0, g: 0, b: 0, a: 0 });
    assert_eq!(grid.get_pixel(0, 1), Pixel { r: 0, g: 0, b: 0, a: 255 });
    assert_eq!(grid.get_pixel(1, 1), Pixel { r: 128, g: 64, b: 32, a: 255 });
}

#[test]
fn empty_image() {
    let bytes: Vec<u8> = Vec::new();
    let grid = ImageGrid::from_rgba_bytes(0, 0, &bytes).unwrap();
    assert_eq!(grid.width(), 0);
    assert_eq!(grid.height(), 0);
    // a zero-width image with rows still needs an empty buffer
    assert!(ImageGrid::from_rgba_bytes(0, 3, &bytes).is_some());
    let four: Vec<u8> = vec![1, 2, 3, 4];
    assert!(ImageGrid::from_rgba_bytes(0, 3, &four).is_none());
}
