use canvas_demos::geometry::Position;
use canvas_demos::led::grid_frame;
use canvas_demos::led::Color;
use canvas_demos::led::Pixel;
use canvas_demos::led::CHANNEL_BOUND;
use canvas_demos::led::GRID_COLUMNS;
use canvas_demos::led::GRID_ROWS;
use canvas_demos::led::PIXEL_SIZE;

#[test]
fn colour_from_its_channels() {
    assert_eq!(Color::new(1, 2, 3), Color { red: 1, green: 2, blue: 3 });
    assert_eq!(Color::default(), Color { red: 0, green: 0, blue: 0 });
}

#[test]
fn random_colours_stay_below_the_bound_and_vary() {
    assert_eq!(CHANNEL_BOUND, 255);
    let first = Color::random();
    let mut varied = false;
    for _ in 0..2000 {
        let color = Color::random();
        assert!(color.red < 255 && color.green < 255 && color.blue < 255);
        if color != first {
            varied = true;
        }
    }
    assert!(varied);
}

#[test]
fn pixel_holds_what_it_is_given() {
    let mut pixel = Pixel::new(Position::new(20, 30), Color::new(9, 8, 7), 10);
    assert_eq!(pixel.position, Position { x: 20, y: 30 });
    assert_eq!(pixel.size, 10);
    assert_eq!(pixel.color, Color { red: 9, green: 8, blue: 7 });
    assert_eq!(pixel.area(), 100);
    pixel.set_color(Color::default());
    assert_eq!(pixel, Pixel { position: Position { x: 20, y: 30 }, size: 10, color: Color::default() });
    let huge = Pixel::new(Position::new(0, 0), Color::default(), i64::MIN);
    assert_eq!(huge.area(), 1u128 << 126);
    let negative = Pixel::new(Position::new(0, 0), Color::default(), -3);
    assert_eq!(negative.area(), 9);
}

#[test]
fn grid_frame_lays_pixels_out_row_by_row() {
    assert_eq!((GRID_ROWS, GRID_COLUMNS, PIXEL_SIZE), (31, 51, 10));
    let frame = grid_frame();
    assert_eq!(frame.len(), 31 * 51);
    for row in 0..31 {
        for column in 0..51 {
            let pixel = frame[row * 51 + column];
            assert_eq!(pixel.position, Position { x: 10 * column as i64, y: 10 * row as i64 });
            assert_eq!(pixel.size, 10);
            assert!(pixel.color.red < 255 && pixel.color.green < 255 && pixel.color.blue < 255);
        }
    }
    assert_eq!(frame[0].position, Position { x: 0, y: 0 });
    assert_eq!(frame[1580].position, Position { x: 500, y: 300 });
    let other = grid_frame();
    assert!(frame.iter().zip(other.iter()).any(|(a, b)| a.color != b.color));
}
