use lightfetch::config::helio::FilterType;
use lightfetch::image::default::{Pixel, Pixels};

fn uniform(width: u32, height: u32, p: Pixel) -> Pixels {
    Pixels::new(width, height, vec![p; (width * height) as usize]).unwrap()
}

#[test]
fn channels_go_there_and_back() {
    let a = Pixel { r: 1, g: 2, b: 3, a: 4 };
    let b = Pixel { r: 5, g: 6, b: 7, a: 8 };
    let pixels = Pixels::new(2, 1, vec![a, b]).unwrap();
    assert_eq!(pixels.bytes(), vec![1, 2, 3, 4, 5, 6, 7, 8]);
    let back = Pixels::from_bytes(1, 2, &pixels.bytes()).unwrap();
    assert_eq!(back.bytes(), pixels.bytes());
    assert!(Pixels::from_bytes(2, 2, &pixels.bytes()).is_none());
    assert!(Pixels::from_bytes(0, 0, &Vec::new()).is_some());
}

#[test]
fn a_uniform_image_is_drawn_in_its_colour() {
    let p = Pixel { r: 10, g: 20, b: 30, a: 255 };
    let cell = "\x1b[38;2;10;20;30m\x1b[48;2;10;20;30m▀";
    for filter in [
        FilterType::Nearest,
        FilterType::Triangle,
        FilterType::CatmullRom,
        FilterType::Gaussian,
        FilterType::Lanczos3,
    ] {
        let pixels = uniform(2, 2, p);
        // Two lines of four rows in all, and as wide as keeps the shape.
        let text = lightfetch::image::default::Default::process(&pixels, 2, filter);
        let line = format!("{}\x1b[0m\n", cell.repeat(4));
        assert_eq!(text, line.repeat(2));
    }
}

#[test]
fn an_image_of_the_wanted_size_is_drawn_as_it_is() {
    let clear = Pixel { r: 0, g: 0, b: 0, a: 0 };
    let red = Pixel { r: 255, g: 0, b: 0, a: 255 };
    // Two by two, one line: nothing is resampled.
    let pixels = Pixels::new(2, 2, vec![clear, red, red, clear]).unwrap();
    let text = lightfetch::image::default::Default::process(&pixels, 1, FilterType::Lanczos3);
    assert_eq!(text, "\x1b[48;2;255;0;0m▀\x1b[38;2;255;0;0m▄\x1b[0m\n");
}

#[test]
fn nearest_keeps_the_pixels() {
    let clear = Pixel { r: 0, g: 0, b: 0, a: 0 };
    let blue = Pixel { r: 0, g: 0, b: 255, a: 255 };
    // One column, two rows, drawn two lines high: each row is doubled, and
    // so is the column twice over.
    let pixels = Pixels::new(1, 2, vec![clear, blue]).unwrap();
    let text = lightfetch::image::default::Default::process(&pixels, 2, FilterType::Nearest);
    let upper = "  \x1b[0m\n";
    let cell = "\x1b[38;2;0;0;255m\x1b[48;2;0;0;255m▀";
    assert_eq!(text, format!("{upper}{cell}{cell}\x1b[0m\n"));
}

#[test]
fn what_cannot_be_drawn_is_not() {
    let p = Pixel { r: 1, g: 1, b: 1, a: 1 };
    let pixels = uniform(2, 2, p);
    assert!(lightfetch::image::default::Default::can_process(&pixels, 1));
    assert!(!lightfetch::image::default::Default::can_process(&pixels, 0));
    assert!(!lightfetch::image::default::Default::can_process(&pixels, u32::MAX));
    assert!(lightfetch::image::default::Default::try_process(&pixels, 0, FilterType::Nearest).is_none());
    assert!(lightfetch::image::default::Default::try_process(&pixels, 1, FilterType::Nearest).is_some());
    let empty = Pixels::new(0, 3, Vec::new()).unwrap();
    assert!(!lightfetch::image::default::Default::can_process(&empty, 1));
    // A narrow image drawn low has no columns left.
    let tall = uniform(1, 8, p);
    assert_eq!(
        lightfetch::image::default::Default::try_process(&tall, 1, FilterType::Triangle),
        Some("\x1b[0m\n".to_string())
    );
}
