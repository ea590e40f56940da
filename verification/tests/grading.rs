use boxbreaker::grade::{wear_input, wear_samples, GreyImage, WearInput};

fn png_bytes(w: u32, h: u32, f: impl Fn(u32, u32) -> u8) -> Vec<u8> {
    let img = image::GrayImage::from_fn(w, h, |x, y| image::Luma([f(x, y)]));
    let mut out = std::io::Cursor::new(Vec::new());
    image::DynamicImage::ImageLuma8(img).write_to(&mut out, image::ImageFormat::Png).unwrap();
    out.into_inner()
}

#[test]
fn wear_input_classifies_photos() {
    assert!(matches!(wear_input(b"not an image"), WearInput::NotAnImage));
    assert!(matches!(wear_input(&png_bytes(4, 9, |_, _| 0)), WearInput::OutOfRange));
    assert!(matches!(wear_input(&png_bytes(9, 4, |_, _| 0)), WearInput::OutOfRange));
    assert!(matches!(wear_input(&png_bytes(5, 5, |_, _| 0)), WearInput::Samples(_)));
}

#[test]
fn wear_samples_of_a_uniform_photo() {
    let WearInput::Samples(s) = wear_input(&png_bytes(10, 12, |_, _| 100)) else { panic!() };
    assert_eq!(s.corners.len(), 4);
    for c in &s.corners {
        assert_eq!(c.len(), 25);
        assert!(c.iter().all(|&v| v == 100));
    }
    assert_eq!(s.edge_total, 6 * (10 + 12));
    assert_eq!(s.edge_bright, 0);
    assert_eq!(s.noise.len(), 8 * 10);
    assert!(s.noise.iter().all(|&v| v == 0));
    let WearInput::Samples(w) = wear_input(&png_bytes(10, 12, |_, _| 255)) else { panic!() };
    assert_eq!(w.edge_bright, w.edge_total);
}

#[test]
fn wear_samples_read_corners_borders_and_noise() {
    // A 20 by 30 image whose value encodes its position.
    let g = GreyImage {
        width: 20,
        height: 30,
        pixels: (0..30u32).flat_map(|y| (0..20u32).map(move |x| (x + y) as u8)).collect(),
    };
    let s = wear_samples(&g);
    // Squares of side max(20 / 10, 5) = 5 at the four corners, row by row.
    assert_eq!(s.corners[0][..6], [0, 1, 2, 3, 4, 1]);
    assert_eq!(s.corners[1][0], 15);
    assert_eq!(s.corners[2][0], 25);
    assert_eq!(s.corners[3][24], 19 + 29);
    assert_eq!(s.edge_bright, 0);
    // Linear values: every inner pixel is the mean of its neighbours.
    assert!(s.noise.iter().all(|&v| v == 0));

    let mut pixels = vec![0u8; 10 * 10];
    pixels[5 * 10 + 5] = 255;
    pixels[0] = 201;
    pixels[9 * 10 + 9] = 200;
    let spot = wear_samples(&GreyImage { width: 10, height: 10, pixels });
    assert_eq!(spot.noise[(5 - 1) * 8 + (5 - 1)], 4 * 255);
    assert_eq!(spot.noise[(5 - 1) * 8 + (4 - 1)], 255);
    // (0, 0) is on both the top rows and the left columns; 200 is not bright.
    assert_eq!(spot.edge_bright, 2);
}
