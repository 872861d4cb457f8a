use linfb::error::Error;
use linfb::shape::{Color, Image, Shape};

fn decode(buffer: &[u8]) -> Result<(u32, u32, Vec<u8>), image::ImageError> {
    image::load_from_memory(buffer).map(|image| {
        let pixels = image.to_rgba8();
        let (width, height) = pixels.dimensions();
        (width, height, pixels.into_raw())
    })
}

const PNG: [u8; 70] = [
    0x89, 0x50, 0x4e, 0x47, 0x0d, 0x0a, 0x1a, 0x0a, 0x00, 0x00, 0x00, 0x0d, 0x49, 0x48, 0x44, 0x52,
    0x00, 0x00, 0x00, 0x02, 0x00, 0x00, 0x00, 0x01, 0x08, 0x06, 0x00, 0x00, 0x00, 0xf4, 0x22, 0x7f,
    0x8a, 0x00, 0x00, 0x00, 0x0d, 0x49, 0x44, 0x41, 0x54, 0x78, 0x9c, 0x63, 0xf8, 0xcf, 0xc0, 0x00,
    0x46, 0x00, 0x0e, 0xfa, 0x02, 0xfe, 0xf5, 0x1e, 0x4c, 0xa9, 0x00, 0x00, 0x00, 0x00, 0x49, 0x45,
    0x4e, 0x44, 0xae, 0x42, 0x60, 0x82,
];

#[test]
fn decoded_image_becomes_an_image() {
    let image = Image::from_decoded(decode(&PNG)).unwrap();
    assert_eq!(image.width, 2);
    assert_eq!(image.height, 1);
    assert_eq!(image.data, vec![255, 0, 0, 255, 0, 0, 255, 0]);
    assert_eq!(image.data.len(), 4 * image.width as usize * image.height as usize);
    assert_eq!(
        image.render(),
        vec![vec![Some(Color { red: 255, green: 0, blue: 0, alpha: 255 }), None]]
    );
}

#[test]
fn decoder_error_becomes_a_bad_image() {
    assert!(matches!(Image::from_decoded(decode(&[])), Err(Error::BadImage(_))));
    assert!(matches!(
        Image::from_decoded(decode(b"not an image at all")),
        Err(Error::BadImage(_))
    ));
    assert!(matches!(Image::from_decoded(decode(&PNG[..40])), Err(Error::BadImage(_))));
}

#[test]
fn decoded_values_are_taken_as_they_are() {
    let image = Image::from_decoded(Ok((3, 2, vec![9, 8, 7]))).unwrap();
    assert_eq!((image.width, image.height), (3, 2));
    assert_eq!(image.data, vec![9, 8, 7]);
}

#[test]
fn image_renders_its_pixels_row_by_row() {
    let data = vec![
        1, 2, 3, 4, 5, 6, 7, 0, 9, 10, 11, 255, //
        13, 14, 15, 1, 17, 18, 19, 20, 0, 0, 0, 0,
    ];
    let image = Image::from_rgba(3, 2, data);
    let cell = |red, green, blue, alpha| Some(Color { red, green, blue, alpha });
    assert_eq!(
        image.render(),
        vec![
            vec![cell(1, 2, 3, 4), None, cell(9, 10, 11, 255)],
            vec![cell(13, 14, 15, 1), cell(17, 18, 19, 20), None],
        ]
    );
}

#[test]
fn image_with_too_little_data_draws_what_it_has() {
    let image = Image::from_rgba(2, 2, vec![1, 2, 3, 4, 5, 6, 7, 8, 9, 10]);
    let cell = |red, green, blue, alpha| Some(Color { red, green, blue, alpha });
    assert_eq!(
        image.render(),
        vec![vec![cell(1, 2, 3, 4), cell(5, 6, 7, 8)], vec![None, None]]
    );
    assert_eq!(Image::from_rgba(0, 0, vec![1, 2, 3, 4]).render(), Vec::<Vec<Option<Color>>>::new());
    assert_eq!(Image::from_rgba(0, 2, vec![]).render(), vec![Vec::<Option<Color>>::new(); 2]);
}
