use meshframe::crop::RgbaImage;
use meshframe::error::Error;

fn blank(width: u32, height: u32) -> RgbaImage {
    RgbaImage::from_raw(width, height, vec![0u8; (4 * width * height) as usize]).unwrap()
}

fn set_pixel(img: &mut RgbaImage, x: u32, y: u32, rgba: [u8; 4]) {
    let base = (4 * (y * img.width + x)) as usize;
    for (i, b) in rgba.iter().enumerate() {
        img.data[base + i] = *b;
    }
}

#[test]
fn from_raw_rejects_wrong_length() {
    assert_eq!(
        RgbaImage::from_raw(2, 2, vec![0u8; 15]).unwrap_err(),
        Error::ImageContainerTooSmall
    );
    assert!(RgbaImage::from_raw(2, 2, vec![0u8; 16]).is_ok());
}

#[test]
fn bounds_of_fully_transparent_image_is_none() {
    let img = blank(4, 3);
    assert!(img.non_transparent_bounds().is_none());
    assert_eq!(img.cropped_to_content().unwrap_err(), Error::ZeroAreaImage);
}

#[test]
fn single_opaque_pixel_gives_unit_bounds() {
    let mut img = blank(8, 8);
    set_pixel(&mut img, 3, 4, [9, 8, 7, 255]);
    assert_eq!(img.non_transparent_bounds(), Some(((3, 4), (3, 4))));
    let cropped = img.cropped_to_content().unwrap();
    assert_eq!(cropped.width, 1);
    assert_eq!(cropped.height, 1);
    assert_eq!(cropped.data, vec![9, 8, 7, 255]);
}

#[test]
fn bounds_span_all_opaque_pixels() {
    let mut img = blank(6, 5);
    set_pixel(&mut img, 1, 3, [0, 0, 0, 1]);
    set_pixel(&mut img, 4, 1, [0, 0, 0, 128]);
    set_pixel(&mut img, 2, 2, [0, 0, 0, 255]);
    assert_eq!(img.non_transparent_bounds(), Some(((1, 1), (4, 3))));
    let cropped = img.cropped_to_content().unwrap();
    assert_eq!(cropped.width, 4);
    assert_eq!(cropped.height, 3);
}

#[test]
fn crop_copies_the_requested_rectangle() {
    let mut img = blank(3, 2);
    set_pixel(&mut img, 0, 0, [1, 1, 1, 1]);
    set_pixel(&mut img, 1, 0, [2, 2, 2, 2]);
    set_pixel(&mut img, 2, 0, [3, 3, 3, 3]);
    set_pixel(&mut img, 0, 1, [4, 4, 4, 4]);
    set_pixel(&mut img, 1, 1, [5, 5, 5, 5]);
    set_pixel(&mut img, 2, 1, [6, 6, 6, 6]);
    let cropped = img.crop(1, 0, 2, 1);
    assert_eq!(cropped.width, 2);
    assert_eq!(cropped.height, 2);
    assert_eq!(
        cropped.data,
        vec![2, 2, 2, 2, 3, 3, 3, 3, 5, 5, 5, 5, 6, 6, 6, 6]
    );
}

#[test]
fn fully_opaque_image_crops_to_itself() {
    let mut img = blank(3, 2);
    for y in 0..2 {
        for x in 0..3 {
            set_pixel(&mut img, x, y, [x as u8, y as u8, 0, 255]);
        }
    }
    assert_eq!(img.non_transparent_bounds(), Some(((0, 0), (2, 1))));
    let cropped = img.cropped_to_content().unwrap();
    assert_eq!(cropped.width, 3);
    assert_eq!(cropped.height, 2);
    assert_eq!(cropped.data, img.data);
}

#[test]
fn alpha_alone_decides_opacity() {
    let mut img = blank(2, 2);
    // A pixel with color but zero alpha stays transparent.
    set_pixel(&mut img, 0, 0, [255, 255, 255, 0]);
    assert!(img.non_transparent_bounds().is_none());
}
