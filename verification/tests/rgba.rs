use img_viewer::rgba::RgbaImage;

fn two_by_two() -> RgbaImage {
    // Four pixels: p0 p1 / p2 p3, four bytes each.
    let data: Vec<u8> = (0u8..16).collect();
    RgbaImage::new(2, 2, data).unwrap()
}

#[test]
fn new_accepts_a_buffer_of_four_bytes_per_pixel() {
    let img = RgbaImage::new(3, 2, vec![0u8; 24]).unwrap();
    assert_eq!(img.width(), 3);
    assert_eq!(img.height(), 2);
    assert_eq!(img.data().len(), 24);
}

#[test]
fn new_rejects_a_buffer_of_the_wrong_length() {
    assert!(RgbaImage::new(3, 2, vec![0u8; 23]).is_none());
    assert!(RgbaImage::new(3, 2, vec![0u8; 25]).is_none());
    assert!(RgbaImage::new(1, 1, vec![]).is_none());
}

#[test]
fn new_accepts_an_empty_image() {
    let img = RgbaImage::new(0, 7, vec![]).unwrap();
    assert_eq!(img.data().len(), 0);
}

#[test]
fn fliph_mirrors_columns() {
    let flipped = two_by_two().fliph();
    assert_eq!(
        flipped.data(),
        &vec![4, 5, 6, 7, 0, 1, 2, 3, 12, 13, 14, 15, 8, 9, 10, 11]
    );
    assert_eq!(flipped.width(), 2);
    assert_eq!(flipped.height(), 2);
}

#[test]
fn flipv_mirrors_rows() {
    let flipped = two_by_two().flipv();
    assert_eq!(
        flipped.data(),
        &vec![8, 9, 10, 11, 12, 13, 14, 15, 0, 1, 2, 3, 4, 5, 6, 7]
    );
}

#[test]
fn rotate180_mirrors_both_ways() {
    let rotated = two_by_two().rotate180();
    assert_eq!(
        rotated.data(),
        &vec![12, 13, 14, 15, 8, 9, 10, 11, 4, 5, 6, 7, 0, 1, 2, 3]
    );
}

#[test]
fn flips_permute_the_pixels() {
    let img = two_by_two();
    let mut original: Vec<[u8; 4]> = img.data().chunks(4).map(|c| [c[0], c[1], c[2], c[3]]).collect();
    original.sort();
    for moved in [img.fliph(), img.flipv(), img.rotate180()] {
        assert_eq!(moved.data().len(), img.data().len());
        let mut pixels: Vec<[u8; 4]> = moved.data().chunks(4).map(|c| [c[0], c[1], c[2], c[3]]).collect();
        pixels.sort();
        assert_eq!(pixels, original);
    }
}

#[test]
fn fliph_twice_restores_the_image() {
    let img = two_by_two();
    assert_eq!(img.fliph().fliph().data(), img.data());
    assert_eq!(img.flipv().flipv().data(), img.data());
    assert_eq!(img.rotate180().rotate180().data(), img.data());
}

#[test]
fn flips_on_a_single_row() {
    let data: Vec<u8> = (0u8..12).collect();
    let img = RgbaImage::new(3, 1, data).unwrap();
    assert_eq!(
        img.fliph().data(),
        &vec![8, 9, 10, 11, 4, 5, 6, 7, 0, 1, 2, 3]
    );
    assert_eq!(img.flipv().data(), img.data());
    assert_eq!(img.rotate180().data(), img.fliph().data());
}

#[test]
fn copy_into_frame_mirrors_the_bytes() {
    let img = two_by_two();
    let mut frame: Vec<u8> = vec![0; 16];
    img.copy_into_frame(&mut frame);
    assert_eq!(&frame, img.data());
}
