use rust_box::icon::{
    create_blue_icon, create_colored_icon, create_green_icon, decode_icon, icon_set, IconImage,
};

const PIXELS: [u8; 16] = [
    255, 255, 255, 128, // bright
    201, 201, 200, 255, // not bright
    255, 255, 255, 0, // not visible
    201, 201, 201, 1, // bright
];

#[test]
fn green_keeps_the_transparency() {
    assert_eq!(
        create_green_icon(&PIXELS, 2, 2),
        vec![0, 255, 0, 128, 201, 201, 200, 255, 255, 255, 255, 0, 0, 255, 0, 1]
    );
}

#[test]
fn other_colours_bring_their_own() {
    assert_eq!(
        create_colored_icon(&PIXELS, 4, 1, [1, 2, 3, 4]),
        vec![1, 2, 3, 4, 201, 201, 200, 255, 255, 255, 255, 0, 1, 2, 3, 4]
    );
    assert_eq!(&create_blue_icon(&PIXELS, 1, 4)[..4], &[0x42, 0xaa, 0xff, 255]);
}

#[test]
fn bytes_after_the_picture_stay() {
    let once = create_green_icon(&PIXELS, 1, 1);
    assert_eq!(&once[..4], &[0, 255, 0, 128]);
    assert_eq!(&once[4..], &PIXELS[4..]);
    assert_eq!(create_green_icon(&[], 0, 7), Vec::<u8>::new());
}

#[test]
fn recolouring_twice_is_recolouring_once() {
    let once = create_blue_icon(&PIXELS, 2, 2);
    assert_eq!(create_blue_icon(&once, 2, 2), once);
}

#[test]
fn an_image_file_is_decoded() {
    let image = image::RgbaImage::from_raw(2, 2, PIXELS.to_vec()).unwrap();
    let mut file = std::io::Cursor::new(Vec::new());
    image.write_to(&mut file, image::ImageFormat::Png).unwrap();
    let icon = decode_icon(&file.into_inner()).unwrap();
    assert_eq!(icon, IconImage { width: 2, height: 2, rgba: PIXELS.to_vec() });
    let set = icon_set(&icon).unwrap();
    assert_eq!(set.original, PIXELS.to_vec());
    assert_eq!(set.green, create_green_icon(&PIXELS, 2, 2));
    assert_eq!(set.blue, create_blue_icon(&PIXELS, 2, 2));
}

#[test]
fn what_is_no_image_is_refused() {
    assert!(!decode_icon(b"not an image").unwrap_err().is_empty());
    assert!(icon_set(&IconImage { width: 2, height: 3, rgba: PIXELS.to_vec() }).is_none());
    assert!(icon_set(&IconImage { width: u32::MAX, height: u32::MAX, rgba: vec![] }).is_none());
}
