use picture::pixel::Rgb8;
use picture::{ImgBuf, Rect};

#[test]
fn new_is_blank_filled() {
    let buf = ImgBuf::<u8>::new(3, 2);
    assert_eq!(buf.dimensions(), (3, 2));
    assert_eq!(buf.size(), 6);
    assert_eq!(buf.as_pixel_slice(), &[0u8; 6]);
}

#[test]
fn new_rgb_is_blank_filled() {
    let buf = ImgBuf::<Rgb8>::new(2, 2);
    assert_eq!(buf.pixel((1, 1)), Some(&Rgb8 { r: 0, g: 0, b: 0 }));
}

#[test]
fn from_container_adopts_storage() {
    let buf = ImgBuf::from_container(vec![1u8, 2, 3, 4, 5, 6], 3, 2);
    assert_eq!(buf.width(), 3);
    assert_eq!(buf.height(), 2);
    assert_eq!(buf.container().as_slice(), &[1, 2, 3, 4, 5, 6]);
    assert_eq!(buf.into_container(), vec![1, 2, 3, 4, 5, 6]);
}

#[test]
fn pixel_is_bounds_checked() {
    let buf = ImgBuf::from_container(vec![10u8, 20, 30, 40, 50, 60], 3, 2);
    assert_eq!(buf.pixel((0, 0)), Some(&10));
    assert_eq!(buf.pixel((2, 1)), Some(&60));
    assert_eq!(buf.pixel((1, 1)), Some(&50));
    assert_eq!(buf.pixel((3, 0)), None);
    assert_eq!(buf.pixel((0, 2)), None);
}

#[test]
fn set_pixel_writes_one_cell() {
    let mut buf = ImgBuf::from_container(vec![0u8; 6], 3, 2);
    assert!(buf.set_pixel((1, 1), 9));
    assert_eq!(buf.as_pixel_slice(), &[0, 0, 0, 0, 9, 0]);
    assert!(!buf.set_pixel((3, 0), 7));
    assert_eq!(buf.as_pixel_slice(), &[0, 0, 0, 0, 9, 0]);
}

#[test]
fn from_fn_gets_coordinates() {
    let buf = ImgBuf::from_fn(3, 2, |(x, y): (u32, u32)| (10 * y + x) as u8);
    assert_eq!(buf.as_pixel_slice(), &[0, 1, 2, 10, 11, 12]);
}

#[test]
fn map_applies_pixelwise() {
    let buf = ImgBuf::from_container(vec![1u8, 2, 3, 4], 2, 2);
    let doubled = buf.map(|p: u8| p * 2);
    assert_eq!(doubled.dimensions(), (2, 2));
    assert_eq!(doubled.as_pixel_slice(), &[2, 4, 6, 8]);
}

#[test]
fn map_vec_applies_pixelwise() {
    let buf = ImgBuf::from_container(vec![1u8, 2, 3, 4], 2, 2);
    let wide = buf.map_vec(|p: u8| p as u16 + 300);
    assert_eq!(wide.as_pixel_slice(), &[301u16, 302, 303, 304]);
}

#[test]
fn copy_from_buffer_copies_all() {
    let mut dst = ImgBuf::from_container(vec![0u8; 4], 2, 2);
    let src = ImgBuf::from_container(vec![5u8, 6, 7, 8], 2, 2);
    dst.copy_from_buffer(&src);
    assert_eq!(dst.as_pixel_slice(), &[5, 6, 7, 8]);
}

#[test]
fn bounds_covers_whole_buffer() {
    let buf = ImgBuf::<u8>::new(4, 3);
    assert_eq!(buf.bounds(), Rect::new((0, 0), (4, 3)));
}

#[test]
fn zero_sized_buffers() {
    let buf = ImgBuf::<u8>::new(0, 5);
    assert_eq!(buf.size(), 0);
    assert_eq!(buf.pixel((0, 0)), None);
    let buf = ImgBuf::<u8>::new(5, 0);
    assert_eq!(buf.size(), 0);
    assert_eq!(buf.pixel((0, 0)), None);
}
