use picture::processing::{flip_horizontal, flip_vertical, ResizeFilter};
use picture::{ImgBuf, Rect};

#[test]
fn flip_horizontal_swaps_ends_of_each_row() {
    // pixel (0,0) differs from (width-1,0): the flip swaps exactly those two
    // and, row by row, mirrors everything else
    let mut buf = ImgBuf::from_container(vec![1u8, 0, 2, 0, 0, 0], 3, 2);
    let w = buf.full_window();
    flip_horizontal(&w, &mut buf);
    assert_eq!(buf.as_pixel_slice(), &[2, 0, 1, 0, 0, 0]);
}

#[test]
fn flip_horizontal_mirrors_rows() {
    let mut buf = ImgBuf::from_container(vec![1u8, 2, 3, 4, 5, 6, 7, 8], 4, 2);
    let w = buf.full_window();
    flip_horizontal(&w, &mut buf);
    assert_eq!(buf.as_pixel_slice(), &[4, 3, 2, 1, 8, 7, 6, 5]);
}

#[test]
fn flip_vertical_mirrors_columns() {
    let mut buf = ImgBuf::from_container(vec![1u8, 2, 3, 4, 5, 6], 2, 3);
    let w = buf.full_window();
    flip_vertical(&w, &mut buf);
    assert_eq!(buf.as_pixel_slice(), &[5, 6, 3, 4, 1, 2]);
}

#[test]
fn flip_window_leaves_outside_untouched() {
    let mut buf = ImgBuf::from_container(
        vec![
            0u8, 1, 2, 3,
            4, 5, 6, 7,
            8, 9, 10, 11,
            12, 13, 14, 15,
        ],
        4,
        4,
    );
    let w = buf.view_mut(Rect::new((1, 1), (2, 2))).unwrap();
    flip_horizontal(&w, &mut buf);
    assert_eq!(
        buf.as_pixel_slice(),
        &[0, 1, 2, 3, 4, 6, 5, 7, 8, 10, 9, 11, 12, 13, 14, 15]
    );
}

#[test]
fn flips_on_degenerate_windows() {
    // single-column and single-row windows are fixed points of the flips
    let mut buf = ImgBuf::from_container(vec![1u8, 2, 3], 1, 3);
    let w = buf.full_window();
    flip_horizontal(&w, &mut buf);
    assert_eq!(buf.as_pixel_slice(), &[1, 2, 3]);
    let mut buf = ImgBuf::from_container(vec![1u8, 2, 3], 3, 1);
    let w = buf.full_window();
    flip_vertical(&w, &mut buf);
    assert_eq!(buf.as_pixel_slice(), &[1, 2, 3]);
}

#[test]
fn flip_twice_restores() {
    let mut buf = ImgBuf::from_fn(5, 4, |(x, y): (u32, u32)| (y * 5 + x) as u8);
    let original = buf.as_pixel_slice().to_vec();
    let w = buf.full_window();
    flip_horizontal(&w, &mut buf);
    flip_horizontal(&w, &mut buf);
    assert_eq!(buf.as_pixel_slice(), original.as_slice());
    flip_vertical(&w, &mut buf);
    flip_vertical(&w, &mut buf);
    assert_eq!(buf.as_pixel_slice(), original.as_slice());
}

#[test]
fn resize_filter_is_plain_data() {
    let f = ResizeFilter::CatmullRom;
    assert_eq!(f, ResizeFilter::CatmullRom);
    assert_ne!(f, ResizeFilter::Box);
    let copy = f;
    assert_eq!(copy, f);
}
