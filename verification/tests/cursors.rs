use picture::iter::PixelsMut;
use picture::{ImgBuf, Rect};

#[test]
fn pixels_with_coords_walks_row_major() {
    let buf = ImgBuf::from_container(vec![10u8, 11, 12, 13, 14, 15], 3, 2);
    let mut cursor = buf.pixels_with_coords();
    let mut seen = Vec::new();
    let mut counts = Vec::new();
    loop {
        counts.push(cursor.remaining());
        match cursor.next() {
            Some(item) => seen.push(item),
            None => break,
        }
    }
    assert_eq!(
        seen,
        vec![
            ((0, 0), 10),
            ((1, 0), 11),
            ((2, 0), 12),
            ((0, 1), 13),
            ((1, 1), 14),
            ((2, 1), 15),
        ]
    );
    assert_eq!(counts, vec![6, 5, 4, 3, 2, 1, 0]);
}

#[test]
fn view_cursor_stays_in_window() {
    let buf = ImgBuf::from_fn(4, 4, |(x, y): (u32, u32)| (y * 4 + x) as u8);
    let v = buf.view(Rect::new((1, 2), (2, 2))).unwrap();
    let mut cursor = v.pixels_with_coords();
    assert_eq!(cursor.remaining(), 4);
    assert_eq!(cursor.next(), Some(((0, 0), 9)));
    assert_eq!(cursor.next(), Some(((1, 0), 10)));
    assert_eq!(cursor.next(), Some(((0, 1), 13)));
    assert_eq!(cursor.next(), Some(((1, 1), 14)));
    assert_eq!(cursor.next(), None);
    assert_eq!(cursor.remaining(), 0);
}

#[test]
fn coordinate_cursor_covers_window_once() {
    let buf = ImgBuf::<u8>::new(4, 4);
    let w = buf.view_mut(Rect::new((1, 1), (2, 3))).unwrap();
    let mut cursor = w.pixels_with_coords_mut();
    assert_eq!(cursor.remaining(&buf), 6);
    let mut coords = Vec::new();
    while let Some(p) = cursor.next() {
        coords.push(p);
    }
    assert_eq!(coords, vec![(0, 0), (1, 0), (0, 1), (1, 1), (0, 2), (1, 2)]);
    assert_eq!(cursor.remaining(&buf), 0);
}

#[test]
fn window_read_cursor_sees_buffer_values() {
    let buf = ImgBuf::from_fn(3, 3, |(x, y): (u32, u32)| (y * 3 + x) as u8);
    let w = buf.view_mut(Rect::new((1, 1), (2, 2))).unwrap();
    let mut cursor = w.pixels_with_coords(&buf);
    assert_eq!(cursor.remaining(), 4);
    assert_eq!(cursor.next(), Some(((0, 0), 4)));
    assert_eq!(cursor.next(), Some(((1, 0), 5)));
    assert_eq!(cursor.next(), Some(((0, 1), 7)));
    assert_eq!(cursor.next(), Some(((1, 1), 8)));
    assert_eq!(cursor.next(), None);
}

#[test]
fn write_cursor_fills_window() {
    let mut buf = ImgBuf::from_container(vec![0u8; 9], 3, 3);
    let w = buf.view_mut(Rect::new((1, 0), (2, 2))).unwrap();
    let mut cursor = PixelsMut::new(w);
    let mut value = 1u8;
    while cursor.set_next(&mut buf, value) {
        value += 1;
    }
    assert_eq!(buf.as_pixel_slice(), &[0, 1, 2, 0, 3, 4, 0, 0, 0]);
}

#[test]
fn cursors_on_empty_windows_are_done() {
    let buf = ImgBuf::<u8>::new(0, 3);
    let mut cursor = buf.pixels_with_coords();
    assert_eq!(cursor.remaining(), 0);
    assert_eq!(cursor.next(), None);
    let mut write_cursor = buf.pixels_with_coords_mut();
    assert_eq!(write_cursor.remaining(&buf), 0);
    assert_eq!(write_cursor.next(), None);
}
