use picture::drawing::draw_line;
use picture::ImgBuf;
use picture::Rect;

#[test]
fn draw_line_walks_a_row() {
    let mut buf = ImgBuf::from_container(vec![0u8; 4], 4, 1);
    let w = buf.full_window();
    draw_line(&w, &mut buf, (0, 0), (3, 0), |_: (u32, u32)| 7u8);
    assert_eq!(buf.as_pixel_slice(), &[7, 7, 7, 0]);
}

#[test]
fn draw_line_walks_a_column() {
    let mut buf = ImgBuf::from_container(vec![0u8; 9], 3, 3);
    let w = buf.full_window();
    draw_line(&w, &mut buf, (1, 0), (1, 2), |(x, y): (u32, u32)| (10 + x + y) as u8);
    assert_eq!(buf.pixel((1, 0)), Some(&11));
    assert_eq!(buf.pixel((1, 1)), Some(&12));
    assert_eq!(buf.pixel((1, 2)), Some(&0));
    assert_eq!(buf.pixel((0, 0)), Some(&0));
}

#[test]
fn draw_line_walks_a_diagonal() {
    let mut buf = ImgBuf::from_container(vec![0u8; 9], 3, 3);
    let w = buf.full_window();
    draw_line(&w, &mut buf, (0, 0), (2, 2), |_: (u32, u32)| 9u8);
    assert_eq!(buf.as_pixel_slice(), &[9, 0, 0, 0, 9, 0, 0, 0, 0]);
}

#[test]
fn draw_line_in_window_stays_inside() {
    let mut buf = ImgBuf::from_container(vec![1u8; 16], 4, 4);
    let w = buf.view_mut(Rect::new((1, 1), (2, 2))).unwrap();
    draw_line(&w, &mut buf, (0, 0), (1, 1), |_: (u32, u32)| 5u8);
    // only cells of the window's region may change
    for y in 0..4u32 {
        for x in 0..4u32 {
            let inside = (1..3).contains(&x) && (1..3).contains(&y);
            if !inside {
                assert_eq!(buf.pixel((x, y)), Some(&1), "at ({x},{y})");
            }
        }
    }
    // the walked cell got the colouring function's value
    assert_eq!(buf.pixel((1, 1)), Some(&5));
}

#[test]
fn draw_line_degenerate_is_empty() {
    let mut buf = ImgBuf::from_container(vec![3u8; 4], 2, 2);
    let w = buf.full_window();
    draw_line(&w, &mut buf, (1, 1), (1, 1), |_: (u32, u32)| 8u8);
    assert_eq!(buf.as_pixel_slice(), &[3, 3, 3, 3]);
}
