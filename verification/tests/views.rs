use picture::{ImgBuf, Rect};

fn numbered(width: u32, height: u32) -> ImgBuf<u8> {
    ImgBuf::from_fn(width, height, move |(x, y): (u32, u32)| (y * width + x) as u8)
}

#[test]
fn view_rejects_escaping_or_empty_bounds() {
    let buf = numbered(4, 4);
    assert!(buf.view(Rect::new((0, 0), (4, 4))).is_some());
    assert!(buf.view(Rect::new((1, 1), (4, 4))).is_none());
    assert!(buf.view(Rect::new((0, 0), (0, 4))).is_none());
    assert!(buf.view(Rect::new((4, 0), (1, 1))).is_none());
}

#[test]
fn view_pixels_match_buffer() {
    // every pixel of a window equals the buffer's pixel at the translated point
    let buf = numbered(4, 4);
    let r = Rect::new((1, 2), (3, 2));
    let v = buf.view(r).unwrap();
    assert_eq!(v.dimensions(), (3, 2));
    for y in 0..2u32 {
        for x in 0..3u32 {
            let abs = r.abs_point_from_relative((x, y));
            assert_eq!(v.pixel((x, y)), buf.pixel(abs));
        }
    }
    assert_eq!(v.pixel((3, 0)), None);
    assert_eq!(v.pixel((0, 2)), None);
    assert_eq!(v.size(), 6);
}

#[test]
fn subview_composes_bounds() {
    let buf = numbered(6, 6);
    let outer = buf.view(Rect::new((1, 1), (4, 4))).unwrap();
    let inner = outer.view(Rect::new((2, 1), (2, 2))).unwrap();
    // inner (0,0) is buffer (3,2)
    assert_eq!(inner.pixel((0, 0)), buf.pixel((3, 2)));
    assert_eq!(inner.pixel((1, 1)), buf.pixel((4, 3)));
    assert!(outer.view(Rect::new((3, 3), (2, 2))).is_none());
}

#[test]
fn to_buffer_copies_window() {
    let buf = numbered(4, 4);
    let v = buf.view(Rect::new((2, 1), (2, 3))).unwrap();
    let copy = v.to_buffer();
    assert_eq!(copy.dimensions(), (2, 3));
    for y in 0..3u32 {
        for x in 0..2u32 {
            assert_eq!(copy.pixel((x, y)), buf.pixel((x + 2, y + 1)));
        }
    }
}

#[test]
fn window_set_pixel_stays_inside() {
    let mut buf = ImgBuf::from_container(vec![0u8; 16], 4, 4);
    let w = buf.view_mut(Rect::new((1, 1), (2, 2))).unwrap();
    assert!(w.set_pixel(&mut buf, (0, 0), 7));
    assert!(w.set_pixel(&mut buf, (1, 1), 8));
    // writes land at the absolute cells (1,1) and (2,2)
    assert_eq!(buf.pixel((1, 1)), Some(&7));
    assert_eq!(buf.pixel((2, 2)), Some(&8));
    // out-of-window writes change nothing and report failure
    assert!(!w.set_pixel(&mut buf, (2, 0), 9));
    assert_eq!(
        buf.as_pixel_slice(),
        &[0, 0, 0, 0, 0, 7, 0, 0, 0, 0, 8, 0, 0, 0, 0, 0]
    );
    // reads through the window see the same cells
    assert_eq!(w.pixel(&buf, (0, 0)), Some(&7));
    assert_eq!(w.pixel(&buf, (2, 0)), None);
    assert_eq!(w.size(&buf), 4);
}

#[test]
fn split_then_mutate_halves_independently() {
    // split at every possible mid, mutate both halves, read the whole region
    for mid in 0..=4u32 {
        let mut buf = ImgBuf::from_container(vec![0u8; 8], 4, 2);
        let (left, right) = buf.split_x_at_mut(mid).unwrap();
        assert_eq!(left.dimensions(), (mid, 2));
        assert_eq!(right.dimensions(), (4 - mid, 2));
        // write 1 everywhere through the left window, 2 through the right
        for y in 0..2u32 {
            for x in 0..4u32 {
                left.set_pixel(&mut buf, (x, y), 1);
                right.set_pixel(&mut buf, (x, y), 2);
            }
        }
        for y in 0..2u32 {
            for x in 0..4u32 {
                let expected = if x < mid { 1 } else { 2 };
                assert_eq!(buf.pixel((x, y)), Some(&expected), "mid {mid} at ({x},{y})");
            }
        }
    }
}

#[test]
fn split_y_then_mutate_halves_independently() {
    let mut buf = ImgBuf::from_container(vec![0u8; 8], 2, 4);
    let (upper, lower) = buf.split_y_at_mut(1).unwrap();
    assert_eq!(upper.dimensions(), (2, 1));
    assert_eq!(lower.dimensions(), (2, 3));
    for y in 0..4u32 {
        for x in 0..2u32 {
            upper.set_pixel(&mut buf, (x, y), 3);
            lower.set_pixel(&mut buf, (x, y), 4);
        }
    }
    assert_eq!(buf.as_pixel_slice(), &[3, 3, 4, 4, 4, 4, 4, 4]);
}

#[test]
fn window_split_is_scoped_to_window() {
    let mut buf = ImgBuf::from_container(vec![0u8; 16], 4, 4);
    let w = buf.view_mut(Rect::new((1, 1), (3, 2))).unwrap();
    let (left, right) = w.split_x_at_mut(1).unwrap();
    left.set_pixel(&mut buf, (0, 0), 5);
    right.set_pixel(&mut buf, (0, 1), 6);
    // left (0,0) is buffer (1,1); right (0,1) is buffer (2,2)
    assert_eq!(buf.pixel((1, 1)), Some(&5));
    assert_eq!(buf.pixel((2, 2)), Some(&6));
}

#[test]
fn view_mut_multiple_rejects_overlap() {
    let buf = ImgBuf::<u8>::new(4, 4);
    let overlapping = vec![Rect::new((0, 0), (2, 2)), Rect::new((1, 1), (2, 2))];
    assert!(buf.view_mut_multiple(&overlapping).is_none());
    let escaping = vec![Rect::new((0, 0), (2, 2)), Rect::new((3, 3), (2, 2))];
    assert!(buf.view_mut_multiple(&escaping).is_none());
}

#[test]
fn view_mut_multiple_disjoint_windows_are_independent() {
    let mut buf = ImgBuf::from_container(vec![0u8; 16], 4, 4);
    let rects = vec![
        Rect::new((0, 0), (2, 2)),
        Rect::new((2, 0), (2, 2)),
        Rect::new((0, 2), (4, 2)),
    ];
    let windows = buf.view_mut_multiple(&rects).unwrap();
    assert_eq!(windows.len(), 3);
    // each window only affects its own region
    for (index, w) in windows.iter().enumerate() {
        let (width, height) = w.dimensions();
        for y in 0..height {
            for x in 0..width {
                w.set_pixel(&mut buf, (x, y), (index + 1) as u8);
            }
        }
    }
    assert_eq!(
        buf.as_pixel_slice(),
        &[1, 1, 2, 2, 1, 1, 2, 2, 3, 3, 3, 3, 3, 3, 3, 3]
    );
}

#[test]
fn copy_from_copies_between_buffers() {
    let src_buf = numbered(4, 4);
    let src = src_buf.view(Rect::new((2, 2), (2, 2))).unwrap();
    let mut dst = ImgBuf::from_container(vec![0u8; 16], 4, 4);
    let w = dst.view_mut(Rect::new((0, 0), (2, 2))).unwrap();
    w.copy_from(&mut dst, &src);
    assert_eq!(dst.pixel((0, 0)), src_buf.pixel((2, 2)));
    assert_eq!(dst.pixel((1, 1)), src_buf.pixel((3, 3)));
    assert_eq!(dst.pixel((2, 0)), Some(&0));
}

#[test]
fn swap_with_exchanges_regions() {
    let mut buf = ImgBuf::from_container(vec![1u8, 2, 3, 4, 5, 6, 7, 8], 4, 2);
    let a = buf.view_mut(Rect::new((0, 0), (2, 2))).unwrap();
    let b = buf.view_mut(Rect::new((2, 0), (2, 2))).unwrap();
    a.swap_with(&b, &mut buf);
    assert_eq!(buf.as_pixel_slice(), &[3, 4, 1, 2, 7, 8, 5, 6]);
}
