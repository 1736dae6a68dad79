use picture::Rect;

#[test]
fn new_and_getters() {
    let r = Rect::new((2, 3), (4, 5));
    assert_eq!(r.top_left(), (2, 3));
    assert_eq!(r.dimensions(), (4, 5));
    assert_eq!(r.bottom_right(), (6, 8));
    assert_eq!(r.inclusive_bottom_right(), Some((5, 7)));
    assert_eq!(r.len(), 20);
    assert!(!r.is_empty());
}

#[test]
fn try_new_rejects_overflow() {
    assert!(Rect::try_new((u32::MAX, 0), (1, 0)).is_none());
    assert!(Rect::try_new((0, u32::MAX), (0, 1)).is_none());
    let r = Rect::try_new((u32::MAX - 1, 0), (1, 1)).unwrap();
    assert_eq!(r.top_left(), (u32::MAX - 1, 0));
    assert_eq!(r.dimensions(), (1, 1));
}

#[test]
fn from_extremes_matches_new() {
    let r = Rect::from_extremes((1, 2), (4, 6));
    assert_eq!(r, Rect::new((1, 2), (3, 4)));
}

#[test]
fn empty_rect_has_no_points() {
    let r = Rect::empty((7, 9));
    assert!(r.is_empty());
    assert_eq!(r.len(), 0);
    assert_eq!(r.inclusive_bottom_right(), None);
    assert!(!r.contains((7, 9)));
    assert!(!r.contains_relative((0, 0)));
}

#[test]
fn contains_is_half_open() {
    let r = Rect::new((1, 1), (2, 2));
    assert!(r.contains((1, 1)));
    assert!(r.contains((2, 2)));
    assert!(!r.contains((3, 1)));
    assert!(!r.contains((1, 3)));
    assert!(!r.contains((0, 1)));
}

#[test]
fn contains_relative_and_translation() {
    let r = Rect::new((5, 10), (3, 2));
    assert!(r.contains_relative((2, 1)));
    assert!(!r.contains_relative((3, 0)));
    assert_eq!(r.abs_point_from_relative((2, 1)), (7, 11));
}

#[test]
fn contains_rect_requires_both_non_empty() {
    let a = Rect::new((0, 0), (4, 4));
    let b = Rect::new((1, 1), (2, 2));
    assert!(a.contains_rect(&b));
    assert!(!b.contains_rect(&a));
    // an empty rect is contained by nothing, and contains nothing
    let e = Rect::empty((1, 1));
    assert!(!a.contains_rect(&e));
    assert!(!e.contains_rect(&e));
    assert!(!e.contains_rect(&b));
    // a rect contains itself when non-empty
    assert!(a.contains_rect(&a));
}

#[test]
fn contains_rect_matches_corner_membership() {
    // the rect-containment characterization, on a sweep of concrete pairs
    let a = Rect::new((2, 2), (3, 3));
    for x in 0..7u32 {
        for y in 0..7u32 {
            for w in 0..4u32 {
                for h in 0..4u32 {
                    let b = Rect::new((x, y), (w, h));
                    let expected = !b.is_empty()
                        && a.contains(b.top_left())
                        && b.inclusive_bottom_right().map(|p| a.contains(p)).unwrap_or(false);
                    assert_eq!(a.contains_rect(&b), expected);
                }
            }
        }
    }
}

#[test]
fn contains_rect_relative_uses_own_space() {
    let r = Rect::new((10, 10), (4, 4));
    assert!(r.contains_rect_relative(&Rect::new((1, 1), (3, 3))));
    assert!(!r.contains_rect_relative(&Rect::new((2, 2), (3, 3))));
}

#[test]
fn abs_rect_from_relative_translates() {
    let base = Rect::new((10, 20), (8, 8));
    let rel = Rect::new((1, 2), (3, 4));
    let abs = base.abs_rect_from_relative(rel);
    assert_eq!(abs, Rect::new((11, 22), (3, 4)));
}

#[test]
fn separation_predicates() {
    let a = Rect::new((0, 0), (2, 2));
    let below = Rect::new((0, 2), (2, 2));
    let right = Rect::new((2, 0), (2, 2));
    assert!(below.is_completely_below(&a));
    assert!(!a.is_completely_below(&below));
    assert!(right.is_completely_to_the_right(&a));
    assert!(!a.is_completely_to_the_right(&right));
}

#[test]
fn overlaps_cases() {
    let a = Rect::new((0, 0), (3, 3));
    assert!(a.overlaps(&Rect::new((2, 2), (3, 3))));
    assert!(Rect::new((2, 2), (3, 3)).overlaps(&a));
    // touching edges do not overlap: bounds are half-open
    assert!(!a.overlaps(&Rect::new((3, 0), (3, 3))));
    assert!(!a.overlaps(&Rect::new((0, 3), (3, 3))));
    // empty rects overlap nothing, even at the same origin
    let e = Rect::empty((1, 1));
    assert!(!a.overlaps(&e));
    assert!(!e.overlaps(&a));
    assert!(!e.overlaps(&e));
    // a rect overlaps itself when non-empty
    assert!(a.overlaps(&a));
}
