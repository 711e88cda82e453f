use roguelike::rect::Rect;

#[test]
fn new_adds_the_sides_to_the_corner() {
    let r = Rect::new(2, 3, 6, 4);
    assert_eq!(r, Rect { x1: 2, y1: 3, x2: 8, y2: 7 });
    let r = Rect::new(-5, -6, 2, 3);
    assert_eq!(r, Rect { x1: -5, y1: -6, x2: -3, y2: -3 });
    let r = Rect::new(i32::MAX - 1, i32::MIN, 1, 0);
    assert_eq!(r, Rect { x1: i32::MAX - 1, y1: i32::MIN, x2: i32::MAX, y2: i32::MIN });
}

#[test]
fn center_is_the_middle() {
    assert_eq!(Rect::new(2, 2, 6, 4).center(), (5, 4));
    assert_eq!(Rect::new(0, 0, 10, 10).center(), (5, 5));
    assert_eq!(Rect::new(0, 0, 9, 7).center(), (4, 3));
    assert_eq!(Rect::new(3, 4, 0, 0).center(), (3, 4));
    assert_eq!(Rect::new(3, 4, 1, 1).center(), (3, 4));
}

#[test]
fn center_rounds_toward_zero() {
    assert_eq!(Rect { x1: -4, y1: -3, x2: -1, y2: 0 }.center(), (-2, -1));
    assert_eq!(Rect { x1: -4, y1: -7, x2: 1, y2: 2 }.center(), (-1, -2));
    assert_eq!(Rect { x1: -1, y1: -1, x2: 2, y2: 0 }.center(), (0, 0));
}

#[test]
fn center_does_not_overflow() {
    let r = Rect { x1: i32::MAX, y1: i32::MIN, x2: i32::MAX, y2: i32::MIN };
    assert_eq!(r.center(), (i32::MAX, i32::MIN));
    let r = Rect { x1: i32::MIN, y1: i32::MAX - 2, x2: i32::MAX, y2: i32::MAX };
    assert_eq!(r.center(), (0, i32::MAX - 1));
}

#[test]
fn overlapping_rects_intersect() {
    let a = Rect::new(0, 0, 5, 5);
    let b = Rect::new(3, 3, 5, 5);
    assert!(a.is_intersected(&b));
    assert!(b.is_intersected(&a));
    assert!(a.is_intersected(&a));
    let inner = Rect::new(1, 1, 2, 2);
    assert!(a.is_intersected(&inner));
    assert!(inner.is_intersected(&a));
}

#[test]
fn rects_that_share_an_edge_intersect() {
    let a = Rect::new(0, 0, 5, 5);
    let right = Rect::new(5, 0, 5, 5);
    let below = Rect::new(0, 5, 5, 5);
    let corner = Rect::new(5, 5, 5, 5);
    assert!(a.is_intersected(&right));
    assert!(right.is_intersected(&a));
    assert!(a.is_intersected(&below));
    assert!(below.is_intersected(&a));
    assert!(a.is_intersected(&corner));
    assert!(corner.is_intersected(&a));
}

#[test]
fn rects_apart_do_not_intersect() {
    let a = Rect::new(0, 0, 5, 5);
    let right = Rect::new(6, 0, 5, 5);
    let below = Rect::new(0, 6, 5, 5);
    let left = Rect::new(-7, 0, 6, 5);
    let above = Rect::new(0, -7, 5, 6);
    for other in [right, below, left, above] {
        assert!(!a.is_intersected(&other));
        assert!(!other.is_intersected(&a));
    }
}
