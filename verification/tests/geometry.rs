use embedded_graphics::geometry::{Point as OuterPoint, Size as OuterSize};
use embedded_graphics::primitives::Rectangle as OuterRectangle;
use embedded_nineslice::{Point, Rectangle, Size};

fn rect(x: i32, y: i32, w: u32, h: u32) -> Rectangle {
    Rectangle::new(Point::new(x, y), Size::new(w, h))
}

fn inside(r: &Rectangle, x: i64, y: i64) -> bool {
    let left = r.top_left.x as i64;
    let top = r.top_left.y as i64;
    left <= x && x < left + r.size.width as i64 && top <= y && y < top + r.size.height as i64
}

#[test]
fn constructors_keep_their_arguments() {
    assert_eq!(Point::new(3, -4), Point { x: 3, y: -4 });
    assert_eq!(Point::zero(), Point { x: 0, y: 0 });
    assert_eq!(Size::new(5, 6), Size { width: 5, height: 6 });
    let r = rect(1, 2, 3, 4);
    assert_eq!(r.top_left, Point::new(1, 2));
    assert_eq!(r.size, Size::new(3, 4));
}

#[test]
fn zero_sized_rectangles_are_recognised() {
    assert!(rect(5, 5, 0, 3).is_zero_sized());
    assert!(rect(5, 5, 3, 0).is_zero_sized());
    assert!(rect(5, 5, 0, 0).is_zero_sized());
    assert!(!rect(5, 5, 1, 1).is_zero_sized());
}

#[test]
fn addressable_sizes_end_at_the_largest_coordinate() {
    assert!(Size::new(0, 0).is_addressable());
    assert!(Size::new(0x7fff_ffff, 0x7fff_ffff).is_addressable());
    assert!(!Size::new(0x8000_0000, 1).is_addressable());
    assert!(!Size::new(1, 0x8000_0000).is_addressable());
}

#[test]
fn addressable_rectangles_keep_their_far_edges_in_range() {
    assert!(rect(0, 0, 0x7fff_ffff, 0x7fff_ffff).is_addressable());
    assert!(!rect(1, 0, 0x7fff_ffff, 1).is_addressable());
    assert!(!rect(0, 1, 1, 0x7fff_ffff).is_addressable());
    assert!(rect(-10, -10, 20, 20).is_addressable());
    assert!(rect(i32::MIN, i32::MIN, 0x7fff_ffff, 0x7fff_ffff).is_addressable());
    assert!(!rect(i32::MIN, 0, 0x8000_0000, 1).is_addressable());
}

#[test]
fn intersection_of_overlapping_rectangles() {
    let a = rect(0, 0, 7, 8);
    let b = rect(2, 3, 10, 7);
    assert_eq!(a.intersection(&b), rect(2, 3, 5, 5));
    assert_eq!(b.intersection(&a), rect(2, 3, 5, 5));
}

#[test]
fn intersection_with_a_rectangle_inside() {
    let outer = rect(-5, -5, 20, 20);
    let inner = rect(1, 2, 3, 4);
    assert_eq!(outer.intersection(&inner), inner);
    assert_eq!(inner.intersection(&outer), inner);
    assert_eq!(inner.intersection(&inner), inner);
}

#[test]
fn intersection_of_rectangles_apart_is_zero() {
    let a = rect(0, 0, 7, 8);
    assert_eq!(a.intersection(&rect(10, 15, 10, 7)), rect(0, 0, 0, 0));
    // Side by side, sharing an edge but no pixel.
    assert_eq!(a.intersection(&rect(7, 0, 3, 8)), rect(0, 0, 0, 0));
    assert_eq!(a.intersection(&rect(0, 8, 7, 3)), rect(0, 0, 0, 0));
    // Overlapping in one axis only.
    assert_eq!(a.intersection(&rect(3, 20, 2, 2)), rect(0, 0, 0, 0));
}

#[test]
fn intersection_with_an_empty_rectangle() {
    let a = rect(0, 0, 7, 8);
    let inside_empty = rect(2, 3, 0, 5);
    let outside_empty = rect(20, 3, 0, 5);
    assert_eq!(a.intersection(&inside_empty), inside_empty);
    assert_eq!(inside_empty.intersection(&a), inside_empty);
    assert_eq!(a.intersection(&outside_empty), rect(0, 0, 0, 0));
    assert_eq!(outside_empty.intersection(&a), rect(0, 0, 0, 0));
    assert_eq!(inside_empty.intersection(&rect(2, 3, 0, 0)), rect(0, 0, 0, 0));
}

#[test]
fn intersection_at_the_ends_of_the_coordinate_range() {
    let a = rect(i32::MIN, i32::MIN, 0x7fff_ffff, 0x7fff_ffff);
    let b = rect(-2, -3, 0x7fff_ffff, 0x7fff_ffff);
    assert_eq!(a.intersection(&b), rect(-2, -3, 1, 2));
    let c = rect(0, 0, 0x7fff_ffff, 0x7fff_ffff);
    assert_eq!(c.intersection(&c), c);
}

#[test]
fn intersection_holds_the_pixels_of_both() {
    let rects = [
        rect(0, 0, 4, 3),
        rect(2, 1, 5, 5),
        rect(-3, -2, 4, 4),
        rect(3, 0, 1, 1),
        rect(1, 1, 0, 2),
        rect(-1, 2, 6, 1),
        rect(5, 5, 2, 2),
    ];
    for a in rects.iter() {
        for b in rects.iter() {
            let common = a.intersection(b);
            for x in -5..10 {
                for y in -5..10 {
                    assert_eq!(
                        inside(&common, x, y),
                        inside(a, x, y) && inside(b, x, y),
                        "{:?} {:?} at {} {}",
                        a,
                        b,
                        x,
                        y
                    );
                }
            }
        }
    }
}

#[test]
fn intersection_agrees_with_embedded_graphics() {
    let rects = [
        rect(0, 0, 4, 3),
        rect(2, 1, 5, 5),
        rect(-3, -2, 4, 4),
        rect(1, 1, 0, 2),
        rect(9, 9, 0, 0),
    ];
    for a in rects.iter() {
        for b in rects.iter() {
            let outer_a = OuterRectangle::new(
                OuterPoint::new(a.top_left.x, a.top_left.y),
                OuterSize::new(a.size.width, a.size.height),
            );
            let outer_b = OuterRectangle::new(
                OuterPoint::new(b.top_left.x, b.top_left.y),
                OuterSize::new(b.size.width, b.size.height),
            );
            let expected = outer_a.intersection(&outer_b);
            let got = a.intersection(b);
            assert_eq!(got.top_left.x, expected.top_left.x);
            assert_eq!(got.top_left.y, expected.top_left.y);
            assert_eq!(got.size.width, expected.size.width);
            assert_eq!(got.size.height, expected.size.height);
        }
    }
}
