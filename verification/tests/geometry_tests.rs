use termpaint::geometry::{convert_rect, convert_vec2, DefRect, DefVec2, Int, Rect, Vec2};

#[test]
fn rect_works() {
    let r1 = DefRect::new(1, 2, 1, 1);
    let r2 = DefRect::new(3, 5, 2, 2);

    assert_eq!(r1, ((1, 2), (1, 2)));
    assert_eq!(r2, ((3, 5), (4, 6)));
}

#[test]
fn rect_size() {
    let r1 = DefRect::new(1, 2, 1, 1);

    assert_eq!(r1.w(), 1);
    assert_eq!(r1.h(), 1);
    assert_eq!(r1.bottom_right(), (1, 2));
}

#[test]
fn corners_in_either_order() {
    let a: DefRect = ((7, 3), (2, 9));
    let b: DefRect = ((2, 9), (7, 3));
    assert_eq!(a.left(), 2);
    assert_eq!(a.top(), 3);
    assert_eq!(a.w(), 6);
    assert_eq!(a.h(), 7);
    assert_eq!((a.left(), a.top(), a.w(), a.h()), (b.left(), b.top(), b.w(), b.h()));
}

#[test]
fn inclusive_bounds() {
    let r: DefRect = ((2, 3), (7, 9));
    assert_eq!(r.right(), 7);
    assert_eq!(r.bottom(), 9);
    assert_eq!(r.right() - r.left() + 1, r.w());
    assert_eq!(r.bottom() - r.top() + 1, r.h());
    let one = DefRect::new(4, 4, 1, 1);
    assert_eq!(one.right(), 4);
    assert_eq!(one.bottom(), 4);
}

#[test]
fn four_corners() {
    let r: DefRect = ((7, 9), (2, 3));
    assert_eq!(r.top_left(), (2, 3));
    assert_eq!(r.top_right(), (7, 3));
    assert_eq!(r.bottom_left(), (2, 9));
    assert_eq!(r.bottom_right(), (7, 9));
}

#[test]
fn rect_reaches_last_cell() {
    let r = DefRect::new(65535, 65535, 1, 1);
    assert_eq!(r, ((65535, 65535), (65535, 65535)));
    assert_eq!(r.right(), 65535);
    assert_eq!(r.bottom(), 65535);
}

#[test]
fn vec2_accessors_give_canonical_values() {
    let p: (u8, i64) = (200, 40000);
    assert_eq!(p.x(), 200);
    assert_eq!(p.y(), 40000);
    let q = <(i32, usize) as Vec2>::new(17, 65535);
    assert_eq!(q, (17i32, 65535usize));
}

#[test]
fn int_conversions_truncate() {
    assert_eq!(300u32.to_u16(), 300);
    assert_eq!(65536u32.to_u16(), 0);
    assert_eq!(65537u64.to_u16(), 1);
    assert_eq!((-1i8).to_u16(), 65535);
    assert_eq!((-1i32).to_u16(), 65535);
    assert_eq!(<u8 as Int>::from_u16(256), 0);
    assert_eq!(<u8 as Int>::from_u16(255), 255);
    assert_eq!(<i8 as Int>::from_u16(128), -128);
    assert_eq!(<i16 as Int>::from_u16(65535), -1);
    assert_eq!(<u128 as Int>::from_u16(65535), 65535);
    assert_eq!(<isize as Int>::from_u16(40000), 40000);
    assert_eq!(<i128 as Int>::from_u16(7), 7);
    assert_eq!(<i64 as Int>::from_u16(9), 9);
    assert_eq!(7usize.to_u16(), 7);
    assert_eq!(7u128.to_u16(), 7);
    assert_eq!(7i16.to_u16(), 7);
    assert_eq!(7isize.to_u16(), 7);
    assert_eq!(7i128.to_u16(), 7);
    assert_eq!(7i64.to_u16(), 7);
    assert_eq!(7u16.to_u16(), 7);
    assert_eq!(<u16 as Int>::from_u16(7), 7);
}

#[test]
fn position_round_trip() {
    let p: DefVec2 = (120, 31000);
    let q: (u8, i32) = convert_vec2(&p);
    assert_eq!(q, (120u8, 31000i32));
    let back: DefVec2 = convert_vec2(&q);
    assert_eq!(back, p);
}

#[test]
fn position_conversion_loses_what_does_not_fit() {
    let p: DefVec2 = (300, 5);
    let q: (u8, u8) = convert_vec2(&p);
    assert_eq!(q, (44u8, 5u8));
}

#[test]
fn rect_round_trip() {
    let r: DefRect = ((3, 5), (40, 60));
    let s: ((u32, i64), (u8, usize)) = convert_rect(&r);
    assert_eq!(s, ((3u32, 5i64), (40u8, 60usize)));
    assert_eq!((s.left(), s.top(), s.w(), s.h()), (3, 5, 38, 56));
    let back: DefRect = convert_rect(&s);
    assert_eq!(back, r);
}

#[test]
fn rect_conversion_normalizes_corners() {
    let r: DefRect = ((40, 60), (3, 5));
    let s: DefRect = convert_rect(&r);
    assert_eq!(s, ((3, 5), (40, 60)));
}
