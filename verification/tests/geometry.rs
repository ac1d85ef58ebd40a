use flappy_ferris::compat::fraction_from_bits;
use flappy_ferris::compat::rand;
use flappy_ferris::compat::randrng;
use flappy_ferris::compat::randrng_at;
use flappy_ferris::geom::floor_units;
use flappy_ferris::geom::Rectangle;
use flappy_ferris::geom::Vector;
use flappy_ferris::geom::HALF;
use flappy_ferris::geom::ONE;

fn rect(x: i32, y: i32, w: i32, h: i32) -> Rectangle {
    Rectangle::new(Vector::from_pixels(x, y), Vector::from_pixels(w, h))
}

#[test]
fn one_pixel_is_65536_units() {
    assert_eq!(ONE, 65536);
    assert_eq!(HALF * 2, ONE);
    assert_eq!(Vector::from_pixels(3, -2), Vector::new(196608, -131072));
    assert_eq!(Vector::from_pixels(0, 0), Vector::new(0, 0));
}

#[test]
fn from_pixels_takes_the_whole_range() {
    let v = Vector::from_pixels(i32::MAX, i32::MIN);
    assert_eq!(v.x, 2147483647i64 * 65536);
    assert_eq!(v.y, -2147483648i64 * 65536);
}

#[test]
fn rectangles_that_share_area_overlap() {
    let a = rect(0, 0, 10, 10);
    let b = rect(5, 5, 10, 10);
    assert!(a.overlaps(&b));
    assert!(b.overlaps(&a));
}

#[test]
fn rectangles_that_only_touch_do_not_overlap() {
    let a = rect(0, 0, 10, 10);
    assert!(!a.overlaps(&rect(10, 0, 10, 10)));
    assert!(!a.overlaps(&rect(0, 10, 10, 10)));
    assert!(!a.overlaps(&rect(-10, 0, 10, 10)));
    assert!(!a.overlaps(&rect(0, -10, 10, 10)));
}

#[test]
fn rectangles_apart_on_one_axis_do_not_overlap() {
    let a = rect(0, 0, 10, 10);
    assert!(!a.overlaps(&rect(20, 0, 10, 10)));
    assert!(!a.overlaps(&rect(0, 20, 10, 10)));
    assert!(a.overlaps(&rect(9, 9, 1, 1)));
}

#[test]
fn one_unit_of_shared_area_is_enough() {
    let a = Rectangle::new(Vector::new(0, 0), Vector::new(10, 10));
    let b = Rectangle::new(Vector::new(9, 9), Vector::new(10, 10));
    let c = Rectangle::new(Vector::new(10, 9), Vector::new(10, 10));
    assert!(a.overlaps(&b));
    assert!(!a.overlaps(&c));
}

#[test]
fn overlap_is_the_same_from_either_side() {
    let boxes = [
        rect(0, 0, 10, 10),
        rect(5, 5, 10, 10),
        rect(10, 0, 3, 3),
        rect(-4, -4, 5, 5),
        rect(2, 2, 0, 0),
        rect(40, 20, 60, 40),
    ];
    for a in boxes.iter() {
        for b in boxes.iter() {
            assert_eq!(a.overlaps(b), b.overlaps(a));
        }
    }
}

#[test]
fn a_point_overlaps_only_the_box_around_it() {
    let point = rect(0, 0, 0, 0);
    assert!(point.overlaps(&rect(-1, -1, 2, 2)));
    assert!(!point.overlaps(&rect(0, 0, 2, 2)));
    assert!(!point.overlaps(&rect(40, 20, 60, 40)));
    assert!(!point.overlaps(&point));
}

#[test]
fn overlap_at_the_ends_of_the_range() {
    let far = Rectangle::new(Vector::new(i64::MAX, i64::MAX), Vector::new(i64::MAX, i64::MAX));
    let near = Rectangle::new(Vector::new(i64::MIN, i64::MIN), Vector::new(i64::MAX, i64::MAX));
    assert!(!far.overlaps(&near));
    assert!(!near.overlaps(&far));
    let all = Rectangle::new(Vector::new(i64::MIN, i64::MIN), Vector::new(-1, -1));
    assert!(!all.overlaps(&far));
    let wide = Rectangle::new(Vector::new(i64::MAX - 5, i64::MAX - 5), Vector::new(i64::MAX, 10));
    assert!(wide.overlaps(&far) == far.overlaps(&wide));
}

#[test]
fn floor_units_rounds_down() {
    assert_eq!(floor_units(0), 0);
    assert_eq!(floor_units(65535), 0);
    assert_eq!(floor_units(65536), 1);
    assert_eq!(floor_units(65537), 1);
    assert_eq!(floor_units(-1), -1);
    assert_eq!(floor_units(-65536), -1);
    assert_eq!(floor_units(-65537), -2);
    assert_eq!(floor_units(3 * 65536 + 7), 3);
}

#[test]
fn fraction_is_the_upper_half_of_the_bits() {
    assert_eq!(fraction_from_bits(0), 0);
    assert_eq!(fraction_from_bits(65535), 0);
    assert_eq!(fraction_from_bits(65536), 1);
    assert_eq!(fraction_from_bits(0x8000_0000), HALF);
    assert_eq!(fraction_from_bits(u32::MAX), ONE - 1);
}

#[test]
fn rand_stays_below_one() {
    for _ in 0..2000 {
        let f = rand();
        assert!(0 <= f && f < ONE);
    }
}

#[test]
fn rand_does_not_repeat_one_value() {
    let first = rand();
    let mut differs = false;
    for _ in 0..200 {
        if rand() != first {
            differs = true;
        }
    }
    assert!(differs);
}

#[test]
fn randrng_at_is_exact() {
    assert_eq!(randrng_at(0, HALF, 0), 0);
    assert_eq!(randrng_at(0, HALF, ONE), HALF);
    assert_eq!(randrng_at(0, HALF, HALF), 16384);
    assert_eq!(randrng_at(10, 20, HALF), 15);
    assert_eq!(randrng_at(10, 13, HALF), 11);
    assert_eq!(randrng_at(-10, 10, ONE / 4), -5);
    assert_eq!(randrng_at(0, 3, ONE - 1), 2);
}

#[test]
fn randrng_at_runs_backwards_too() {
    assert_eq!(randrng_at(20, 10, 0), 20);
    assert_eq!(randrng_at(20, 10, ONE), 10);
    assert_eq!(randrng_at(20, 10, HALF), 15);
    assert_eq!(randrng_at(13, 10, HALF), 11);
    assert_eq!(randrng_at(5, 5, HALF), 5);
}

#[test]
fn randrng_at_spans_the_whole_range() {
    assert_eq!(randrng_at(i64::MIN, i64::MAX, 0), i64::MIN);
    assert_eq!(randrng_at(i64::MIN, i64::MAX, ONE), i64::MAX);
    assert_eq!(randrng_at(i64::MAX, i64::MIN, ONE), i64::MIN);
    assert_eq!(randrng_at(i64::MIN, i64::MAX, HALF), -1);
}

#[test]
fn randrng_stays_between_its_ends() {
    for _ in 0..2000 {
        let r = randrng(0, HALF);
        assert!(0 <= r && r < HALF);
        let s = randrng(-7, 9);
        assert!(-7 <= s && s < 9);
        let t = randrng(9, -7);
        assert!(-7 <= t && t <= 9);
    }
    assert_eq!(randrng(4, 4), 4);
}
