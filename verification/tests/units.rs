use flow_layout::damage::RestyleDamage;
use flow_layout::units::{Au, Point2D, Rect, Size2D, Vector2D, MAX_AU, MIN_AU};

fn rect(x: i32, y: i32, width: i32, height: i32) -> Rect {
    Rect { origin: Point2D { x: Au(x), y: Au(y) }, size: Size2D { width: Au(width), height: Au(height) } }
}

#[test]
fn au_new_keeps_values_in_range() {
    assert_eq!(Au::new(7), Au(7));
    assert_eq!(Au::new(-7), Au(-7));
    assert_eq!(Au::new(MAX_AU), Au(MAX_AU));
    assert_eq!(Au::new(MIN_AU), Au(MIN_AU));
    assert_eq!(Au::zero(), Au(0));
}

#[test]
fn au_new_saturates_at_the_bounds() {
    assert_eq!(Au::new(i32::MAX), Au(1073741823));
    assert_eq!(Au::new(i32::MIN), Au(-1073741823));
    assert_eq!(Au::new(MAX_AU + 1), Au(MAX_AU));
    assert_eq!(Au::new(MIN_AU - 1), Au(MIN_AU));
}

#[test]
fn au_range_check() {
    assert!(Au(0).is_in_range());
    assert!(Au(MAX_AU).is_in_range());
    assert!(Au(MIN_AU).is_in_range());
    assert!(!Au(MAX_AU + 1).is_in_range());
    assert!(!Au(i32::MIN).is_in_range());
}

#[test]
fn au_add_is_the_sum() {
    assert_eq!(Au(7).add(Au(5)), Au(12));
    assert_eq!(Au(7).add(Au(-9)), Au(-2));
    assert_eq!(Au(0).add(Au(0)), Au(0));
}

#[test]
fn au_add_saturates() {
    assert_eq!(Au(MAX_AU).add(Au(1)), Au(MAX_AU));
    assert_eq!(Au(MAX_AU).add(Au(MAX_AU)), Au(MAX_AU));
    assert_eq!(Au(MIN_AU).add(Au(-1)), Au(MIN_AU));
}

#[test]
fn au_sub_is_the_difference() {
    assert_eq!(Au(7).sub(Au(5)), Au(2));
    assert_eq!(Au(5).sub(Au(7)), Au(-2));
}

#[test]
fn au_sub_saturates() {
    assert_eq!(Au(MIN_AU).sub(Au(1)), Au(MIN_AU));
    assert_eq!(Au(MAX_AU).sub(Au(MIN_AU)), Au(MAX_AU));
}

#[test]
fn au_min_max_and_floor_at_zero() {
    assert_eq!(Au(3).min_of(Au(9)), Au(3));
    assert_eq!(Au(3).max_of(Au(9)), Au(9));
    assert_eq!(Au(-3).positive_or_zero(), Au(0));
    assert_eq!(Au(3).positive_or_zero(), Au(3));
}

#[test]
fn point_add_vector_adds_each_coordinate() {
    let moved = Point2D { x: Au(10), y: Au(20) }.add_vector(Vector2D { x: Au(1), y: Au(-2) });
    assert_eq!(moved, Point2D { x: Au(11), y: Au(18) });
}

#[test]
fn point_add_vector_saturates() {
    let moved = Point2D { x: Au(MAX_AU), y: Au(MIN_AU) }.add_vector(Vector2D { x: Au(5), y: Au(-5) });
    assert_eq!(moved, Point2D { x: Au(MAX_AU), y: Au(MIN_AU) });
}

#[test]
fn point_constructors() {
    assert_eq!(Point2D::zero(), Point2D { x: Au(0), y: Au(0) });
    assert_eq!(Point2D::new(Au(1), Au(2)), Point2D { x: Au(1), y: Au(2) });
    assert_eq!(Point2D::new(Au(1), Au(2)).to_vector(), Vector2D { x: Au(1), y: Au(2) });
    assert_eq!(Vector2D::zero(), Vector2D::new(Au(0), Au(0)));
    assert_eq!(Size2D::zero(), Size2D::new(Au(0), Au(0)));
    assert_eq!(Rect::zero(), rect(0, 0, 0, 0));
    assert_eq!(Rect::new(Point2D::new(Au(1), Au(2)), Size2D::new(Au(3), Au(4))), rect(1, 2, 3, 4));
}

#[test]
fn rect_translate_moves_the_origin_only() {
    assert_eq!(rect(1, 2, 3, 4).translate(Vector2D { x: Au(10), y: Au(20) }), rect(11, 22, 3, 4));
}

#[test]
fn rect_union_covers_both() {
    assert_eq!(rect(0, 0, 10, 10).union(rect(5, 5, 10, 10)), rect(0, 0, 15, 15));
    assert_eq!(rect(5, 5, 10, 10).union(rect(0, 0, 10, 10)), rect(0, 0, 15, 15));
    assert_eq!(rect(-5, 2, 1, 1).union(rect(10, 0, 2, 1)), rect(-5, 0, 17, 3));
}

#[test]
fn rect_union_ignores_an_empty_rectangle() {
    assert_eq!(rect(0, 0, 10, 10).union(rect(100, 100, 0, 0)), rect(0, 0, 10, 10));
    assert_eq!(rect(3, 3, 0, 5).union(rect(1, 2, 3, 4)), rect(1, 2, 3, 4));
    assert_eq!(rect(3, 3, 0, 5).union(rect(9, 9, 0, 0)), rect(3, 3, 0, 5));
}

#[test]
fn damage_insert_and_remove() {
    let mut damage = RestyleDamage::empty();
    assert!(!damage.intersects(RestyleDamage::all()));
    damage.insert(RestyleDamage::reflow_out_of_flow().union(RestyleDamage::reflow()));
    assert!(damage.contains(RestyleDamage::reflow()));
    assert!(damage.contains(RestyleDamage::reflow_out_of_flow()));
    assert!(!damage.contains(RestyleDamage::store_overflow()));
    assert!(!damage.contains(RestyleDamage::bubble_isizes()));
    damage.remove(RestyleDamage::reflow());
    assert!(!damage.contains(RestyleDamage::reflow()));
    assert!(damage.contains(RestyleDamage::reflow_out_of_flow()));
    assert_eq!(damage, RestyleDamage::reflow_out_of_flow());
}

#[test]
fn damage_contains_asks_for_every_latch() {
    let both = RestyleDamage::reflow().union(RestyleDamage::store_overflow());
    assert!(RestyleDamage::all().contains(both));
    assert!(!RestyleDamage::reflow().contains(both));
    assert!(RestyleDamage::reflow().intersects(both));
    assert!(!RestyleDamage::bubble_isizes().intersects(both));
    assert!(RestyleDamage::empty().contains(RestyleDamage::empty()));
    assert!(!RestyleDamage::all().intersects(RestyleDamage::empty()));
}
