use townskeep::geom::{
    boxes_overlap, clamp_to_world, isqrt, minus, negate, plus, toward, turn_quarter, Vec2,
    WORLD_LIMIT,
};
use townskeep::collision::{debug_hitboxes, draw_box, CanHitTeam, HitBoxEvent, Segment};
use townskeep::mouse::{mouse_system, MainCamera, MouseState};

fn v(x: i64, y: i64) -> Vec2 {
    Vec2::new(x, y)
}

#[test]
fn isqrt_exact_and_between_squares() {
    assert_eq!(isqrt(0), 0);
    assert_eq!(isqrt(1), 1);
    assert_eq!(isqrt(15), 3);
    assert_eq!(isqrt(16), 4);
    assert_eq!(isqrt(17), 4);
    assert_eq!(isqrt(2_097_152), 1448);
    assert_eq!(isqrt(u128::MAX), u64::MAX as u128);
}

#[test]
fn toward_scales_a_direction_to_the_speed() {
    assert_eq!(toward(v(3, 4), 5000), v(3000, 4000));
    assert_eq!(toward(v(-3, -4), 5000), v(-3000, -4000));
    assert_eq!(toward(v(0, 100_000), 500_000), v(0, 500_000));
    assert_eq!(toward(v(250, 0), 1500), v(1500, 0));
}

#[test]
fn toward_keeps_diagonals_at_full_speed() {
    assert_eq!(toward(v(1, 1), 6000), v(4243, 4243));
    assert_eq!(toward(v(-1, 1), 6000), v(-4243, 4243));
}

#[test]
fn toward_zero_vector_falls_back_to_positive_x() {
    assert_eq!(toward(v(0, 0), 7000), v(7000, 0));
}

#[test]
fn vector_helpers() {
    assert_eq!(plus(v(1, 2), v(3, -5)), v(4, -3));
    assert_eq!(minus(v(1, 2), v(3, -5)), v(-2, 7));
    assert_eq!(negate(v(1, -2)), v(-1, 2));
    assert_eq!(turn_quarter(v(3, 4)), v(-4, 3));
}

#[test]
fn clamp_keeps_points_on_the_field() {
    assert_eq!(clamp_to_world(v(5, -5)), v(5, -5));
    assert_eq!(clamp_to_world(v(i64::MAX, i64::MIN)), v(WORLD_LIMIT, -WORLD_LIMIT));
}

#[test]
fn overlap_is_symmetric() {
    let a = (v(0, 0), v(30_000, 50_000));
    let b = (v(20_000, 10_000), v(50_000, 90_000));
    assert!(boxes_overlap(a.0, a.1, b.0, b.1));
    assert!(boxes_overlap(b.0, b.1, a.0, a.1));
    let c = (v(100_000, 0), v(10_000, 10_000));
    assert!(!boxes_overlap(a.0, a.1, c.0, c.1));
    assert!(!boxes_overlap(c.0, c.1, a.0, a.1));
}

#[test]
fn overlap_same_centre_and_far_apart() {
    assert!(boxes_overlap(v(7, 7), v(1, 1), v(7, 7), v(1, 1)));
    // Half-extents sum to 40 on x: touching edges do not overlap, closer does.
    assert!(!boxes_overlap(v(0, 0), v(40, 40), v(40, 0), v(40, 40)));
    assert!(boxes_overlap(v(0, 0), v(40, 40), v(39, 0), v(40, 40)));
    assert!(!boxes_overlap(v(0, 0), v(40, 40), v(0, -41), v(40, 40)));
}

#[test]
fn zero_size_boxes_never_overlap() {
    assert!(!boxes_overlap(v(0, 0), v(0, 10), v(0, 0), v(10, 10)));
    assert!(!boxes_overlap(v(0, 0), v(10, 10), v(0, 0), v(10, 0)));
}

#[test]
fn cursor_resolves_to_world_position() {
    let window = v(1_024_000, 720_000);
    let centred = MainCamera { position: v(0, 0) };
    let m = mouse_system(Some(v(512_000, 360_000)), window, &centred);
    assert_eq!(m.world_position, Some(v(0, 0)));
    let moved = MainCamera { position: v(5_000, 0) };
    let m = mouse_system(Some(v(612_000, 300_000)), window, &moved);
    assert_eq!(m.world_position, Some(v(105_000, -60_000)));
    assert_eq!(mouse_system(None, window, &centred).world_position, None);
}

#[test]
fn aim_from_location_to_cursor() {
    let m = MouseState { world_position: Some(v(100_000, 50_000)) };
    assert_eq!(m.angle_from_location_to_mouse(v(40_000, 50_000)), Some(v(60_000, 0)));
    let none = MouseState { world_position: None };
    assert_eq!(none.angle_from_location_to_mouse(v(0, 0)), None);
}

#[test]
fn box_outline_has_four_edges() {
    let mut lines = Vec::new();
    draw_box(&mut lines, v(100, 50), v(60, 20));
    assert_eq!(
        lines,
        vec![
            Segment { from: v(70, 40), to: v(130, 40) },
            Segment { from: v(130, 40), to: v(130, 60) },
            Segment { from: v(70, 40), to: v(70, 60) },
            Segment { from: v(70, 60), to: v(130, 60) },
        ]
    );
}

#[test]
fn hitbox_outlines_follow_event_order() {
    let e = |x: i64| HitBoxEvent {
        position: v(x, 0),
        size: v(10, 10),
        damage: 1,
        knockback: 0,
        can_hit: CanHitTeam::Enemy,
    };
    let lines = debug_hitboxes(&vec![e(0), e(100)]);
    assert_eq!(lines.len(), 8);
    assert_eq!(lines[0], Segment { from: v(-5, -5), to: v(5, -5) });
    assert_eq!(lines[4], Segment { from: v(95, -5), to: v(105, -5) });
}
