use rpg_game::block::color_interp;
use rpg_game::blocks::block_dirt;
use rpg_game::impl_damage::DamageType;
use rpg_game::player::Player;
use rpg_game::render::{overlaps, rect_with_hole_parts, Rect};
use rpg_game::utils::{Color, IVec2};

#[test]
fn hurt_clamps_at_zero() {
    let mut p = Player::default();
    p.max_health = 100_000;
    p.health = 100_000;
    p.hurt(30_000);
    assert_eq!(p.health, 70_000);
    p.hurt(90_000);
    assert_eq!(p.health, 0);
}

#[test]
fn damage_multiplier_counts_weakness_matches() {
    let mut p = Player::default();
    let physical = vec![DamageType::Physical];
    assert_eq!(p.calculate_damage(1_000, &physical), 1_000);
    assert_eq!(p.calculate_damage(-5, &physical), 0);
    assert_eq!(p.calculate_damage(0, &physical), 0);
    p.weaknesses.push(DamageType::Physical);
    assert_eq!(p.calculate_damage(1_000, &physical), 1_500);
    p.weaknesses.push(DamageType::Physical);
    assert_eq!(p.calculate_damage(1_000, &physical), 2_000);
}

#[test]
fn fall_damage_has_a_threshold() {
    let mut p = Player::default();
    p.max_health = 100_000;
    p.health = 100_000;
    p.velocity.y = 2_999;
    assert_eq!(p.calculate_fall_damage(), 0);
    p.velocity.y = 4_000;
    assert_eq!(p.calculate_fall_damage(), 6_000);
    p.take_fall_damage();
    assert_eq!(p.health, 94_000);
}

#[test]
fn color_interpolation_is_exact() {
    let black = Color::new(0, 0, 0);
    let white = Color::new(255, 255, 255);
    assert_eq!(color_interp(black, white, 0), black);
    assert_eq!(color_interp(black, white, 1_000), white);
    assert_eq!(color_interp(black, white, 500), Color::new(128, 128, 128));
    // Out-of-range fractions clamp.
    assert_eq!(color_interp(black, white, -40), black);
    assert_eq!(color_interp(black, white, 5_000), white);
    // Fading runs toward the second colour, channel by channel.
    let a = Color::new(139, 69, 19);
    let b = Color::new(135, 206, 235);
    assert_eq!(color_interp(a, b, 500), Color::new(137, 138, 127));
}

#[test]
fn render_color_fades_with_lost_health() {
    let full = block_dirt(IVec2::new(0, 0));
    assert_eq!(full.render_color(), full.color);
    let mut worn = block_dirt(IVec2::new(0, 0));
    worn.health = 25_000;
    assert_eq!(worn.render_color(), Color::new(137, 138, 127));
}

#[test]
fn rect_extents_and_area() {
    let r = Rect::new(10, 20, 30, 40);
    assert_eq!(r.max_x(), 40);
    assert_eq!(r.max_y(), 60);
    assert_eq!(r.area(), 1_200);
    assert_eq!(Rect::new(0, 0, -5, 10).area(), 0);
}

#[test]
fn rect_clamp_intersects_and_floors_at_zero() {
    let a = Rect::new(0, 0, 10, 10);
    let b = Rect::new(4, 6, 10, 10);
    let c = a.clamp(b);
    assert_eq!(c, Rect::new(4, 6, 6, 4));
    let far = Rect::new(100, 100, 5, 5);
    let empty = a.clamp(far);
    assert_eq!(empty.w, 0);
    assert_eq!(empty.h, 0);
}

#[test]
fn rect_overlap_is_closed_edged() {
    let a = Rect::new(0, 0, 10, 10);
    assert!(overlaps(a, Rect::new(10, 0, 5, 5)));
    assert!(!overlaps(a, Rect::new(11, 0, 5, 5)));
    assert!(overlaps(a, Rect::new(3, 3, 2, 2)));
}

#[test]
fn hole_decomposition_covers_the_frame() {
    let rect = Rect::new(0, 0, 10, 10);
    let hole = Rect::new(2, 3, 4, 5);
    let parts = rect_with_hole_parts(rect, hole);
    assert_eq!(
        parts,
        vec![
            Rect::new(0, 0, 2, 10),
            Rect::new(6, 0, 4, 10),
            Rect::new(2, 0, 4, 3),
            Rect::new(2, 8, 4, 2),
        ]
    );
    // A disjoint or empty hole leaves the rectangle whole.
    assert_eq!(rect_with_hole_parts(rect, Rect::new(50, 50, 3, 3)), vec![rect]);
    assert_eq!(rect_with_hole_parts(rect, Rect::new(2, 2, 0, 5)), vec![rect]);
}
