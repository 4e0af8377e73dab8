use squaro::enemy::{Enemy, EnemyType, Shape, Spawner};
use squaro::geom::Rect;

fn dist2(x1: i64, y1: i64, x2: i64, y2: i64) -> i64 {
    (x1 - x2) * (x1 - x2) + (y1 - y2) * (y1 - y2)
}

fn chaser_at(x: i64, y: i64) -> Enemy {
    Enemy { x, y, shape: Shape::Square, enemy_type: EnemyType::Chaser, dx: 0, dy: 0 }
}

#[test]
fn chaser_steps_one_pixel_toward_player() {
    let mut e = chaser_at(0, 0);
    e.update(100_000, 0);
    // one pixel straight toward the player
    assert_eq!(e.x, 1_000);
    assert_eq!(e.y, 0);
}

#[test]
fn chaser_distance_strictly_decreases_until_adjacent() {
    let mut e = chaser_at(10_000, 20_000);
    let px = 600_000;
    let py = 400_000;
    let mut d2 = dist2(e.x, e.y, px, py);
    for _ in 0..200 {
        e.update(px, py);
        let nd2 = dist2(e.x, e.y, px, py);
        if d2 >= 1_000 * 1_000 {
            assert!(nd2 < d2, "chaser failed to close in");
        }
        d2 = nd2;
    }
}

#[test]
fn chaser_on_player_stays_put() {
    let mut e = chaser_at(300_000, 200_000);
    e.update(300_000, 200_000);
    assert_eq!(e.x, 300_000);
    assert_eq!(e.y, 200_000);
}

#[test]
fn random_enemy_reverses_velocity_exactly_at_edges() {
    let mut e =
        Enemy { x: 749_500, y: 100_000, shape: Shape::Circle, enemy_type: EnemyType::Random, dx: 1_000, dy: 500 };
    e.update(0, 0);
    // x moved to 750_500, which reaches the edge: reversed and clamped
    assert_eq!(e.dx, -1_000);
    assert_eq!(e.x, 750_000);
    // y moved to 100_500, far from any edge: kept
    assert_eq!(e.dy, 500);
    assert_eq!(e.y, 100_500);
}

#[test]
fn random_enemy_keeps_velocity_in_the_interior() {
    let mut e =
        Enemy { x: 300_000, y: 200_000, shape: Shape::Circle, enemy_type: EnemyType::Random, dx: -700, dy: 900 };
    e.update(0, 0);
    assert_eq!(e.dx, -700);
    assert_eq!(e.dy, 900);
    assert_eq!(e.x, 299_300);
    assert_eq!(e.y, 200_900);
}

#[test]
fn avoider_stays_put_beyond_proximity_radius() {
    let mut e =
        Enemy { x: 500_000, y: 300_000, shape: Shape::Triangle, enemy_type: EnemyType::Avoider, dx: 0, dy: 0 };
    // player 200 pixels away: outside the 100-pixel radius
    e.update(300_000, 300_000);
    assert_eq!(e.x, 500_000);
    assert_eq!(e.y, 300_000);
}

#[test]
fn avoider_backs_away_within_proximity_radius() {
    let mut e =
        Enemy { x: 350_000, y: 300_000, shape: Shape::Triangle, enemy_type: EnemyType::Avoider, dx: 0, dy: 0 };
    // player 50 pixels to the left: inside the radius, back away right
    e.update(300_000, 300_000);
    assert_eq!(e.x, 351_000);
    assert_eq!(e.y, 300_000);
}

#[test]
fn avoider_exactly_on_player_stays_put() {
    let mut e =
        Enemy { x: 300_000, y: 300_000, shape: Shape::Triangle, enemy_type: EnemyType::Avoider, dx: 0, dy: 0 };
    e.update(300_000, 300_000);
    assert_eq!(e.x, 300_000);
    assert_eq!(e.y, 300_000);
}

#[test]
fn spawn_tops_up_to_five_inside_the_arena() {
    let mut sp = Spawner::new();
    sp.spawn();
    assert_eq!(sp.enemies.len(), 5);
    for e in &sp.enemies {
        assert!(0 <= e.x && e.x < 750_000);
        assert!(0 <= e.y && e.y < 550_000);
        assert!(-2_000 <= e.dx && e.dx < 2_000);
        assert!(-2_000 <= e.dy && e.dy < 2_000);
        let expected = match e.shape {
            Shape::Square => EnemyType::Chaser,
            Shape::Circle => EnemyType::Random,
            Shape::Triangle => EnemyType::Avoider,
        };
        assert_eq!(e.enemy_type, expected);
    }
}

#[test]
fn spawn_is_a_noop_at_or_above_target() {
    let mut sp = Spawner::new();
    sp.spawn();
    let before: Vec<(i64, i64)> = sp.enemies.iter().map(|e| (e.x, e.y)).collect();
    sp.spawn();
    assert_eq!(sp.enemies.len(), 5);
    let after: Vec<(i64, i64)> = sp.enemies.iter().map(|e| (e.x, e.y)).collect();
    assert_eq!(before, after);
}

#[test]
fn exactly_overlapping_enemy_is_removed_and_scores_one() {
    let mut sp = Spawner::new();
    sp.enemies.push(chaser_at(100_000, 100_000));
    let player = Rect::new(100_000, 100_000, 50_000, 50_000);
    let mut score: i64 = 0;
    sp.check_collisions(&player, &mut score);
    assert_eq!(score, 1);
    assert_eq!(sp.enemies.len(), 0);
}

#[test]
fn non_overlapping_enemies_are_never_removed() {
    let mut sp = Spawner::new();
    sp.enemies.push(chaser_at(400_000, 300_000));
    sp.enemies.push(chaser_at(0, 0));
    let player = Rect::new(100_000, 100_000, 50_000, 50_000);
    let mut score: i64 = 0;
    sp.check_collisions(&player, &mut score);
    assert_eq!(score, 0);
    assert_eq!(sp.enemies.len(), 2);
}

#[test]
fn touching_rectangles_count_as_overlapping() {
    let mut sp = Spawner::new();
    // enemy exactly at the right edge of the player square
    sp.enemies.push(chaser_at(150_000, 100_000));
    let player = Rect::new(100_000, 100_000, 50_000, 50_000);
    let mut score: i64 = 0;
    sp.check_collisions(&player, &mut score);
    assert_eq!(score, 1);
    assert_eq!(sp.enemies.len(), 0);
}

#[test]
fn update_enemies_moves_each_by_its_behavior() {
    let mut sp = Spawner::new();
    sp.enemies.push(chaser_at(0, 0));
    sp.enemies.push(Enemy {
        x: 500_000,
        y: 300_000,
        shape: Shape::Triangle,
        enemy_type: EnemyType::Avoider,
        dx: 0,
        dy: 0,
    });
    sp.update_enemies(100_000, 0);
    assert_eq!(sp.enemies[0].x, 1_000);
    assert_eq!(sp.enemies[0].y, 0);
    // avoider far from the player: unmoved
    assert_eq!(sp.enemies[1].x, 500_000);
    assert_eq!(sp.enemies[1].y, 300_000);
}
