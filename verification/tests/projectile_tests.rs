use squaro::enemy::{Enemy, EnemyType, Shape};
use squaro::projectile::Projectile;
use squaro::rl_interface::RLInterface;
use squaro::state::MainState;

#[test]
fn straight_down_shot_has_exactly_the_configured_speed() {
    let p = Projectile::new(0, 0, 0, 600_000);
    assert_eq!(p.dx, 0);
    assert_eq!(p.dy, 5_000);
}

#[test]
fn projectile_at_its_own_target_does_not_move() {
    let mut p = Projectile::new(5_000, 5_000, 5_000, 5_000);
    assert_eq!(p.dx, 0);
    assert_eq!(p.dy, 0);
    p.update();
    assert_eq!(p.x, 5_000);
    assert_eq!(p.y, 5_000);
}

#[test]
fn velocity_never_exceeds_the_configured_speed() {
    let p = Projectile::new(0, 0, 800_000, 600_000);
    assert!(p.dx.abs() <= 5_000);
    assert!(p.dy.abs() <= 5_000);
    // a diagonal shot splits the speed between the axes
    let q = Projectile::new(0, 0, 600_000, 600_000);
    assert_eq!(q.dx, q.dy);
    assert!(q.dx < 5_000 && q.dx > 3_000);
}

#[test]
fn straight_down_shot_is_removed_exactly_when_it_leaves_the_arena() {
    let mut ms = MainState::new(RLInterface::new());
    ms.projectiles.push(Projectile::new(0, 0, 0, 600_000));
    // after 120 ticks the projectile sits exactly on the bottom edge
    for _ in 0..120 {
        ms.update_projectiles();
        assert_eq!(ms.projectiles.len(), 1, "removed too early");
        assert_eq!(ms.projectiles[0].x, 0);
    }
    assert_eq!(ms.projectiles[0].y, 600_000);
    // the next tick moves it past the edge and removes it
    ms.update_projectiles();
    assert_eq!(ms.projectiles.len(), 0);
}

#[test]
fn fired_projectile_starts_at_the_player_center() {
    let mut ms = MainState::new(RLInterface::new());
    ms.fire_projectile(0, 250_000 + 25_000);
    assert_eq!(ms.projectiles.len(), 1);
    let p = &ms.projectiles[0];
    assert_eq!(p.x, 350_000 + 25_000);
    assert_eq!(p.y, 250_000 + 25_000);
    // aimed straight left
    assert_eq!(p.dx, -5_000);
    assert_eq!(p.dy, 0);
}

#[test]
fn projectile_that_hits_an_enemy_is_destroyed_with_it() {
    let mut ms = MainState::new(RLInterface::new());
    ms.spawner.enemies.push(Enemy {
        x: 100_000,
        y: 100_000,
        shape: Shape::Square,
        enemy_type: EnemyType::Chaser,
        dx: 0,
        dy: 0,
    });
    ms.projectiles.push(Projectile { x: 120_000, y: 120_000, dx: 0, dy: 0 });
    ms.check_projectile_collisions();
    assert_eq!(ms.score, 1);
    assert_eq!(ms.spawner.enemies.len(), 0);
    assert_eq!(ms.projectiles.len(), 0);
}

#[test]
fn projectile_that_misses_flies_on() {
    let mut ms = MainState::new(RLInterface::new());
    ms.spawner.enemies.push(Enemy {
        x: 600_000,
        y: 500_000,
        shape: Shape::Square,
        enemy_type: EnemyType::Chaser,
        dx: 0,
        dy: 0,
    });
    ms.projectiles.push(Projectile { x: 100_000, y: 100_000, dx: 5_000, dy: 0 });
    ms.check_projectile_collisions();
    assert_eq!(ms.score, 0);
    assert_eq!(ms.spawner.enemies.len(), 1);
    assert_eq!(ms.projectiles.len(), 1);
}

#[test]
fn one_projectile_destroys_every_enemy_it_overlaps_but_no_more() {
    let mut ms = MainState::new(RLInterface::new());
    // two enemies under the projectile, one far away
    for (x, y) in [(100_000, 100_000), (110_000, 110_000), (700_000, 500_000)] {
        ms.spawner.enemies.push(Enemy {
            x,
            y,
            shape: Shape::Circle,
            enemy_type: EnemyType::Random,
            dx: 0,
            dy: 0,
        });
    }
    ms.projectiles.push(Projectile { x: 120_000, y: 120_000, dx: 0, dy: 0 });
    ms.check_projectile_collisions();
    assert_eq!(ms.score, 2);
    assert_eq!(ms.spawner.enemies.len(), 1);
    assert_eq!(ms.spawner.enemies[0].x, 700_000);
    assert_eq!(ms.projectiles.len(), 0);
}
