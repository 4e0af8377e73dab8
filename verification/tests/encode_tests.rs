use squaro::comm::GameState;
use squaro::encode::{action_to_string, parse_action};
use squaro::enemy::{Enemy, EnemyType, Shape};
use squaro::qlearn::Action;
use squaro::rl_interface::RLInterface;
use squaro::state::MainState;

#[test]
fn action_tokens_round_trip() {
    for a in [Action::Up, Action::Down, Action::Left, Action::Right] {
        let s = action_to_string(a);
        assert_eq!(parse_action(s.as_str()), Some(a));
    }
    assert_eq!(action_to_string(Action::Up), "up");
    assert_eq!(action_to_string(Action::Down), "down");
    assert_eq!(action_to_string(Action::Left), "left");
    assert_eq!(action_to_string(Action::Right), "right");
}

#[test]
fn unrecognized_tokens_parse_to_none() {
    assert_eq!(parse_action("jump"), None);
    assert_eq!(parse_action(""), None);
    assert_eq!(parse_action("Up"), None);
    assert_eq!(parse_action("up "), None);
}

#[test]
fn state_string_of_a_fresh_session() {
    let ms = MainState::new(RLInterface::new());
    assert_eq!(
        ms.get_state(),
        "{\"player_x\": 350, \"player_y\": 250, \"score\": 0, \"enemies\": []}"
    );
}

#[test]
fn state_string_lists_enemies_with_relative_offsets_and_distance() {
    let mut ms = MainState::new(RLInterface::new());
    ms.score = 2;
    ms.spawner.enemies.push(Enemy {
        x: ms.pos_x + 3_000,
        y: ms.pos_y + 4_000,
        shape: Shape::Square,
        enemy_type: EnemyType::Chaser,
        dx: 0,
        dy: 0,
    });
    ms.spawner.enemies.push(Enemy {
        x: ms.pos_x - 3_000,
        y: ms.pos_y - 4_000,
        shape: Shape::Triangle,
        enemy_type: EnemyType::Avoider,
        dx: 0,
        dy: 0,
    });
    assert_eq!(
        ms.get_state(),
        "{\"player_x\": 350, \"player_y\": 250, \"score\": 2, \"enemies\": [\
         {\"x\": 3, \"y\": 4, \"type\": \"square\", \"distance\": 5}, \
         {\"x\": -3, \"y\": -4, \"type\": \"triangle\", \"distance\": 5}]}"
    );
}

#[test]
fn wire_frame_of_a_snapshot() {
    let enemies = vec![Enemy {
        x: 10_500,
        y: 20_900,
        shape: Shape::Circle,
        enemy_type: EnemyType::Random,
        dx: 100,
        dy: -100,
    }];
    let g = GameState::from_arena(350_000, 250_000, &enemies);
    assert_eq!(g.player_x, 350);
    assert_eq!(g.player_y, 250);
    assert_eq!(g.enemies.len(), 1);
    assert_eq!(
        g.to_json(),
        "{\"player_x\":350,\"player_y\":250,\"enemies\":[\
         {\"x\":10,\"y\":20,\"shape\":\"circle\",\"enemy_type\":\"random\"}]}"
    );
}

#[test]
fn wire_frame_with_no_enemies() {
    let enemies: Vec<Enemy> = vec![];
    let g = GameState::from_arena(0, 0, &enemies);
    assert_eq!(g.to_json(), "{\"player_x\":0,\"player_y\":0,\"enemies\":[]}");
}
