use snek::direction::Direction;
use snek::game::{Game, GameSettings, GameState, APPLE_DRAWS};
use snek::input::Key;
use snek::snake::{Snek, SnekSeg};

fn settings(width: u8, height: u8, updates_per_move: u8) -> GameSettings {
    GameSettings { game_size: (width, height), updates_per_move, tile_size: 20 }
}

fn snake(tiles: &[(u8, u8)], dir: Direction, updates_per_move: u8) -> Snek {
    let body: Vec<SnekSeg> = tiles.iter().map(|t| SnekSeg(t.0, t.1)).collect();
    Snek::from_parts(body, dir, dir, 0, updates_per_move).unwrap()
}

fn running(width: u8, height: u8, tiles: &[(u8, u8)], dir: Direction, apple: (u8, u8)) -> Game {
    Game::from_parts(settings(width, height, 1), snake(tiles, dir, 1), Some(apple), GameState::Running)
        .unwrap()
}

fn tiles(game: &Game) -> Vec<(u8, u8)> {
    game.snek().segments().iter().map(|s| s.into()).collect()
}

#[test]
fn new_game_is_paused_without_an_apple() {
    let game = Game::new(settings(45, 30, 10));
    assert_eq!(GameState::Paused, game.state());
    assert_eq!(None, game.apple_pos());
    assert_eq!((45, 30), game.game_size());
    assert_eq!(20, game.tile_size());
    assert_eq!(10, game.updates_per_move());
    assert_eq!(10, game.snek().updates_per_move());
    assert_eq!(vec![(0, 0)], tiles(&game));
    assert_eq!(1, game.score());
}

#[test]
fn space_toggles_between_paused_and_running() {
    let mut game = Game::new(settings(10, 10, 1));
    game.keypress(Key::Space, true);
    assert_eq!(GameState::Running, game.state());
    game.keypress(Key::Space, true);
    assert_eq!(GameState::Paused, game.state());
}

#[test]
fn key_release_is_ignored() {
    let mut game = Game::new(settings(10, 10, 1));
    game.keypress(Key::Space, false);
    assert_eq!(GameState::Paused, game.state());
    game.keypress(Key::Down, false);
    assert_eq!(Direction::Right, game.snek().next_dir());
    game.keypress(Key::R, false);
    assert_eq!(None, game.apple_pos());
}

#[test]
fn other_keys_change_nothing() {
    let mut game = running(10, 10, &[(3, 3), (2, 3)], Direction::Right, (7, 7));
    game.keypress(Key::Other, true);
    assert_eq!(GameState::Running, game.state());
    assert_eq!(Direction::Right, game.snek().next_dir());
    assert_eq!(Some((7, 7)), game.apple_pos());
    assert_eq!(vec![(3, 3), (2, 3)], tiles(&game));
}

#[test]
fn paused_game_does_not_move() {
    let mut game = Game::new(settings(10, 10, 1));
    for _ in 0..5 {
        game.update();
    }
    assert_eq!(vec![(0, 0)], tiles(&game));
    assert_eq!(None, game.apple_pos());
    assert_eq!(0, game.snek().move_counter());
}

#[test]
fn reversal_key_leaves_the_pending_heading() {
    let mut game = Game::new(settings(10, 10, 1));
    game.keypress(Key::Left, true);
    assert_eq!(Direction::Right, game.snek().next_dir());
    game.keypress(Key::A, true);
    assert_eq!(Direction::Right, game.snek().next_dir());
    assert_eq!(Direction::Right, game.snek().dir());
}

#[test]
fn turn_key_sets_the_pending_heading() {
    let mut game = Game::new(settings(10, 10, 1));
    game.keypress(Key::Up, true);
    assert_eq!(Direction::Up, game.snek().next_dir());
    assert_eq!(Direction::Right, game.snek().dir());
    game.keypress(Key::S, true);
    assert_eq!(Direction::Down, game.snek().next_dir());
    game.keypress(Key::D, true);
    assert_eq!(Direction::Right, game.snek().next_dir());
}

#[test]
fn reversal_is_judged_by_the_committed_heading() {
    let mut game = Game::new(settings(10, 10, 5));
    game.keypress(Key::Up, true);
    game.keypress(Key::Down, true);
    assert_eq!(Direction::Down, game.snek().next_dir());
    game.keypress(Key::Left, true);
    assert_eq!(Direction::Down, game.snek().next_dir());
}

#[test]
fn every_heading_refuses_only_its_opposite() {
    let keys = [(Key::W, Direction::Up), (Key::A, Direction::Left), (Key::S, Direction::Down), (Key::D, Direction::Right)];
    for heading in [Direction::Up, Direction::Down, Direction::Left, Direction::Right] {
        for (key, asked) in keys {
            let mut game = running(10, 10, &[(5, 5)], heading, (0, 0));
            game.keypress(key, true);
            let expected = if asked == heading.opposite() { heading } else { asked };
            assert_eq!(expected, game.snek().next_dir());
        }
    }
}

#[test]
fn running_game_moves_the_snake() {
    let mut game = running(10, 10, &[(3, 3), (2, 3)], Direction::Right, (7, 7));
    game.update();
    assert_eq!(vec![(4, 3), (3, 3)], tiles(&game));
    assert_eq!(Some((7, 7)), game.apple_pos());
    assert_eq!(GameState::Running, game.state());
    assert_eq!(2, game.score());
}

#[test]
fn eaten_apple_is_gone_until_the_next_update() {
    let mut game = running(10, 10, &[(3, 3), (2, 3)], Direction::Right, (4, 3));
    game.update();
    assert_eq!(vec![(4, 3), (3, 3), (2, 3)], tiles(&game));
    assert_eq!(3, game.score());
    assert_eq!(None, game.apple_pos());
    assert_eq!(GameState::Running, game.state());
    let before = tiles(&game);
    game.update();
    let apple = game.apple_pos();
    if let Some(a) = apple {
        assert!(a.0 < 10 && a.1 < 10);
        assert!(!before.contains(&a));
    } else {
        assert_eq!(4, game.score());
    }
}

#[test]
fn collision_loses_the_game() {
    let mut game = running(10, 10, &[(1, 1), (2, 1), (2, 2), (1, 2), (0, 2)], Direction::Down, (7, 7));
    game.update();
    assert_eq!(GameState::Lost, game.state());
    assert_eq!(Some((7, 7)), game.apple_pos());
}

#[test]
fn collision_wins_over_eating() {
    let mut game = running(10, 10, &[(1, 1), (2, 1), (2, 2), (1, 2)], Direction::Down, (1, 2));
    game.update();
    assert_eq!(GameState::Lost, game.state());
    assert_eq!(Some((1, 2)), game.apple_pos());
    assert_eq!(5, game.score());
}

#[test]
fn lost_game_stays_as_it_is() {
    let mut game = running(10, 10, &[(1, 1), (2, 1), (2, 2), (1, 2), (0, 2)], Direction::Down, (7, 7));
    game.update();
    assert_eq!(GameState::Lost, game.state());
    let body = tiles(&game);
    for _ in 0..10 {
        game.update();
        assert_eq!(GameState::Lost, game.state());
        assert_eq!(body, tiles(&game));
        assert_eq!(Some((7, 7)), game.apple_pos());
    }
    for key in [Key::Space, Key::W, Key::A, Key::S, Key::D, Key::Up, Key::Left, Key::Down, Key::Right, Key::Other] {
        game.keypress(key, true);
        assert_eq!(GameState::Lost, game.state());
        assert_eq!(body, tiles(&game));
    }
}

#[test]
fn restart_key_leads_out_of_a_lost_game() {
    let mut game = running(10, 10, &[(1, 1), (2, 1), (2, 2), (1, 2), (0, 2)], Direction::Down, (7, 7));
    game.update();
    assert_eq!(GameState::Lost, game.state());
    game.keypress(Key::R, true);
    assert_eq!(GameState::Paused, game.state());
    assert_eq!(vec![(0, 0)], tiles(&game));
    assert_eq!(Direction::Right, game.snek().dir());
    assert_eq!(Direction::Right, game.snek().next_dir());
    assert_eq!(0, game.snek().move_counter());
    let apple = game.apple_pos().unwrap();
    assert!(apple.0 < 10 && apple.1 < 10);
    assert_ne!((0, 0), apple);
}

#[test]
fn restart_key_pauses_a_running_game() {
    let mut game = running(10, 10, &[(3, 3), (2, 3)], Direction::Up, (7, 7));
    game.keypress(Key::R, true);
    assert_eq!(GameState::Paused, game.state());
    assert_eq!(1, game.score());
    assert_eq!((10, 10), game.game_size());
    assert_eq!(1, game.updates_per_move());
}

#[test]
fn first_running_update_places_an_apple() {
    let mut game = Game::new(settings(6, 4, 3));
    game.keypress(Key::Space, true);
    game.update();
    let apple = game.apple_pos().unwrap();
    assert!(apple.0 < 6 && apple.1 < 4);
    assert_ne!((0, 0), apple);
    assert_eq!(1, game.snek().move_counter());
    assert_eq!(vec![(0, 0)], tiles(&game));
}

#[test]
fn apple_is_never_placed_on_the_snake() {
    let body: Vec<(u8, u8)> = (0u8..7).map(|x| (6 - x, 0)).chain((0u8..8).map(|x| (x, 1))).collect();
    let mut game =
        Game::from_parts(settings(8, 2, 1), snake(&body, Direction::Right, 1), None, GameState::Paused)
            .unwrap();
    for _ in 0..200 {
        game.randomize_apple();
        assert_eq!(Some((7, 0)), game.apple_pos());
        assert!(!game.snek().check_collides(game.apple_pos().unwrap()));
    }
    assert_eq!(body, tiles(&game));
    assert_eq!(GameState::Paused, game.state());
}

#[test]
fn apple_lands_on_the_board_on_a_narrow_board() {
    let mut game = Game::new(settings(1, 9, 1));
    let mut seen = [false; 9];
    for _ in 0..500 {
        game.randomize_apple();
        let apple = game.apple_pos().unwrap();
        assert_eq!(0, apple.0);
        assert!(apple.1 >= 1 && apple.1 < 9);
        seen[apple.1 as usize] = true;
    }
    assert!(!seen[0]);
    assert!(seen[1..].iter().all(|s| *s));
}

#[test]
fn full_board_is_left_without_an_apple() {
    let mut game = Game::new(settings(1, 1, 1));
    game.randomize_apple();
    assert_eq!(None, game.apple_pos());
    game.keypress(Key::Space, true);
    game.update();
    assert_eq!(GameState::Running, game.state());
    assert_eq!(None, game.apple_pos());
    assert_eq!(vec![(0, 0)], tiles(&game));
    assert_eq!(0, game.snek().move_counter());
    assert!(APPLE_DRAWS >= 1_000_000);
}

#[test]
fn place_apple_takes_a_free_tile_only() {
    let mut game = running(10, 5, &[(3, 3), (2, 3)], Direction::Right, (7, 4));
    assert!(!game.place_apple((3, 3)));
    assert!(!game.place_apple((2, 3)));
    assert!(!game.place_apple((10, 0)));
    assert!(!game.place_apple((0, 5)));
    assert_eq!(Some((7, 4)), game.apple_pos());
    assert!(game.place_apple((4, 3)));
    assert_eq!(Some((4, 3)), game.apple_pos());
    assert!(game.place_apple((9, 4)));
    assert_eq!(Some((9, 4)), game.apple_pos());
}

#[test]
fn game_wraps_round_the_board() {
    let mut game = running(5, 4, &[(0, 0)], Direction::Left, (2, 2));
    game.update();
    assert_eq!(vec![(4, 0)], tiles(&game));
    game.keypress(Key::Up, true);
    game.update();
    assert_eq!(vec![(4, 3)], tiles(&game));
    game.keypress(Key::Right, true);
    game.update();
    assert_eq!(vec![(0, 3)], tiles(&game));
    game.keypress(Key::Down, true);
    game.update();
    assert_eq!(vec![(0, 0)], tiles(&game));
}

#[test]
fn from_parts_refuses_what_does_not_fit() {
    let s = |tiles: &[(u8, u8)]| snake(tiles, Direction::Right, 1);
    assert!(Game::from_parts(settings(0, 5, 1), s(&[(0, 0)]), None, GameState::Paused).is_none());
    assert!(Game::from_parts(settings(5, 0, 1), s(&[(0, 0)]), None, GameState::Paused).is_none());
    assert!(Game::from_parts(settings(5, 5, 1), s(&[(5, 0)]), None, GameState::Paused).is_none());
    assert!(Game::from_parts(settings(5, 5, 1), s(&[(0, 0), (0, 5)]), None, GameState::Paused).is_none());
    assert!(Game::from_parts(settings(5, 5, 1), s(&[(0, 0)]), Some((5, 0)), GameState::Paused).is_none());
    assert!(Game::from_parts(settings(5, 5, 2), s(&[(0, 0)]), None, GameState::Paused).is_none());
    assert!(Game::from_parts(settings(5, 5, 1), s(&[(0, 0)]), Some((4, 4)), GameState::Lost).is_some());
}

#[test]
fn speed_is_set_by_updates_per_move() {
    let mut game = Game::from_parts(
        settings(10, 10, 4),
        snake(&[(0, 0)], Direction::Right, 4),
        Some((9, 9)),
        GameState::Running,
    )
    .unwrap();
    for n in 1u16..=12 {
        game.update();
        assert_eq!(vec![((n / 4) as u8, 0)], tiles(&game));
    }
}
