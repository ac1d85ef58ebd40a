use flappy_ferris::asset::LoadEvent;
use flappy_ferris::asset::Polled;
use flappy_ferris::enemy::Pipe;
use flappy_ferris::enemy::PIPE_HEIGHT;
use flappy_ferris::enemy::PIPE_WIDTH;
use flappy_ferris::geom::Rectangle;
use flappy_ferris::geom::Vector;
use flappy_ferris::geom::HALF;
use flappy_ferris::geom::ONE;
use flappy_ferris::object::ButtonState;
use flappy_ferris::object::DrawCall;
use flappy_ferris::object::Event;
use flappy_ferris::object::Frame;
use flappy_ferris::object::GameError;
use flappy_ferris::object::GameObject;
use flappy_ferris::object::ImageHandle;
use flappy_ferris::object::MouseButton;
use flappy_ferris::object::SCREEN_HEIGHT;
use flappy_ferris::object::SCREEN_WIDTH;
use flappy_ferris::player::Player;
use flappy_ferris::scene::game::is_spawn_due;
use flappy_ferris::scene::game::Game;
use flappy_ferris::scene::game::GRAVITY;
use flappy_ferris::scene::game::IMPULSE;
use flappy_ferris::scene::system::System;

fn px(x: i32, y: i32) -> Vector {
    Vector::from_pixels(x, y)
}

fn frame_at(fps: i64) -> Frame {
    Frame { screen_size: px(288, 382), average_fps: fps * ONE }
}

fn ready(name: &str, id: u64) -> LoadEvent {
    LoadEvent { name: name.to_string(), polled: Polled::Ready(ImageHandle { id }) }
}

fn pipe_at(x: i32, y: i32) -> Pipe {
    Pipe { pos: px(x, y), size: px(26, 135) }
}

#[test]
fn a_new_game_waits_for_both_images() {
    let game = Game::new().unwrap();
    assert_eq!(game.player, Player::new(px(40, 20), px(60, 40)));
    assert_eq!(game.bg.pos, Vector::new(0, 0));
    assert_eq!(game.bg.size, Vector::new(SCREEN_WIDTH, SCREEN_HEIGHT));
    assert_eq!(game.bg.screen_size, Vector::new(0, 0));
    assert!(game.enemies.is_empty());
    assert_eq!(game.last_spawned, 0);
    assert_eq!(game.frame_count, 0);
    assert!(!game.asset_loader.loaded());
    assert_eq!(game.asset_loader.get("sprite.png"), None);
    assert_eq!(game.asset_loader.get("ferris.png"), None);
    assert_eq!(
        game.asset_loader.pending(),
        vec!["sprite.png".to_string(), "ferris.png".to_string()]
    );
}

#[test]
fn the_screen_is_288_by_382_pixels() {
    assert_eq!(SCREEN_WIDTH, 288 * ONE);
    assert_eq!(SCREEN_HEIGHT, 382 * ONE);
    assert_eq!(GRAVITY, 2 * ONE);
    assert_eq!(IMPULSE, 64 * ONE);
}

#[test]
fn a_pipe_is_due_after_three_seconds_of_frames() {
    assert!(!is_spawn_due(179, 60 * ONE));
    assert!(is_spawn_due(180, 60 * ONE));
    assert!(is_spawn_due(181, 60 * ONE));
    assert!(!is_spawn_due(89, 30 * ONE));
    assert!(is_spawn_due(90, 30 * ONE));
    assert!(!is_spawn_due(1, 60 * ONE));
    assert!(is_spawn_due(2, HALF));
    assert!(!is_spawn_due(1, HALF));
    assert!(is_spawn_due(4, ONE + ONE / 3));
    assert!(!is_spawn_due(3, ONE + ONE / 3));
}

#[test]
fn a_pipe_is_due_at_once_when_no_frame_rate_is_known() {
    assert!(is_spawn_due(1, 0));
    assert!(!is_spawn_due(0, 0));
    assert!(!is_spawn_due(0, 60 * ONE));
    assert!(!is_spawn_due(1000, -ONE));
    assert!(!is_spawn_due(u64::MAX, i64::MIN));
    assert!(is_spawn_due(u64::MAX, i64::MAX));
}

#[test]
fn one_frame_moves_everything_once() {
    let mut game = Game::new().unwrap();
    game.enemies.push(pipe_at(200, 100));
    let frame = frame_at(60);
    assert!(game.can_update(&frame));
    assert_eq!(game.update(&frame, &vec![]), Ok(()));
    assert_eq!(game.frame_count, 1);
    assert_eq!(game.last_spawned, 0);
    assert_eq!(game.player.pos, px(40, 22));
    assert_eq!(game.bg.screen_size, px(288, 382));
    assert_eq!(game.bg.pos, Vector::new(-HALF, 0));
    assert_eq!(game.enemies, vec![Pipe { pos: Vector::new(200 * ONE - HALF, 100 * ONE), size: px(26, 135) }]);
}

#[test]
fn the_player_falls_two_pixels_a_frame_without_end() {
    let mut game = Game::new().unwrap();
    let frame = frame_at(1_000_000);
    for n in 1..=500 {
        assert_eq!(game.update(&frame, &vec![]), Ok(()));
        assert_eq!(game.player.pos, px(40, 20 + 2 * n));
    }
}

#[test]
fn pipes_appear_every_three_seconds_one_at_a_time() {
    let mut game = Game::new().unwrap();
    let frame = frame_at(60);
    let mut spawned_at = vec![];
    for n in 1..=1000u64 {
        let before = game.enemies.len();
        assert_eq!(game.update(&frame, &vec![]), Ok(()));
        assert_eq!(game.frame_count, n);
        assert!(game.enemies.len() == before || game.enemies.len() == before + 1);
        if game.enemies.len() == before + 1 {
            spawned_at.push(n);
            assert_eq!(game.last_spawned, n);
        }
        assert!(game.enemies.len() as u64 * 3 * 60 <= game.frame_count);
    }
    assert_eq!(spawned_at, vec![180, 360, 540, 720, 900]);
    assert_eq!(game.last_spawned, 900);
}

#[test]
fn pipes_follow_the_frame_rate() {
    let mut game = Game::new().unwrap();
    let frame = frame_at(30);
    for _ in 0..89 {
        assert_eq!(game.update(&frame, &vec![]), Ok(()));
    }
    assert!(game.enemies.is_empty());
    assert_eq!(game.update(&frame, &vec![]), Ok(()));
    assert_eq!(game.enemies.len(), 1);
    assert_eq!(game.last_spawned, 90);
    let slow = frame_at(1);
    assert_eq!(game.update(&slow, &vec![]), Ok(()));
    assert_eq!(game.update(&slow, &vec![]), Ok(()));
    assert_eq!(game.enemies.len(), 1);
    assert_eq!(game.update(&slow, &vec![]), Ok(()));
    assert_eq!(game.enemies.len(), 2);
    assert_eq!(game.last_spawned, 93);
}

#[test]
fn a_new_pipe_stands_at_the_right_edge_raised_by_less_than_half() {
    for _ in 0..50 {
        let mut game = Game::new().unwrap();
        let frame = Frame { screen_size: px(288, 382), average_fps: 0 };
        assert_eq!(game.update(&frame, &vec![]), Ok(()));
        assert_eq!(game.enemies.len(), 1);
        let pipe = game.enemies[0];
        assert_eq!(pipe.pos.x, 288 * ONE);
        assert_eq!(pipe.size, Vector::new(PIPE_WIDTH, PIPE_HEIGHT));
        assert!(pipe.pos.y <= 0);
        assert!(pipe.pos.y > -(PIPE_HEIGHT / 2));
    }
}

#[test]
fn spawn_adds_one_pipe_and_touches_nothing_else() {
    let mut game = Game::new().unwrap();
    let frame = frame_at(60);
    game.spawn(&frame);
    game.spawn(&frame);
    assert_eq!(game.enemies.len(), 2);
    assert_eq!(game.frame_count, 0);
    assert_eq!(game.last_spawned, 0);
    assert_eq!(game.player.pos, px(40, 20));
    for pipe in game.enemies.iter() {
        assert_eq!(pipe.pos.x, 288 * ONE);
        assert!(-(PIPE_HEIGHT / 2) < pipe.pos.y && pipe.pos.y <= 0);
    }
}

#[test]
fn update_with_raises_the_pipe_by_the_given_fraction() {
    let mut game = Game::new().unwrap();
    let frame = Frame { screen_size: px(300, 382), average_fps: 0 };
    assert_eq!(game.update_with(&frame, &vec![], ONE / 4), Ok(()));
    assert_eq!(
        game.enemies,
        vec![Pipe {
            pos: Vector::new(300 * ONE, -3317760),
            size: Vector::new(PIPE_WIDTH, PIPE_HEIGHT)
        }]
    );
    assert_eq!(game.update_with(&frame, &vec![], 0), Ok(()));
    assert_eq!(game.enemies.len(), 2);
    assert_eq!(game.enemies[0].pos, Vector::new(300 * ONE - HALF, -3317760));
    assert_eq!(game.enemies[1].pos, Vector::new(300 * ONE, 0));
    assert_eq!(game.last_spawned, 2);
}

#[test]
fn a_pipe_apart_from_the_player_leaves_it_alone() {
    let mut game = Game::new().unwrap();
    game.enemies.push(pipe_at(301, 0));
    assert_eq!(game.enemies[0].area(), Rectangle::new(px(301, 0), px(26, 135)));
    game.check_collision();
    assert_eq!(game.player.pos, px(40, 20));
    assert_eq!(game.player.size, px(60, 40));
    assert_eq!(game.enemies, vec![pipe_at(301, 0)]);
}

#[test]
fn a_pipe_over_the_player_takes_it_out_of_play() {
    let mut game = Game::new().unwrap();
    game.enemies.push(pipe_at(301, 0));
    game.enemies[0].pos = px(40, 20);
    game.enemies[0].size = px(26, 40);
    game.check_collision();
    assert_eq!(game.player.pos, px(9999, 9999));
    assert_eq!(game.player.size, px(60, 40));
    assert_eq!(game.enemies, vec![Pipe { pos: px(40, 20), size: px(26, 40) }]);
    assert_eq!(game.frame_count, 0);
}

#[test]
fn any_one_pipe_is_enough() {
    let mut game = Game::new().unwrap();
    game.enemies.push(pipe_at(301, 0));
    game.enemies.push(pipe_at(99, 59));
    game.enemies.push(pipe_at(500, 0));
    game.check_collision();
    assert_eq!(game.player.pos, px(9999, 9999));
    assert_eq!(game.enemies, vec![pipe_at(301, 0), pipe_at(99, 59), pipe_at(500, 0)]);
}

#[test]
fn pipes_that_only_touch_the_player_leave_it_alone() {
    let mut game = Game::new().unwrap();
    game.enemies.push(pipe_at(100, 20));
    game.enemies.push(pipe_at(14, 20));
    game.enemies.push(pipe_at(40, 60));
    game.enemies.push(pipe_at(40, -115));
    game.check_collision();
    assert_eq!(game.player.pos, px(40, 20));
}

#[test]
fn a_player_out_of_play_stays_out_of_play() {
    let mut game = Game::new().unwrap();
    game.enemies.push(pipe_at(40, 20));
    game.check_collision();
    game.enemies[0].pos = px(301, 0);
    game.check_collision();
    assert_eq!(game.player.pos, px(9999, 9999));
}

#[test]
fn a_player_around_the_origin_runs_into_the_background() {
    let mut game = Game::new().unwrap();
    game.player.pos = px(-10, -10);
    game.check_collision();
    assert_eq!(game.player.pos, px(9999, 9999));
    let mut game = Game::new().unwrap();
    game.player.pos = px(0, -10);
    game.check_collision();
    assert_eq!(game.player.pos, px(0, -10));
}

#[test]
fn a_frame_settles_collisions_after_moving() {
    let mut game = Game::new().unwrap();
    game.enemies.push(Pipe { pos: Vector::new(100 * ONE + HALF, 20 * ONE), size: px(26, 135) });
    let frame = frame_at(60);
    assert_eq!(game.update(&frame, &vec![]), Ok(()));
    assert_eq!(game.player.pos, px(40, 22));
    assert_eq!(game.update(&frame, &vec![]), Ok(()));
    assert_eq!(game.player.pos, px(9999, 9999));
    assert_eq!(game.update(&frame, &vec![]), Ok(()));
    assert_eq!(game.player.pos, px(9999, 10001));
}

#[test]
fn the_release_of_a_button_makes_the_player_jump() {
    let mut game = Game::new().unwrap();
    let frame = frame_at(60);
    let release = Event::MouseButton(MouseButton::Left, ButtonState::Released);
    assert_eq!(game.event(&release, &frame), Ok(()));
    assert_eq!(game.player.pos, px(40, -44));
    let release = Event::MouseButton(MouseButton::Right, ButtonState::Released);
    assert_eq!(game.event(&release, &frame), Ok(()));
    assert_eq!(game.player.pos, px(40, -108));
    assert_eq!(game.frame_count, 0);
}

#[test]
fn nothing_else_makes_the_player_jump() {
    let mut game = Game::new().unwrap();
    let frame = frame_at(60);
    for state in [ButtonState::Pressed, ButtonState::Held, ButtonState::NotPressed] {
        for button in [MouseButton::Left, MouseButton::Right, MouseButton::Middle] {
            assert_eq!(game.event(&Event::MouseButton(button, state), &frame), Ok(()));
        }
    }
    assert_eq!(game.event(&Event::Other, &frame), Ok(()));
    assert_eq!(game.player.pos, px(40, 20));
}

#[test]
fn images_arrive_through_update() {
    let mut game = Game::new().unwrap();
    let frame = frame_at(60);
    assert_eq!(game.update(&frame, &vec![ready("ferris.png", 2)]), Ok(()));
    assert!(!game.asset_loader.loaded());
    assert_eq!(game.asset_loader.get("ferris.png"), Some(ImageHandle { id: 2 }));
    assert_eq!(game.update(&frame, &vec![ready("sprite.png", 1)]), Ok(()));
    assert!(game.asset_loader.loaded());
    assert_eq!(game.asset_loader.pending(), Vec::<String>::new());
}

#[test]
fn a_failed_load_gives_the_frame_up() {
    let mut game = Game::new().unwrap();
    game.enemies.push(pipe_at(200, 100));
    let frame = frame_at(60);
    let events = vec![
        ready("ferris.png", 2),
        LoadEvent { name: "sprite.png".to_string(), polled: Polled::Failed },
    ];
    assert_eq!(game.update(&frame, &events), Err(GameError::LoadFailed));
    assert_eq!(game.frame_count, 0);
    assert_eq!(game.player.pos, px(40, 20));
    assert_eq!(game.bg.pos, Vector::new(0, 0));
    assert_eq!(game.bg.screen_size, Vector::new(0, 0));
    assert_eq!(game.enemies, vec![pipe_at(200, 100)]);
    assert_eq!(game.asset_loader.get("ferris.png"), Some(ImageHandle { id: 2 }));
    assert_eq!(game.asset_loader.get("sprite.png"), None);
    assert_eq!(game.update(&frame, &vec![]), Ok(()));
    assert_eq!(game.frame_count, 1);
}

#[test]
fn nothing_is_drawn_before_the_images_are_there() {
    let mut game = Game::new().unwrap();
    game.enemies.push(pipe_at(200, 100));
    assert!(game.can_draw());
    assert_eq!(game.draw(), Ok(vec![]));
    assert_eq!(game.update(&frame_at(60), &vec![ready("ferris.png", 2)]), Ok(()));
    assert_eq!(
        game.draw(),
        Ok(vec![DrawCall {
            target: Rectangle::new(px(40, 22), px(60, 40)),
            image: ImageHandle { id: 2 },
            region: None
        }])
    );
}

#[test]
fn the_game_draws_background_then_player_then_pipes() {
    let mut game = Game::new().unwrap();
    game.enemies.push(pipe_at(200, 100));
    game.enemies.push(pipe_at(150, 90));
    let events = vec![ready("sprite.png", 1), ready("ferris.png", 2)];
    assert_eq!(game.update(&frame_at(60), &events), Ok(()));
    assert!(game.can_draw());
    let sprite = ImageHandle { id: 1 };
    let ferris = ImageHandle { id: 2 };
    let tile = Vector::new(288 * ONE + HALF, 382 * ONE);
    let sky = Some(Rectangle::new(px(0, 0), px(144, 256)));
    let pipe = Some(Rectangle::new(px(302, 0), px(26, 135)));
    assert_eq!(
        game.draw(),
        Ok(vec![
            DrawCall { target: Rectangle::new(Vector::new(-HALF, 0), tile), image: sprite, region: sky },
            DrawCall {
                target: Rectangle::new(Vector::new(288 * ONE - HALF, 0), tile),
                image: sprite,
                region: sky
            },
            DrawCall {
                target: Rectangle::new(px(0, 400), px(308, 112)),
                image: sprite,
                region: Some(Rectangle::new(px(146, 0), px(154, 56)))
            },
            DrawCall { target: Rectangle::new(px(40, 22), px(60, 40)), image: ferris, region: None },
            DrawCall {
                target: Rectangle::new(Vector::new(200 * ONE - HALF, 100 * ONE), px(26, 135)),
                image: sprite,
                region: pipe
            },
            DrawCall {
                target: Rectangle::new(Vector::new(150 * ONE - HALF, 90 * ONE), px(26, 135)),
                image: sprite,
                region: pipe
            },
        ])
    );
}

#[test]
fn drawing_the_game_twice_gives_the_same() {
    let mut game = Game::new().unwrap();
    let events = vec![ready("sprite.png", 1), ready("ferris.png", 2)];
    let frame = frame_at(60);
    assert_eq!(game.update(&frame, &events), Ok(()));
    for _ in 0..400 {
        assert_eq!(game.update(&frame, &vec![]), Ok(()));
    }
    let pipes = game.enemies.clone();
    let player = game.player;
    let bg = game.bg;
    let first = game.draw().unwrap();
    let second = game.draw().unwrap();
    assert_eq!(first.len(), 3 + 1 + 2);
    assert_eq!(first, second);
    assert_eq!(game.enemies, pipes);
    assert_eq!(game.player, player);
    assert_eq!(game.bg, bg);
    assert_eq!(game.frame_count, 401);
    assert_eq!(game.last_spawned, 360);
}

#[test]
fn can_update_tells_when_a_number_would_leave_its_range() {
    let frame = frame_at(60);
    let mut game = Game::new().unwrap();
    assert!(game.can_update(&frame));
    game.frame_count = u64::MAX;
    assert!(!game.can_update(&frame));
    let mut game = Game::new().unwrap();
    game.player.pos.y = i64::MAX - GRAVITY;
    assert!(game.can_update(&frame));
    game.player.pos.y = i64::MAX - GRAVITY + 1;
    assert!(!game.can_update(&frame));
    let mut game = Game::new().unwrap();
    game.bg.pos.x = i64::MIN + HALF;
    assert!(game.can_update(&frame));
    game.bg.pos.x = i64::MIN + HALF - 1;
    assert!(!game.can_update(&frame));
    let mut game = Game::new().unwrap();
    game.enemies.push(pipe_at(0, 0));
    game.enemies.push(Pipe { pos: Vector::new(i64::MIN + HALF, 0), size: px(26, 135) });
    assert!(game.can_update(&frame));
    game.enemies.push(Pipe { pos: Vector::new(i64::MIN + HALF - 1, 0), size: px(26, 135) });
    assert!(!game.can_update(&frame));
}

#[test]
fn can_draw_tells_when_a_tile_would_leave_its_range() {
    let mut game = Game::new().unwrap();
    game.bg.screen_size = Vector::new(i64::MAX, 0);
    assert!(game.can_draw());
    assert_eq!(game.update(&frame_at(60), &vec![ready("sprite.png", 1)]), Ok(()));
    assert!(game.can_draw());
    game.bg.screen_size = Vector::new(i64::MAX, 0);
    assert!(!game.can_draw());
    game.bg.screen_size = Vector::new(i64::MAX - HALF, 0);
    game.bg.pos.x = -1;
    assert!(game.can_draw());
    game.bg.pos.x = 1;
    assert!(game.can_draw());
    game.bg.screen_size = Vector::new(i64::MIN, 0);
    game.bg.pos.x = 0;
    assert!(!game.can_draw());
    game.bg.pos.x = -1;
    assert!(!game.can_draw());
}

#[test]
fn the_system_hands_every_call_to_its_game() {
    let mut system = System::new().unwrap();
    let frame = frame_at(60);
    let events = vec![ready("sprite.png", 1), ready("ferris.png", 2)];
    assert_eq!(system.update(&frame, &events), Ok(()));
    assert!(system.game.is_some());
    assert_eq!(system.game.as_ref().unwrap().frame_count, 1);
    assert_eq!(system.game.as_ref().unwrap().player.pos, px(40, 22));
    let release = Event::MouseButton(MouseButton::Left, ButtonState::Released);
    assert_eq!(system.event(&release, &frame), Ok(()));
    assert!(system.game.is_some());
    assert_eq!(system.game.as_ref().unwrap().player.pos, px(40, -42));
    let calls = system.draw().unwrap();
    assert!(system.game.is_some());
    assert_eq!(calls.len(), 4);
    assert_eq!(calls, system.draw().unwrap());
    assert_eq!(calls[3].target, Rectangle::new(px(40, -42), px(60, 40)));
}

#[test]
fn the_system_hands_failures_on_and_keeps_its_game() {
    let mut system = System::new().unwrap();
    let events = vec![LoadEvent { name: "ferris.png".to_string(), polled: Polled::Failed }];
    assert_eq!(system.update(&frame_at(60), &events), Err(GameError::LoadFailed));
    assert!(system.game.is_some());
    assert_eq!(system.game.as_ref().unwrap().frame_count, 0);
}
