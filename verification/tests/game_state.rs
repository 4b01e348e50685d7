use lumber::animation::{Animation, Frame, GameAnimations};
use lumber::controls::{InputEvent, KEY_A, KEY_DOWN, KEY_ENTER, KEY_LEFT, KEY_RIGHT, KEY_UP};
use lumber::game::{Branch, GameEvent, PlayerAction, PlayerPos};
use lumber::game_graphics::{Button, Glyph};
use lumber::game_physics::{BodyParts, Motion, PhysicsSetup, Placement, SceneLog};
use lumber::game_state::{GameRunner, GameState, SceneItem, Ui};
use lumber::menu::MenuResult;
use lumber::object::TextureResource;
use nalgebra::Vector3;
use rapier3d::dynamics::RigidBodyBuilder;
use rapier3d::geometry::ColliderBuilder;

fn setup() -> PhysicsSetup {
    PhysicsSetup {
        ground: BodyParts {
            body: RigidBodyBuilder::new_static().translation(Vector3::new(0.0, -0.1, 0.0)).build(),
            collider: ColliderBuilder::cuboid(100.0, 0.1, 100.0).build(),
        },
        base: BodyParts {
            body: RigidBodyBuilder::new_dynamic().translation(Vector3::new(0.0, 0.5, 0.0)).build(),
            collider: ColliderBuilder::cylinder(0.5, 0.5).build(),
        },
        gravity: Vector3::new(0.0, -9.81, 0.0),
        rest: Motion {
            translation: Vector3::new(0.0, 0.5, 0.0),
            linvel: Vector3::new(0.0, 0.0, 0.0),
        },
        drop: Motion {
            translation: Vector3::new(0.0, 1.5, 0.0),
            linvel: Vector3::new(0.0, -5.0, 0.0),
        },
    }
}

fn debris() -> BodyParts {
    BodyParts {
        body: RigidBodyBuilder::new_dynamic()
            .translation(Vector3::new(0.0, 0.6, 0.0))
            .linvel(Vector3::new(7.0, 3.5, 1.4))
            .build(),
        collider: ColliderBuilder::cylinder(0.5, 0.5).restitution(0.7).build(),
    }
}

fn runner(cap: usize) -> GameRunner {
    let frames = vec![Frame { texture: TextureResource { idx: 0 }, millis: 50 }];
    GameRunner::new(GameAnimations { chop: Animation::new(frames) }, setup(), cap)
}

fn press(code: i32) -> Vec<InputEvent> {
    vec![InputEvent::Key { code, pressed: true }]
}

fn tick(runner: &mut GameRunner, events: Vec<InputEvent>) -> bool {
    assert!(runner.score_room());
    runner.update(&events, debris(), &vec![])
}

fn selected(runner: &GameRunner) -> usize {
    match runner.state() {
        GameState::StartMenu(menu) => menu.selected_idx,
        _ => panic!("the run is not in the menu"),
    }
}

fn score(runner: &GameRunner) -> u32 {
    match runner.state() {
        GameState::InGame(game, _) => game.get_score(),
        GameState::GameOver(score) => *score,
        GameState::StartMenu(_) => panic!("the run is in the menu"),
    }
}

/// Chops on the left until the game is over; gives the score it ended with.
fn play_until_over(runner: &mut GameRunner) -> u32 {
    let mut chops = 0;
    loop {
        let before = score(runner);
        assert!(!tick(runner, press(KEY_LEFT)));
        chops += 1;
        assert!(chops < 100_000);
        match runner.state() {
            GameState::InGame(game, physics) => {
                assert_eq!(game.get_score(), before + 1);
                assert!(game.is_alive());
                assert_eq!(game.tree().len(), 5);
                assert_eq!(physics.base_log().branch, game.front());
                assert!(physics.flying_logs().len() <= physics.cap());
                assert_eq!(physics.bodies().len(), 2 + physics.flying_logs().len());
                assert_eq!(
                    runner.last_event(),
                    Some(GameEvent::Performed(PlayerAction::ChopLeft))
                );
                assert!(runner.chop_sound_due());
            }
            GameState::GameOver(points) => {
                assert!(*points == before || *points == before + 1);
                assert_eq!(runner.last_event(), Some(GameEvent::Finished(*points)));
                assert!(!runner.chop_sound_due());
                return *points;
            }
            GameState::StartMenu(_) => panic!("a chop does not lead to the menu"),
        }
    }
}

#[test]
fn run_begins_in_the_menu() {
    let runner = runner(10);
    assert_eq!(selected(&runner), 0);
    assert_eq!(runner.last_event(), None);
    assert!(!runner.chop_sound_due());
    assert!(runner.make_scene().is_empty());
    assert!(runner.bodies().is_none());
    assert!(runner.base_log().is_none());
    assert!(runner.flying_handles().is_empty());
    match runner.make_ui() {
        Ui::Menu(buttons) => assert_eq!(
            buttons,
            vec![
                Button { entry: MenuResult::Start, selected: true, row: 0 },
                Button { entry: MenuResult::Quit, selected: false, row: 1 },
            ]
        ),
        _ => panic!("the menu is shown first"),
    }
}

#[test]
fn menu_moves_and_ignores_chops() {
    let mut runner = runner(10);
    assert!(!tick(&mut runner, press(KEY_DOWN)));
    assert_eq!(selected(&runner), 1);
    assert!(!tick(&mut runner, press(KEY_UP)));
    assert_eq!(selected(&runner), 0);
    assert!(!tick(&mut runner, press(KEY_LEFT)));
    assert_eq!(selected(&runner), 0);
    assert!(!tick(&mut runner, vec![]));
    assert_eq!(selected(&runner), 0);
    assert_eq!(runner.pending_chop(&press(KEY_LEFT)), None);
}

#[test]
fn quit_ends_the_program() {
    let mut runner = runner(10);
    tick(&mut runner, press(KEY_DOWN));
    assert!(tick(&mut runner, press(KEY_ENTER)));
    assert_eq!(selected(&runner), 1);
}

#[test]
fn close_ends_the_program_in_every_state() {
    let mut runner = runner(10);
    assert!(tick(&mut runner, vec![InputEvent::Close]));
    assert!(tick(&mut runner, vec![InputEvent::Key { code: KEY_ENTER, pressed: true }, InputEvent::Close]));
    assert!(matches!(runner.state(), GameState::InGame(_, _)));
    assert!(tick(&mut runner, vec![InputEvent::Close]));
    play_until_over(&mut runner);
    assert!(tick(&mut runner, vec![InputEvent::Other, InputEvent::Close]));
    assert!(matches!(runner.state(), GameState::GameOver(_)));
}

#[test]
fn start_begins_a_new_game_in_a_new_world() {
    let mut runner = runner(7);
    assert!(!tick(&mut runner, press(KEY_ENTER)));
    match runner.state() {
        GameState::InGame(game, physics) => {
            assert_eq!(game.get_score(), 0);
            assert!(game.is_alive());
            assert!(game.tree().iter().all(|level| *level == Branch::Clear));
            assert_eq!(game.tree().len(), 5);
            assert!(physics.flying_logs().is_empty());
            assert_eq!(physics.base_log().branch, Branch::Clear);
            assert_eq!(physics.cap(), 7);
            assert_eq!(physics.bodies().len(), 2);
        }
        _ => panic!("start leads into the game"),
    }
    assert!(runner.bodies().is_some());
    assert!(!runner.chop_sound_due());
    match runner.make_ui() {
        Ui::Score(glyphs) => assert_eq!(glyphs, vec![Glyph { symbol: b'0', column: 0 }]),
        _ => panic!("a running game shows its score"),
    }
}

#[test]
fn chop_updates_game_and_world() {
    let mut runner = runner(10);
    tick(&mut runner, press(KEY_ENTER));
    assert_eq!(runner.pending_chop(&press(KEY_RIGHT)), Some(PlayerAction::ChopRight));
    assert_eq!(runner.pending_chop(&press(KEY_A)), Some(PlayerAction::ChopLeft));
    assert_eq!(runner.pending_chop(&press(KEY_ENTER)), None);

    assert!(!tick(&mut runner, press(KEY_RIGHT)));
    assert_eq!(score(&runner), 1);
    assert_eq!(runner.last_event(), Some(GameEvent::Performed(PlayerAction::ChopRight)));
    assert!(runner.chop_sound_due());
    assert_eq!(runner.flying_handles().len(), 1);
    assert_eq!(runner.bodies().unwrap().len(), 3);

    let scene = runner.make_scene();
    assert_eq!(scene.len(), 7);
    for level in 0..4 {
        assert_eq!(
            scene[level],
            SceneItem::Log(SceneLog { branch: Branch::Clear, placement: Placement::Level(level) })
        );
    }
    assert_eq!(
        scene[5],
        SceneItem::Log(SceneLog {
            branch: Branch::Clear,
            placement: Placement::Body(runner.flying_handles()[0]),
        })
    );
    assert_eq!(scene[6], SceneItem::Player(PlayerPos::Right));
}

#[test]
fn tick_without_a_chop_only_steps_the_world() {
    let mut runner = runner(10);
    tick(&mut runner, press(KEY_ENTER));
    tick(&mut runner, press(KEY_RIGHT));
    let handle = runner.flying_handles()[0];
    let raw = rapier3d::dynamics::RigidBodyHandle::from_raw_parts(handle.index, handle.generation);
    let before = *runner.bodies().unwrap().get(raw).unwrap().translation();

    assert!(!tick(&mut runner, vec![]));
    assert_eq!(score(&runner), 1);
    assert_eq!(runner.last_event(), None);
    assert!(!runner.chop_sound_due());
    assert_eq!(runner.flying_handles(), vec![handle]);
    let after = *runner.bodies().unwrap().get(raw).unwrap().translation();
    assert!(after != before);

    assert!(!tick(&mut runner, press(KEY_ENTER)));
    assert_eq!(score(&runner), 1);
    assert_eq!(runner.last_event(), None);
}

#[test]
fn marked_logs_leave_with_the_next_chop() {
    let mut runner = runner(10);
    tick(&mut runner, press(KEY_ENTER));
    runner.update_with(&press(KEY_RIGHT), debris(), &vec![], Branch::Left);
    let first = runner.flying_handles()[0];

    // Without a chop the marks are not looked at.
    runner.update_with(&vec![], debris(), &vec![true], Branch::Left);
    assert_eq!(runner.flying_handles(), vec![first]);

    runner.update_with(&press(KEY_RIGHT), debris(), &vec![true], Branch::Left);
    let handles = runner.flying_handles();
    assert_eq!(handles.len(), 1);
    assert!(handles[0] != first);
    assert_eq!(runner.bodies().unwrap().len(), 3);
    let raw = rapier3d::dynamics::RigidBodyHandle::from_raw_parts(first.index, first.generation);
    assert!(!runner.bodies().unwrap().contains(raw));
}

#[test]
fn game_ends_with_its_score_and_enter_leads_back() {
    let mut runner = runner(4);
    tick(&mut runner, press(KEY_DOWN));
    tick(&mut runner, press(KEY_DOWN));
    tick(&mut runner, press(KEY_ENTER));
    let points = play_until_over(&mut runner);
    assert!(points >= 4);
    assert!(runner.make_scene().is_empty());
    assert!(runner.bodies().is_none());
    assert!(runner.flying_handles().is_empty());
    match runner.make_ui() {
        Ui::GameOver(glyphs) => {
            let text: String = glyphs.iter().map(|glyph| glyph.symbol as char).collect();
            assert_eq!(text, format!("{}", points));
        }
        _ => panic!("the score is shown when the game is over"),
    }

    // The score stays as it is, whatever is pressed, until enter.
    for code in [KEY_LEFT, KEY_RIGHT, KEY_UP, KEY_DOWN] {
        assert!(!tick(&mut runner, press(code)));
        assert!(matches!(runner.state(), GameState::GameOver(kept) if *kept == points));
    }
    assert!(!tick(&mut runner, vec![]));
    assert!(matches!(runner.state(), GameState::GameOver(kept) if *kept == points));
    assert_eq!(runner.last_event(), Some(GameEvent::Finished(points)));

    assert!(!tick(&mut runner, press(KEY_ENTER)));
    assert_eq!(selected(&runner), 0);
    assert!(!runner.chop_sound_due());

    // The next game starts from nothing.
    assert!(!tick(&mut runner, press(KEY_ENTER)));
    assert_eq!(score(&runner), 0);
    assert!(runner.flying_handles().is_empty());
    assert!(!runner.chop_sound_due());
}

#[test]
fn tick_says_when_it_needs_a_draw() {
    let mut runner = runner(10);
    assert!(!runner.needs_draw(&press(KEY_LEFT)));
    tick(&mut runner, press(KEY_ENTER));
    assert!(runner.needs_draw(&press(KEY_LEFT)));
    assert!(!runner.needs_draw(&press(KEY_ENTER)));
    assert!(!runner.needs_draw(&vec![]));
    runner.update_with(&press(KEY_LEFT), debris(), &vec![], Branch::Right);
    // A bare log goes on top of the branch, whatever is drawn.
    assert!(!runner.needs_draw(&press(KEY_LEFT)));
}

#[test]
fn forced_draws_end_the_game_on_the_fifth_chop() {
    let mut runner = runner(10);
    tick(&mut runner, press(KEY_ENTER));
    let forced = [Branch::Left, Branch::Clear, Branch::Right, Branch::Clear];
    for (i, drawn) in forced.iter().enumerate() {
        assert!(runner.score_room());
        assert!(!runner.update_with(&press(KEY_LEFT), debris(), &vec![], *drawn));
        assert_eq!(score(&runner), i as u32 + 1);
        assert_eq!(runner.last_event(), Some(GameEvent::Performed(PlayerAction::ChopLeft)));
        match runner.state() {
            GameState::InGame(game, physics) => {
                assert_eq!(physics.base_log().branch, game.front());
                assert_eq!(physics.flying_logs().len(), i + 1);
            }
            _ => panic!("the game goes on"),
        }
    }
    match runner.state() {
        GameState::InGame(game, physics) => {
            assert_eq!(
                game.tree().iter().copied().collect::<Vec<_>>(),
                vec![Branch::Clear, Branch::Left, Branch::Clear, Branch::Right, Branch::Clear]
            );
            assert_eq!(physics.base_log().branch, Branch::Clear);
        }
        _ => panic!("the game goes on"),
    }
    // The fifth chop brings the left branch down onto the player.
    assert!(!runner.update_with(&press(KEY_LEFT), debris(), &vec![], Branch::Left));
    assert!(matches!(runner.state(), GameState::GameOver(5)));
    assert_eq!(runner.last_event(), Some(GameEvent::Finished(5)));
    assert!(!runner.chop_sound_due());
}

#[test]
fn chop_into_the_front_branch_ends_the_game_with_the_score_of_before() {
    let mut runner = runner(10);
    tick(&mut runner, press(KEY_ENTER));
    runner.update_with(&press(KEY_RIGHT), debris(), &vec![], Branch::Left);
    for _ in 0..4 {
        assert!(runner.score_room());
        runner.update_with(&press(KEY_RIGHT), debris(), &vec![], Branch::Clear);
    }
    match runner.state() {
        GameState::InGame(game, physics) => {
            assert_eq!(game.front(), Branch::Left);
            assert_eq!(physics.base_log().branch, Branch::Left);
            assert_eq!(game.get_score(), 5);
        }
        _ => panic!("the game goes on"),
    }
    assert!(!runner.update_with(&press(KEY_LEFT), debris(), &vec![], Branch::Right));
    assert!(matches!(runner.state(), GameState::GameOver(5)));
    assert_eq!(runner.last_event(), Some(GameEvent::Finished(5)));
}

#[test]
fn many_games_keep_the_flying_logs_under_the_cap() {
    let mut runner = runner(2);
    for _ in 0..20 {
        tick(&mut runner, press(KEY_ENTER));
        play_until_over(&mut runner);
        tick(&mut runner, press(KEY_ENTER));
        assert_eq!(selected(&runner), 0);
    }
}
