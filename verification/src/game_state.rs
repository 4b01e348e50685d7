use crate::animation::{AnimationView, GameAnimations};
use crate::controls::{
    input_of, menu_action_of, player_action_of, Controls, GameAction, InputEvent, TickInput,
};
use crate::game::{
    advance, new_game, valid_track, Branch, Game, GameEvent, GameView, PlayerAction, PlayerPos,
};
use crate::game_graphics::{make_game_over_ui, make_menu, make_ui, Button, Glyph};
use crate::game_physics::{
    after_chop, after_reset, scene_of, valid_physics, BodyParts, GamePhysics, PhysicsLog,
    PhysicsSetup, PhysicsView, SceneLog,
};
use crate::menu::{
    lemma_menu_stays_in_range, menu_after, menu_choice, new_menu, start_and_quit, Menu, MenuAction,
    MenuResult, MenuView,
};
use crate::world::{body_handles, BodyHandle};
use rapier3d::dynamics::RigidBodySet;
use vstd::prelude::*;

verus! {

/// Where a run of the program is: in the start menu, in a game, or
/// looking at the score of a game that is over.
pub enum GameState {
    StartMenu(Menu),
    InGame(Game, GamePhysics),
    GameOver(u32),
}

/// The mathematical content of a [`GameState`].
pub enum RunView {
    StartMenu(MenuView),
    InGame(GameView, PhysicsView),
    GameOver(u32),
}

impl View for GameState {
    type V = RunView;

    open spec fn view(&self) -> RunView {
        match *self {
            GameState::StartMenu(menu) => RunView::StartMenu(menu@),
            GameState::InGame(game, physics) => RunView::InGame(game@, physics@),
            GameState::GameOver(score) => RunView::GameOver(score),
        }
    }
}

/// A state that a run can be in. The menu has its two entries and one of
/// them highlighted; a game that is running has a valid track, a player
/// who is alive, and a world that agrees with its logs.
pub open spec fn valid_run(state: RunView) -> bool {
    match state {
        RunView::StartMenu(menu) => menu.options == start_and_quit() && menu.selected_idx < 2,
        RunView::InGame(game, physics) => {
            &&& valid_track(game.track)
            &&& game.score <= u32::MAX
            &&& game.alive
            &&& valid_physics(physics)
        },
        RunView::GameOver(_) => true,
    }
}

/// The chop that the input of a tick asks for.
pub open spec fn chop_of(action: Option<GameAction>) -> Option<PlayerAction> {
    match action {
        Some(action) => player_action_of(action),
        None => None,
    }
}

/// The menu action that the input of a tick asks for.
pub open spec fn menu_move_of(action: Option<GameAction>) -> Option<MenuAction> {
    match action {
        Some(action) => menu_action_of(action),
        None => None,
    }
}

/// What the input of a tick chooses in the menu, if anything.
pub open spec fn chosen_in(menu: MenuView, action: Option<GameAction>) -> Option<MenuResult> {
    match menu_move_of(action) {
        Some(action) => menu_choice(menu, action),
        None => None,
    }
}

/// The menu after the input of a tick.
pub open spec fn menu_moved(menu: MenuView, action: Option<GameAction>) -> MenuView {
    match menu_move_of(action) {
        Some(action) => menu_after(menu, action),
        None => menu,
    }
}

/// A world as it is when a game starts: ground and base log, nothing in
/// flight, no branch on the base log.
pub open spec fn fresh_physics(physics: PhysicsView, cap: nat) -> bool {
    valid_physics(physics) && physics == after_reset(physics) && physics.cap == cap
}

/// Where a chop leads. The game is updated first and the physics after
/// it, so that the base log takes the branch of the level that has just
/// come down. A player who survives plays on; one who does not leaves the
/// score behind.
pub open spec fn chop_outcome(
    game: GameView,
    physics: PhysicsView,
    chop: PlayerAction,
    drawn: Branch,
    far: Seq<bool>,
    spawned: BodyHandle,
) -> RunView {
    let next = advance(game, chop, drawn);
    if next.alive {
        RunView::InGame(next, after_chop(physics, next.track[0], far, spawned))
    } else {
        RunView::GameOver(next.score as u32)
    }
}

/// Whether a tick can lead from `before` to `after`, where `drawn` is the
/// level that chance offers for the top of the tree. Which body the engine
/// makes for a log that flies off is up to the engine; all else is fixed.
pub open spec fn ticks_with(
    before: RunView,
    action: Option<GameAction>,
    far: Seq<bool>,
    cap: nat,
    drawn: Branch,
    after: RunView,
) -> bool {
    match before {
        RunView::StartMenu(menu) => if chosen_in(menu, action) == Some(MenuResult::Start) {
            after matches RunView::InGame(game, physics) && game == new_game() && fresh_physics(
                physics,
                cap,
            )
        } else {
            after == RunView::StartMenu(menu_moved(menu, action))
        },
        RunView::InGame(game, physics) => match chop_of(action) {
            Some(chop) => exists|spawned: BodyHandle|
                !physics.bodies.contains(spawned) && after == #[trigger] chop_outcome(
                    game,
                    physics,
                    chop,
                    drawn,
                    far,
                    spawned,
                ),
            None => after == before,
        },
        RunView::GameOver(score) => if action == Some(GameAction::Enter) {
            after == RunView::StartMenu(new_menu())
        } else {
            after == before
        },
    }
}

/// Whether a tick can lead from `before` to `after`, chance offering a
/// branch on the left or on the right.
pub open spec fn ticks_to(
    before: RunView,
    action: Option<GameAction>,
    far: Seq<bool>,
    cap: nat,
    after: RunView,
) -> bool {
    exists|drawn: Branch|
        drawn != Branch::Clear && #[trigger] ticks_with(before, action, far, cap, drawn, after)
}

/// Whether a tick looks at what chance offers: a game is running and its
/// update does.
pub open spec fn tick_draws(before: RunView, action: Option<GameAction>) -> bool {
    before matches RunView::InGame(game, _) && chop_of(action) matches Some(chop)
        && crate::game::draws(game, chop)
}

/// Whether a tick asks the program to end: the window is to close, or
/// quit is chosen in the menu.
pub open spec fn quits(before: RunView, input: TickInput) -> bool {
    input.close_requested || (before matches RunView::StartMenu(menu) && chosen_in(
        menu,
        input.action,
    ) == Some(MenuResult::Quit))
}

/// The event that is remembered after a tick. A tick of a running game
/// remembers what its chop came to, or nothing where there was no chop;
/// any other tick leaves what was remembered.
pub open spec fn event_after(
    before: RunView,
    remembered: Option<GameEvent>,
    action: Option<GameAction>,
    after: RunView,
) -> Option<GameEvent> {
    match before {
        RunView::InGame(_, _) => match chop_of(action) {
            Some(chop) => match after {
                RunView::GameOver(score) => Some(GameEvent::Finished(score)),
                _ => Some(GameEvent::Performed(chop)),
            },
            None => None,
        },
        _ => remembered,
    }
}

/// One thing to draw in the scene.
#[derive(Debug, Clone, Copy, PartialEq, Eq, Structural)]
pub enum SceneItem {
    Log(SceneLog),
    /// The player, on the given side of the tree.
    Player(PlayerPos),
}

/// The scene of a state: for a running game its logs and then the
/// player, else nothing.
pub open spec fn scene_items(state: RunView) -> Seq<SceneItem> {
    match state {
        RunView::InGame(game, physics) => scene_of(game.track, physics.flying).map_values(
            |log: SceneLog| SceneItem::Log(log),
        ).push(SceneItem::Player(game.side)),
        _ => Seq::empty(),
    }
}

/// What is drawn over the scene.
pub enum Ui {
    /// The start menu.
    Menu(Vec<Button>),
    /// The score of the running game.
    Score(Vec<Glyph>),
    /// The score that the game ended with.
    GameOver(Vec<Glyph>),
}

/// The mathematical content of a [`GameRunner`].
pub struct RunnerView {
    pub state: RunView,
    /// The event of the last tick of a running game.
    pub event: Option<GameEvent>,
    pub bindings: Map<i32, GameAction>,
    /// How many flying logs a game keeps at most.
    pub cap: nat,
    /// The animation of the player's chop.
    pub chop: AnimationView,
}

/// Runs the program tick by tick: reads the input, and moves between the
/// menu, the game and the score.
pub struct GameRunner {
    state: GameState,
    animations: GameAnimations,
    event: Option<GameEvent>,
    controls: Controls,
    setup: PhysicsSetup,
    cap: usize,
}

impl View for GameRunner {
    type V = RunnerView;

    closed spec fn view(&self) -> RunnerView {
        RunnerView {
            state: self.state@,
            event: self.event,
            bindings: self.controls@,
            cap: self.cap as nat,
            chop: self.animations.chop@,
        }
    }
}

fn to_menu_action(action: Option<GameAction>) -> (menu_action: Option<MenuAction>)
    ensures
        menu_action == menu_move_of(action),
{
    match action {
        Some(action) => action.into_menu_action(),
        None => None,
    }
}

fn to_player_action(action: Option<GameAction>) -> (chop: Option<PlayerAction>)
    ensures
        chop == chop_of(action),
{
    match action {
        Some(action) => action.into_player_action(),
        None => None,
    }
}

impl GameRunner {
    /// The state is one a run can be in.
    pub open spec fn wf(&self) -> bool {
        valid_run(self@.state)
    }

    /// A running game has room for one more point.
    pub open spec fn has_score_room(&self) -> bool {
        self@.state matches RunView::InGame(game, _) ==> game.score < u32::MAX
    }

    /// A runner that shows the start menu. Each game it starts gets a world
    /// made from `setup`, in which the newest `cap` flying logs are kept.
    pub fn new(animations: GameAnimations, setup: PhysicsSetup, cap: usize) -> (runner: GameRunner)
        ensures
            runner.wf(),
            runner@.state == RunView::StartMenu(new_menu()),
            runner@.event.is_none(),
            runner@.bindings == crate::controls::default_bindings(),
            runner@.cap == cap,
            runner@.chop == animations.chop@,
    {
        Self {
            state: GameState::StartMenu(Menu::new()),
            animations,
            event: None,
            controls: Controls::default(),
            setup,
            cap,
        }
    }

    /// Whether a running game has room for one more point.
    pub fn score_room(&self) -> (room: bool)
        ensures
            room == self.has_score_room(),
    {
        match &self.state {
            GameState::InGame(game, _) => game.get_score() < u32::MAX,
            _ => true,
        }
    }

    /// The chop that these events would make in the next tick, if any: the
    /// body of the log that flies off has to be made for it.
    pub fn pending_chop(&self, events: &Vec<InputEvent>) -> (chop: Option<PlayerAction>)
        ensures
            chop == if self@.state is InGame {
                chop_of(input_of(self@.bindings, events@).action)
            } else {
                None
            },
    {
        match &self.state {
            GameState::InGame(_, _) => to_player_action(self.controls.read(events).action),
            _ => None,
        }
    }

    /// Whether the next tick with these events looks at what chance
    /// offers for the top of the tree.
    pub fn needs_draw(&self, events: &Vec<InputEvent>) -> (needed: bool)
        requires
            self.wf(),
        ensures
            needed == tick_draws(self@.state, input_of(self@.bindings, events@).action),
    {
        match &self.state {
            GameState::InGame(game, _) => match to_player_action(self.controls.read(events).action) {
                Some(chop) => game.needs_draw(chop),
                None => false,
            },
            _ => false,
        }
    }

    /// One tick, with `drawn` as the level that chance offers for the top
    /// of the tree.
    ///
    /// Of the events the first that asks for an action counts. In the menu
    /// it moves the highlight or chooses: start begins a new game in a new
    /// world, quit ends the program. In a game a chop updates the game and
    /// then the physics, which gets `debris` as the body of the log that
    /// flies off and `far` as the marks of the flying logs that are out of
    /// sight; the world is stepped whether there is a chop or not; and a
    /// chop that kills ends the game. After a game, enter leads back to a
    /// new menu. The result says whether the program is to end.
    pub fn update_with(
        &mut self,
        events: &Vec<InputEvent>,
        debris: BodyParts,
        far: &Vec<bool>,
        drawn: Branch,
    ) -> (quit: bool)
        requires
            old(self).wf(),
            old(self).has_score_room(),
        ensures
            final(self).wf(),
            ticks_with(
                old(self)@.state,
                input_of(old(self)@.bindings, events@).action,
                far@,
                old(self)@.cap,
                drawn,
                final(self)@.state,
            ),
            quit == quits(old(self)@.state, input_of(old(self)@.bindings, events@)),
            final(self)@.event == event_after(
                old(self)@.state,
                old(self)@.event,
                input_of(old(self)@.bindings, events@).action,
                final(self)@.state,
            ),
            final(self)@.bindings == old(self)@.bindings,
            final(self)@.cap == old(self)@.cap,
            final(self)@.chop == old(self)@.chop,
    {
        let input = self.controls.read(events);
        let action = input.action;
        let mut to_quit = input.close_requested;
        let mut state = GameState::GameOver(0);
        core::mem::swap(&mut self.state, &mut state);
        let next = match state {
            GameState::StartMenu(mut menu) => {
                match to_menu_action(action) {
                    Some(menu_action) => {
                        proof {
                            lemma_menu_stays_in_range(menu@, menu_action);
                        }
                        match menu.update(menu_action) {
                            Some(MenuResult::Start) => {
                                let game = Game::new();
                                let physics = GamePhysics::new(self.setup.clone(), self.cap);
                                GameState::InGame(game, physics)
                            },
                            Some(MenuResult::Quit) => {
                                to_quit = true;
                                GameState::StartMenu(menu)
                            },
                            None => GameState::StartMenu(menu),
                        }
                    },
                    None => GameState::StartMenu(menu),
                }
            },
            GameState::InGame(mut game, mut physics) => {
                match to_player_action(action) {
                    Some(chop) => {
                        let ghost before = game@;
                        let ghost world = physics@;
                        let event = game.update_with(chop, drawn);
                        self.animations.update();
                        physics.update(&game, debris, far);
                        physics.step();
                        self.event = Some(event);
                        proof {
                            let spawned = choose|spawned: BodyHandle|
                                !world.bodies.contains(spawned) && physics@
                                    == #[trigger] after_chop(
                                    world,
                                    game@.track[0],
                                    far@,
                                    spawned,
                                );
                            assert(if game@.alive {
                                RunView::InGame(game@, physics@)
                            } else {
                                RunView::GameOver(game@.score as u32)
                            } == chop_outcome(before, world, chop, drawn, far@, spawned));
                        }
                        match event {
                            GameEvent::Finished(score) => GameState::GameOver(score),
                            GameEvent::Performed(_) => GameState::InGame(game, physics),
                        }
                    },
                    None => {
                        physics.step();
                        self.event = None;
                        GameState::InGame(game, physics)
                    },
                }
            },
            GameState::GameOver(score) => {
                match action {
                    Some(GameAction::Enter) => GameState::StartMenu(Menu::new()),
                    _ => GameState::GameOver(score),
                }
            },
        };
        self.state = next;
        to_quit
    }

    /// One tick. Where the game needs a new level above a bare log, that
    /// level is a branch drawn at random; in all else the tick is that of
    /// [`GameRunner::update_with`].
    pub fn update(&mut self, events: &Vec<InputEvent>, debris: BodyParts, far: &Vec<bool>) -> (quit:
        bool)
        requires
            old(self).wf(),
            old(self).has_score_room(),
        ensures
            final(self).wf(),
            ticks_to(
                old(self)@.state,
                input_of(old(self)@.bindings, events@).action,
                far@,
                old(self)@.cap,
                final(self)@.state,
            ),
            quit == quits(old(self)@.state, input_of(old(self)@.bindings, events@)),
            final(self)@.event == event_after(
                old(self)@.state,
                old(self)@.event,
                input_of(old(self)@.bindings, events@).action,
                final(self)@.state,
            ),
            final(self)@.bindings == old(self)@.bindings,
            final(self)@.cap == old(self)@.cap,
            final(self)@.chop == old(self)@.chop,
    {
        let drawn = if self.needs_draw(events) {
            Branch::random()
        } else {
            Branch::Left
        };
        self.update_with(events, debris, far, drawn)
    }

    /// Whether the sound of a chop is due: the last tick was a chop of a
    /// game that is still running.
    pub fn chop_sound_due(&self) -> (due: bool)
        ensures
            due == (self@.state is InGame && self@.event matches Some(GameEvent::Performed(_))),
    {
        match &self.state {
            GameState::InGame(_, _) => match self.event {
                Some(GameEvent::Performed(_)) => true,
                _ => false,
            },
            _ => false,
        }
    }

    /// What is drawn over the scene: the menu, the score of the running
    /// game, or the score the game ended with.
    pub fn make_ui(&self) -> (ui: Ui)
        ensures
            match self@.state {
                RunView::StartMenu(menu) => ui matches Ui::Menu(buttons) && buttons@
                    == crate::game_graphics::buttons_of(menu),
                RunView::InGame(game, _) => ui matches Ui::Score(glyphs) && glyphs@
                    == crate::game_graphics::glyphs_of(crate::game_graphics::decimal(game.score)),
                RunView::GameOver(score) => ui matches Ui::GameOver(glyphs) && glyphs@
                    == crate::game_graphics::glyphs_of(
                    crate::game_graphics::decimal(score as nat),
                ),
            },
    {
        match &self.state {
            GameState::StartMenu(menu) => Ui::Menu(make_menu(menu)),
            GameState::InGame(game, _) => Ui::Score(make_ui(game)),
            GameState::GameOver(score) => Ui::GameOver(make_game_over_ui(*score)),
        }
    }

    /// The scene of a running game: its logs, then the player. Nothing
    /// outside a game.
    pub fn make_scene(&self) -> (scene: Vec<SceneItem>)
        requires
            self.wf(),
        ensures
            scene@ == scene_items(self@.state),
    {
        match &self.state {
            GameState::InGame(game, physics) => {
                let logs = physics.make_scene(game);
                let mut scene: Vec<SceneItem> = Vec::new();
                let mut i: usize = 0;
                while i < logs.len()
                    invariant
                        i <= logs.len(),
                        scene@ == logs@.map_values(|log: SceneLog| SceneItem::Log(log)).take(
                            i as int,
                        ),
                    decreases logs.len() - i,
                {
                    scene.push(SceneItem::Log(logs[i]));
                    proof {
                        let whole = logs@.map_values(|log: SceneLog| SceneItem::Log(log));
                        assert(scene@ =~= whole.take(i + 1));
                    }
                    i += 1;
                }
                proof {
                    let whole = logs@.map_values(|log: SceneLog| SceneItem::Log(log));
                    assert(whole.take(whole.len() as int) =~= whole);
                }
                scene.push(SceneItem::Player(game.get_player_pos()));
                scene
            },
            _ => Vec::new(),
        }
    }

    /// Where the run is.
    pub fn state(&self) -> (state: &GameState)
        ensures
            state@ == self@.state,
    {
        &self.state
    }

    /// The event of the last tick of a running game.
    pub fn last_event(&self) -> (event: Option<GameEvent>)
        ensures
            event == self@.event,
    {
        self.event
    }

    /// The animations, to take the picture of the player from.
    pub fn animations(&self) -> (animations: &GameAnimations)
        ensures
            animations.chop@ == self@.chop,
    {
        &self.animations
    }

    /// The bodies of the running game's world, to read the poses of the
    /// logs from.
    pub fn bodies(&self) -> (bodies: Option<&RigidBodySet>)
        ensures
            match self@.state {
                RunView::InGame(_, physics) => bodies matches Some(bodies) && body_handles(*bodies)
                    == physics.bodies,
                _ => bodies.is_none(),
            },
    {
        match &self.state {
            GameState::InGame(_, physics) => Some(physics.bodies()),
            _ => None,
        }
    }

    /// The log at the base of the running game's tree.
    pub fn base_log(&self) -> (log: Option<PhysicsLog>)
        ensures
            log == match self@.state {
                RunView::InGame(_, physics) => Some(physics.base),
                _ => None,
            },
    {
        match &self.state {
            GameState::InGame(_, physics) => Some(physics.base_log()),
            _ => None,
        }
    }

    /// The bodies of the running game's flying logs, oldest first: the
    /// ones to mark as far for the next tick.
    pub fn flying_handles(&self) -> (handles: Vec<BodyHandle>)
        ensures
            handles@ == match self@.state {
                RunView::InGame(_, physics) => physics.flying.map_values(
                    |log: PhysicsLog| log.handle,
                ),
                _ => Seq::empty(),
            },
    {
        let mut handles: Vec<BodyHandle> = Vec::new();
        match &self.state {
            GameState::InGame(_, physics) => {
                let logs = physics.flying_logs();
                let mut i: usize = 0;
                while i < logs.len()
                    invariant
                        i <= logs.len(),
                        handles@ == logs@.map_values(|log: PhysicsLog| log.handle).take(i as int),
                    decreases logs.len() - i,
                {
                    handles.push(logs[i].handle);
                    proof {
                        let whole = logs@.map_values(|log: PhysicsLog| log.handle);
                        assert(handles@ =~= whole.take(i + 1));
                    }
                    i += 1;
                }
                proof {
                    let whole = logs@.map_values(|log: PhysicsLog| log.handle);
                    assert(whole.take(whole.len() as int) =~= whole);
                }
            },
            _ => {},
        }
        handles
    }
}

/// Start, chosen in the menu, always begins a new game in a new world:
/// no score, a tree of bare logs, a bare base log and nothing in flight.
pub proof fn lemma_start_begins_afresh(
    menu: MenuView,
    action: Option<GameAction>,
    far: Seq<bool>,
    cap: nat,
    after: RunView,
)
    requires
        ticks_to(RunView::StartMenu(menu), action, far, cap, after),
        chosen_in(menu, action) == Some(MenuResult::Start),
    ensures
        after matches RunView::InGame(game, physics) && game == new_game() && game.score == 0
            && game.track == crate::game::clear_track() && game.alive && physics.flying.len() == 0
            && physics.base.branch == Branch::Clear && physics.cap == cap && valid_physics(physics),
{
}

/// After a game, enter always leads to a new menu: nothing of the game or
/// its world is kept.
pub proof fn lemma_enter_leaves_the_score(score: u32, far: Seq<bool>, cap: nat, after: RunView)
    requires
        ticks_to(RunView::GameOver(score), Some(GameAction::Enter), far, cap, after),
    ensures
        after == RunView::StartMenu(new_menu()),
{
}

/// Once the player is dead the score is frozen: the run shows that score
/// until it goes back to the menu.
pub proof fn lemma_score_is_frozen_when_over(
    score: u32,
    action: Option<GameAction>,
    far: Seq<bool>,
    cap: nat,
    after: RunView,
)
    requires
        ticks_to(RunView::GameOver(score), action, far, cap, after),
    ensures
        after == RunView::GameOver(score) || after == RunView::StartMenu(new_menu()),
{
}

/// While a game runs the score never goes down: a tick leaves it or adds
/// one, and a game that ends is left with the score it ended on.
pub proof fn lemma_score_never_drops_in_game(
    game: GameView,
    physics: PhysicsView,
    action: Option<GameAction>,
    far: Seq<bool>,
    cap: nat,
    after: RunView,
)
    requires
        ticks_to(RunView::InGame(game, physics), action, far, cap, after),
        game.score < u32::MAX,
    ensures
        match after {
            RunView::InGame(next, _) => game.score <= next.score <= game.score + 1 && next.alive
                == game.alive,
            RunView::GameOver(score) => game.score <= score <= game.score + 1,
            RunView::StartMenu(_) => false,
        },
        chop_of(action).is_none() ==> after == RunView::InGame(game, physics),
{
    let drawn = choose|drawn: Branch|
        drawn != Branch::Clear && #[trigger] ticks_with(
            RunView::InGame(game, physics),
            action,
            far,
            cap,
            drawn,
            after,
        );
    if let Some(chop) = chop_of(action) {
        crate::game::lemma_advance_keeps_score(game, chop, drawn);
    }
}

/// A tick leads from a state a run can be in to another such state,
/// whatever chance offers: the track keeps its length and its gaps between
/// branches, a game that goes on has a living player, and the world agrees
/// with its logs.
pub proof fn lemma_tick_keeps_run_valid(
    before: RunView,
    action: Option<GameAction>,
    far: Seq<bool>,
    cap: nat,
    drawn: Branch,
    after: RunView,
)
    requires
        valid_run(before),
        before matches RunView::InGame(game, _) ==> game.score < u32::MAX,
        ticks_with(before, action, far, cap, drawn, after),
    ensures
        valid_run(after),
{
    match before {
        RunView::StartMenu(menu) => {
            if let Some(menu_action) = menu_move_of(action) {
                lemma_menu_stays_in_range(menu, menu_action);
            }
            if chosen_in(menu, action) == Some(MenuResult::Start) {
                assert(valid_track(new_game().track)) by {
                    assert forall|i: int| 0 <= i && i + 1 < new_game().track.len() implies
                        !#[trigger] crate::game::branches_meet_at(new_game().track, i) by {}
                }
            }
        },
        RunView::InGame(game, physics) => {
            if let Some(chop) = chop_of(action) {
                let spawned = choose|spawned: BodyHandle|
                    !physics.bodies.contains(spawned) && after == #[trigger] chop_outcome(
                        game,
                        physics,
                        chop,
                        drawn,
                        far,
                        spawned,
                    );
                let next = advance(game, chop, drawn);
                crate::game::lemma_advance_keeps_track_valid(game, chop, drawn);
                crate::game::lemma_advance_keeps_score(game, chop, drawn);
                crate::game_physics::lemma_chop_keeps_physics_valid(
                    physics,
                    next.track[0],
                    far,
                    spawned,
                );
            }
        },
        RunView::GameOver(_) => {},
    }
}

} // verus!
