use crate::game::PlayerAction;
use crate::menu::MenuAction;
use std::collections::HashMap;
use vstd::prelude::*;

verus! {

broadcast use vstd::std_specs::hash::group_hash_axioms;

/// What a key press can ask of the game.
#[derive(Debug, Clone, Copy, PartialEq, Eq, Structural)]
pub enum GameAction {
    Left,
    Right,
    Down,
    Up,
    Enter,
}

/// The chop that an action stands for while a game runs.
pub open spec fn player_action_of(action: GameAction) -> Option<PlayerAction> {
    match action {
        GameAction::Left => Some(PlayerAction::ChopLeft),
        GameAction::Right => Some(PlayerAction::ChopRight),
        _ => None,
    }
}

/// The menu action that an action stands for while the menu is shown.
pub open spec fn menu_action_of(action: GameAction) -> Option<MenuAction> {
    match action {
        GameAction::Up => Some(MenuAction::Up),
        GameAction::Down => Some(MenuAction::Down),
        GameAction::Enter => Some(MenuAction::Select),
        _ => None,
    }
}

impl GameAction {
    /// The chop that this action stands for while a game runs.
    pub fn into_player_action(self) -> (chop: Option<PlayerAction>)
        ensures
            chop == player_action_of(self),
    {
        match self {
            Self::Left => Some(PlayerAction::ChopLeft),
            Self::Right => Some(PlayerAction::ChopRight),
            _ => None,
        }
    }

    /// The menu action that this action stands for while the menu is shown.
    pub fn into_menu_action(self) -> (action: Option<MenuAction>)
        ensures
            action == menu_action_of(self),
    {
        match self {
            Self::Up => Some(MenuAction::Up),
            Self::Down => Some(MenuAction::Down),
            Self::Enter => Some(MenuAction::Select),
            _ => None,
        }
    }
}

/// An event of the window, as far as the game reads it.
#[derive(Debug, Clone, Copy, PartialEq, Eq, Structural)]
pub enum InputEvent {
    /// A key changed; `pressed` is true for the press itself, false for a
    /// release or a repeat.
    Key { code: i32, pressed: bool },
    /// The window was asked to close.
    Close,
    /// Anything else.
    Other,
}

/// The codes of the bound keys, as the window library numbers them.
pub const KEY_A: i32 = 65;

pub const KEY_D: i32 = 68;

pub const KEY_I: i32 = 73;

pub const KEY_J: i32 = 74;

pub const KEY_K: i32 = 75;

pub const KEY_L: i32 = 76;

pub const KEY_S: i32 = 83;

pub const KEY_W: i32 = 87;

pub const KEY_ENTER: i32 = 257;

pub const KEY_RIGHT: i32 = 262;

pub const KEY_LEFT: i32 = 263;

pub const KEY_DOWN: i32 = 264;

pub const KEY_UP: i32 = 265;

/// The bindings a player finds by default: the arrow keys, WASD and IJKL
/// for the four directions, and the enter key.
pub open spec fn default_bindings() -> Map<i32, GameAction> {
    map![
        KEY_UP => GameAction::Up,
        KEY_LEFT => GameAction::Left,
        KEY_DOWN => GameAction::Down,
        KEY_RIGHT => GameAction::Right,
        KEY_W => GameAction::Up,
        KEY_A => GameAction::Left,
        KEY_S => GameAction::Down,
        KEY_D => GameAction::Right,
        KEY_I => GameAction::Up,
        KEY_J => GameAction::Left,
        KEY_K => GameAction::Down,
        KEY_L => GameAction::Right,
        KEY_ENTER => GameAction::Enter,
    ]
}

/// The action an event asks for: that of the key, where the event is the
/// press of a bound key.
pub open spec fn bound_action(bindings: Map<i32, GameAction>, event: InputEvent) -> Option<
    GameAction,
> {
    match event {
        InputEvent::Key { code, pressed } => if pressed && bindings.dom().contains(code) {
            Some(bindings[code])
        } else {
            None
        },
        _ => None,
    }
}

/// The action of the first event that asks for one.
pub open spec fn first_action(bindings: Map<i32, GameAction>, events: Seq<InputEvent>) -> Option<
    GameAction,
>
    decreases events.len(),
{
    if events.len() == 0 {
        None
    } else {
        match bound_action(bindings, events[0]) {
            Some(action) => Some(action),
            None => first_action(bindings, events.drop_first()),
        }
    }
}

/// Whether any of the events asks the window to close.
pub open spec fn close_requested(events: Seq<InputEvent>) -> bool {
    exists|i: int| 0 <= i < events.len() && events[i] == InputEvent::Close
}

/// What one tick takes from the input: at most one action, and whether the
/// window is to close.
#[derive(Debug, Clone, Copy, PartialEq, Eq, Structural)]
pub struct TickInput {
    pub action: Option<GameAction>,
    pub close_requested: bool,
}

/// What the events of one tick come to under the given bindings.
pub open spec fn input_of(bindings: Map<i32, GameAction>, events: Seq<InputEvent>) -> TickInput {
    TickInput {
        action: first_action(bindings, events),
        close_requested: close_requested(events),
    }
}

/// The key bindings: which key code asks for which action.
pub struct Controls {
    bindings: HashMap<i32, GameAction>,
}

impl View for Controls {
    type V = Map<i32, GameAction>;

    closed spec fn view(&self) -> Map<i32, GameAction> {
        self.bindings@
    }
}

impl Default for Controls {
    fn default() -> (controls: Controls)
        ensures
            controls@ == default_bindings(),
    {
        let mut bindings: HashMap<i32, GameAction> = HashMap::new();
        bindings.insert(KEY_UP, GameAction::Up);
        bindings.insert(KEY_LEFT, GameAction::Left);
        bindings.insert(KEY_DOWN, GameAction::Down);
        bindings.insert(KEY_RIGHT, GameAction::Right);

        bindings.insert(KEY_W, GameAction::Up);
        bindings.insert(KEY_A, GameAction::Left);
        bindings.insert(KEY_S, GameAction::Down);
        bindings.insert(KEY_D, GameAction::Right);

        bindings.insert(KEY_I, GameAction::Up);
        bindings.insert(KEY_J, GameAction::Left);
        bindings.insert(KEY_K, GameAction::Down);
        bindings.insert(KEY_L, GameAction::Right);

        bindings.insert(KEY_ENTER, GameAction::Enter);

        assert(bindings@ =~= default_bindings());
        Self::new(bindings)
    }
}

impl Controls {
    /// Controls with the given bindings, from key codes to actions.
    pub fn new(bindings: HashMap<i32, GameAction>) -> (controls: Controls)
        ensures
            controls@ == bindings@,
    {
        Self { bindings }
    }

    /// The action that an event asks for, if any.
    pub fn convert(&self, event: InputEvent) -> (action: Option<GameAction>)
        ensures
            action == bound_action(self@, event),
    {
        match event {
            InputEvent::Key { code, pressed } => {
                if pressed {
                    match self.bindings.get(&code) {
                        Some(action) => Some(*action),
                        None => None,
                    }
                } else {
                    None
                }
            },
            _ => None,
        }
    }

    /// Reads the events of one tick: the first action that any of them asks
    /// for, and whether any of them asks the window to close.
    pub fn read(&self, events: &Vec<InputEvent>) -> (input: TickInput)
        ensures
            input == input_of(self@, events@),
    {
        let mut action: Option<GameAction> = None;
        let mut close = false;
        let mut i: usize = 0;
        assert(events@.skip(0) =~= events@);
        while i < events.len()
            invariant
                i <= events.len(),
                close == close_requested(events@.take(i as int)),
                match action {
                    Some(_) => action == first_action(self@, events@),
                    None => first_action(self@, events@) == first_action(
                        self@,
                        events@.skip(i as int),
                    ),
                },
            decreases events.len() - i,
        {
            let event = events[i];
            proof {
                let seen = events@.take(i as int);
                let next = events@.take(i + 1);
                assert(seen =~= next.take(i as int));
                if event == InputEvent::Close {
                    assert(next[i as int] == InputEvent::Close);
                } else if close_requested(next) {
                    let k = choose|k: int| 0 <= k < next.len() && next[k] == InputEvent::Close;
                    assert(seen[k] == InputEvent::Close);
                }
                if close_requested(seen) {
                    let k = choose|k: int| 0 <= k < seen.len() && seen[k] == InputEvent::Close;
                    assert(next[k] == InputEvent::Close);
                }
                assert(events@.skip(i as int).drop_first() =~= events@.skip(i + 1));
            }
            if let InputEvent::Close = event {
                close = true;
            }
            if action.is_none() {
                action = self.convert(event);
            }
            i += 1;
        }
        assert(events@.take(i as int) =~= events@);
        TickInput { action, close_requested: close }
    }
}

} // verus!
