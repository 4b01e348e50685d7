use vstd::prelude::*;

verus! {

/// An input that the start menu understands.
#[derive(Debug, Clone, Copy, PartialEq, Eq, Structural)]
pub enum MenuAction {
    Up,
    Down,
    Select,
}

/// What choosing a menu entry asks for.
#[derive(Debug, Clone, Copy, PartialEq, Eq, Structural)]
pub enum MenuResult {
    Start,
    Quit,
}

/// The start menu: its entries and the index of the highlighted one.
pub struct Menu {
    pub options: Vec<MenuResult>,
    pub selected_idx: usize,
}

/// The mathematical content of a [`Menu`].
pub struct MenuView {
    pub options: Seq<MenuResult>,
    pub selected_idx: nat,
}

impl View for Menu {
    type V = MenuView;

    open spec fn view(&self) -> MenuView {
        MenuView { options: self.options@, selected_idx: self.selected_idx as nat }
    }
}

/// The entries of a new menu.
pub open spec fn start_and_quit() -> Seq<MenuResult> {
    seq![MenuResult::Start, MenuResult::Quit]
}

/// The menu as it is first shown: start and quit, start highlighted.
pub open spec fn new_menu() -> MenuView {
    MenuView { options: start_and_quit(), selected_idx: 0 }
}

/// How far an action moves the highlight before it wraps around: up goes
/// once around the entries and one further, down goes one entry on.
pub open spec fn menu_shift(m: MenuView, action: MenuAction) -> nat {
    match action {
        MenuAction::Up => m.options.len() + 1,
        MenuAction::Down => 1,
        MenuAction::Select => 0,
    }
}

/// The menu after an action: the highlight is moved and wrapped to the two
/// entries of the menu.
pub open spec fn menu_after(m: MenuView, action: MenuAction) -> MenuView {
    MenuView {
        options: m.options,
        selected_idx: ((m.selected_idx + menu_shift(m, action)) % 2) as nat,
    }
}

/// What an action chooses: the highlighted entry on select, else nothing.
pub open spec fn menu_choice(m: MenuView, action: MenuAction) -> Option<MenuResult> {
    match action {
        MenuAction::Select => Some(m.options[m.selected_idx as int]),
        _ => None,
    }
}

/// Whether the menu can take the action: the moved highlight is a number
/// the machine holds, and a selection has an entry to choose.
pub open spec fn menu_accepts(m: MenuView, action: MenuAction) -> bool {
    match action {
        MenuAction::Select => m.selected_idx < m.options.len(),
        _ => m.selected_idx + menu_shift(m, action) <= usize::MAX,
    }
}

impl Menu {
    /// The menu as it is first shown: start and quit, start highlighted.
    pub fn new() -> (menu: Menu)
        ensures
            menu@ == new_menu(),
    {
        let mut options: Vec<MenuResult> = Vec::new();
        options.push(MenuResult::Start);
        options.push(MenuResult::Quit);
        assert(options@ =~= start_and_quit());
        Menu { options, selected_idx: 0 }
    }

    /// Moves the highlight, or chooses the highlighted entry.
    pub fn update(&mut self, action: MenuAction) -> (result: Option<MenuResult>)
        requires
            menu_accepts(old(self)@, action),
        ensures
            final(self)@ == menu_after(old(self)@, action),
            result == menu_choice(old(self)@, action),
    {
        let mut result: Option<MenuResult> = None;
        match action {
            MenuAction::Up => {
                self.selected_idx += self.options.len() + 1;
            },
            MenuAction::Down => {
                self.selected_idx += 1;
            },
            MenuAction::Select => {
                result = Some(self.selected());
            },
        }
        self.selected_idx = self.selected_idx % 2;
        result
    }

    /// The highlighted entry.
    pub fn selected(&self) -> (entry: MenuResult)
        requires
            self@.selected_idx < self@.options.len(),
        ensures
            entry == self@.options[self@.selected_idx as int],
    {
        self.options[self.selected_idx]
    }
}

/// A menu with two entries and the highlight on one of them takes every
/// action, and is such a menu again afterwards.
pub proof fn lemma_menu_stays_in_range(m: MenuView, action: MenuAction)
    requires
        m.options.len() == 2,
        m.selected_idx < 2,
    ensures
        menu_accepts(m, action),
        menu_after(m, action).options.len() == 2,
        menu_after(m, action).selected_idx < 2,
{
}

/// In a menu of two entries up and down do the same: each moves the
/// highlight to the other entry.
pub proof fn lemma_up_and_down_toggle(m: MenuView)
    requires
        m.options.len() == 2,
        m.selected_idx < 2,
    ensures
        menu_after(m, MenuAction::Up).selected_idx == 1 - m.selected_idx,
        menu_after(m, MenuAction::Down).selected_idx == 1 - m.selected_idx,
        menu_after(m, MenuAction::Select).selected_idx == m.selected_idx,
{
}

} // verus!
