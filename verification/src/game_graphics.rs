use crate::game::Game;
use crate::menu::{Menu, MenuResult, MenuView};
use vstd::prelude::*;

verus! {

/// One character of a text on screen, as its ASCII code, and the column
/// it stands in.
#[derive(Debug, Clone, Copy, PartialEq, Eq, Structural)]
pub struct Glyph {
    pub symbol: u8,
    pub column: usize,
}

/// One button of the start menu.
#[derive(Debug, Clone, Copy, PartialEq, Eq, Structural)]
pub struct Button {
    pub entry: MenuResult,
    /// Whether the button is the highlighted one, which is drawn larger.
    pub selected: bool,
    /// The row of the button, counted from the top.
    pub row: usize,
}

/// The ASCII code of a decimal digit.
pub open spec fn digit_symbol(d: nat) -> u8 {
    (48 + d) as u8
}

/// A number written in decimal, without leading zeros.
pub open spec fn decimal(n: nat) -> Seq<u8>
    decreases n,
{
    if n < 10 {
        seq![digit_symbol(n)]
    } else {
        decimal(n / 10).push(digit_symbol(n % 10))
    }
}

/// A text laid out in columns from the left.
pub open spec fn glyphs_of(text: Seq<u8>) -> Seq<Glyph> {
    Seq::new(text.len(), |i: int| Glyph { symbol: text[i], column: i as usize })
}

/// The buttons of the start menu: start above quit, the highlighted one
/// marked.
pub open spec fn buttons_of(menu: MenuView) -> Seq<Button> {
    seq![
        Button { entry: MenuResult::Start, selected: menu.selected_idx == 0, row: 0 },
        Button { entry: MenuResult::Quit, selected: menu.selected_idx == 1, row: 1 },
    ]
}

fn digit_code(d: u32) -> (symbol: u8)
    requires
        d < 10,
    ensures
        symbol == digit_symbol(d as nat),
{
    48u8 + d as u8
}

/// Writes a score in decimal.
pub fn score_text(score: u32) -> (text: Vec<u8>)
    ensures
        text@ == decimal(score as nat),
{
    let mut text: Vec<u8> = Vec::new();
    text.push(digit_code(score % 10));
    let mut rest = score / 10;
    assert(text@ =~= seq![digit_symbol((score % 10) as nat)]);
    assert(decimal(score as nat) =~= (if rest > 0 {
        decimal(rest as nat)
    } else {
        Seq::empty()
    }) + text@);
    while rest > 0
        invariant
            decimal(score as nat) == (if rest > 0 {
                decimal(rest as nat)
            } else {
                Seq::empty()
            }) + text@,
        decreases rest,
    {
        let ghost shorter = text@;
        text.insert(0, digit_code(rest % 10));
        assert(text@ =~= seq![digit_symbol((rest % 10) as nat)] + shorter);
        assert(decimal(rest as nat) + shorter =~= (if rest / 10 > 0 {
            decimal((rest / 10) as nat)
        } else {
            Seq::empty()
        }) + text@);
        rest = rest / 10;
    }
    assert(Seq::<u8>::empty() + text@ =~= text@);
    text
}

fn lay_out(text: Vec<u8>) -> (glyphs: Vec<Glyph>)
    ensures
        glyphs@ == glyphs_of(text@),
{
    let mut glyphs: Vec<Glyph> = Vec::new();
    let mut i: usize = 0;
    while i < text.len()
        invariant
            i <= text.len(),
            glyphs@ == glyphs_of(text@).take(i as int),
        decreases text.len() - i,
    {
        glyphs.push(Glyph { symbol: text[i], column: i });
        proof {
            let whole = glyphs_of(text@);
            assert(glyphs@ =~= whole.take(i + 1));
        }
        i += 1;
    }
    proof {
        let whole = glyphs_of(text@);
        assert(whole.take(whole.len() as int) =~= whole);
    }
    glyphs
}

/// The score of a running game, as the characters to draw.
pub fn make_ui(game: &Game) -> (ui: Vec<Glyph>)
    ensures
        ui@ == glyphs_of(decimal(game@.score)),
{
    lay_out(score_text(game.get_score()))
}

/// The score a game ended with, as the characters to draw.
pub fn make_game_over_ui(score: u32) -> (ui: Vec<Glyph>)
    ensures
        ui@ == glyphs_of(decimal(score as nat)),
{
    lay_out(score_text(score))
}

/// The buttons of the start menu.
pub fn make_menu(menu: &Menu) -> (buttons: Vec<Button>)
    ensures
        buttons@ == buttons_of(menu@),
{
    let selected = menu.selected_idx;
    let mut buttons: Vec<Button> = Vec::new();
    buttons.push(Button { entry: MenuResult::Start, selected: selected == 0, row: 0 });
    buttons.push(Button { entry: MenuResult::Quit, selected: selected == 1, row: 1 });
    assert(buttons@ =~= buttons_of(menu@));
    buttons
}

/// A number below ten is written with one character, any other with one
/// more than its tenth.
pub proof fn lemma_decimal_len(n: nat)
    ensures
        decimal(n).len() >= 1,
        n >= 10 ==> decimal(n).len() == decimal(n / 10).len() + 1,
    decreases n,
{
    if n >= 10 {
        lemma_decimal_len(n / 10);
    }
}

} // verus!
