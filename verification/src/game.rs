use crate::chance::toss;
use std::collections::VecDeque;
use vstd::prelude::*;

verus! {

/// Number of levels of the tree that the game keeps track of.
pub const TRACK_LEN: usize = 5;

/// What grows out of one level of the tree.
#[derive(Debug, Clone, Copy, PartialEq, Eq, Structural)]
pub enum Branch {
    /// A bare log.
    Clear,
    /// A branch on the left side.
    Left,
    /// A branch on the right side.
    Right,
}

/// The side of the tree the player stands on.
#[derive(Debug, Clone, Copy, PartialEq, Eq, Structural)]
pub enum PlayerPos {
    Left,
    Right,
}

/// A chop, named after the side it is made from.
#[derive(Debug, Clone, Copy, PartialEq, Eq, Structural)]
pub enum PlayerAction {
    ChopLeft,
    ChopRight,
}

/// What an update of the game reports.
#[derive(Debug, Clone, Copy, PartialEq, Eq, Structural)]
pub enum GameEvent {
    /// The chop was made and the player is still alive.
    Performed(PlayerAction),
    /// The player is dead; the payload is the score.
    Finished(u32),
}

/// The mathematical content of a [`Game`].
pub struct GameView {
    /// The levels of the tree, lowest first.
    pub track: Seq<Branch>,
    pub side: PlayerPos,
    pub alive: bool,
    pub score: nat,
}

/// The side a chop puts the player on.
pub open spec fn side_after(action: PlayerAction) -> PlayerPos {
    match action {
        PlayerAction::ChopLeft => PlayerPos::Left,
        PlayerAction::ChopRight => PlayerPos::Right,
    }
}

/// A player is hit by a branch that grows on the side they stand on.
pub open spec fn collides(side: PlayerPos, branch: Branch) -> bool {
    (side == PlayerPos::Left && branch == Branch::Left) || (side == PlayerPos::Right && branch
        == Branch::Right)
}

/// Level `i` and the level above it both carry a branch.
pub open spec fn branches_meet_at(track: Seq<Branch>, i: int) -> bool {
    track[i] != Branch::Clear && track[i + 1] != Branch::Clear
}

/// No two neighbouring levels both carry a branch.
pub open spec fn no_adjacent_branches(track: Seq<Branch>) -> bool {
    forall|i: int| 0 <= i && i + 1 < track.len() ==> !#[trigger] branches_meet_at(track, i)
}

/// A track the game can be in: full length, branches never on two levels in a row.
pub open spec fn valid_track(track: Seq<Branch>) -> bool {
    track.len() == TRACK_LEN && no_adjacent_branches(track)
}

/// The track of a new game.
pub open spec fn clear_track() -> Seq<Branch> {
    Seq::new(TRACK_LEN as nat, |i: int| Branch::Clear)
}

/// A game before the first chop: a tree of bare logs, the player alive on
/// the left, no score.
pub open spec fn new_game() -> GameView {
    GameView { track: clear_track(), side: PlayerPos::Left, alive: true, score: 0 }
}

/// The level that is put on top of `below`: the drawn one above a bare log,
/// a bare log above a branch.
pub open spec fn grown_level(below: Branch, drawn: Branch) -> Branch {
    if below == Branch::Clear {
        drawn
    } else {
        Branch::Clear
    }
}

/// Whether a chop moves the tree down, so that the score is raised and a
/// new level is put on top.
pub open spec fn chop_lands(g: GameView, action: PlayerAction) -> bool {
    !collides(side_after(action), g.track[0])
}

/// Whether an update with `action` looks at what chance offers: the chop
/// lands and the top of the tree is a bare log.
pub open spec fn draws(g: GameView, action: PlayerAction) -> bool {
    chop_lands(g, action) && g.track.last() == Branch::Clear
}

/// One update of the game: the state after `action`, where `drawn` is the
/// level that chance offers for the top of the tree.
pub open spec fn advance(g: GameView, action: PlayerAction, drawn: Branch) -> GameView {
    let side = side_after(action);
    if chop_lands(g, action) {
        let rest = g.track.drop_first();
        GameView {
            track: rest.push(grown_level(rest.last(), drawn)),
            side,
            alive: g.alive && !collides(side, rest[0]),
            score: g.score + 1,
        }
    } else {
        GameView { track: g.track, side, alive: false, score: g.score }
    }
}

/// The event reported for `action` by an update that ends in state `after`.
pub open spec fn event_of(after: GameView, action: PlayerAction) -> GameEvent {
    if after.alive {
        GameEvent::Performed(action)
    } else {
        GameEvent::Finished(after.score as u32)
    }
}

impl Branch {
    /// The branch that a coin toss stands for: 0 is left, anything else right.
    pub open spec fn of_toss(side: i32) -> Branch {
        if side == 0 {
            Branch::Left
        } else {
            Branch::Right
        }
    }

    /// Turns a coin toss into a branch.
    pub fn from_toss(side: i32) -> (branch: Branch)
        ensures
            branch == Branch::of_toss(side),
            branch != Branch::Clear,
    {
        if side == 0 {
            Branch::Left
        } else {
            Branch::Right
        }
    }

    /// Draws a branch at random, left or right.
    pub fn random() -> (branch: Branch)
        ensures
            branch == Branch::Left || branch == Branch::Right,
    {
        Branch::from_toss(toss())
    }
}

impl PlayerAction {
    /// The side this chop is made from.
    pub fn side(self) -> (side: PlayerPos)
        ensures
            side == side_after(self),
    {
        match self {
            PlayerAction::ChopLeft => PlayerPos::Left,
            PlayerAction::ChopRight => PlayerPos::Right,
        }
    }
}

struct Player {
    pos: PlayerPos,
    alive: bool,
    score: u32,
}

impl Player {
    fn apply_action(&mut self, action: PlayerAction)
        ensures
            final(self).pos == side_after(action),
            final(self).alive == old(self).alive,
            final(self).score == old(self).score,
    {
        self.pos = action.side();
    }

    fn collides_with(&self, branch: &Branch) -> (hit: bool)
        ensures
            hit == collides(self.pos, *branch),
    {
        self.pos == PlayerPos::Left && *branch == Branch::Left || self.pos == PlayerPos::Right
            && *branch == Branch::Right
    }
}

/// The falling tree and the player beside it.
pub struct Game {
    player: Player,
    tree: VecDeque<Branch>,
}

impl View for Game {
    type V = GameView;

    closed spec fn view(&self) -> GameView {
        GameView {
            track: self.tree@,
            side: self.player.pos,
            alive: self.player.alive,
            score: self.player.score as nat,
        }
    }
}

impl Game {
    /// The track is valid and the score is one that a `u32` holds.
    pub open spec fn wf(&self) -> bool {
        valid_track(self@.track) && self@.score <= u32::MAX
    }

    /// Whether `action` can be taken without the score leaving `u32`.
    pub open spec fn can_take(&self, action: PlayerAction) -> bool {
        chop_lands(self@, action) ==> self@.score < u32::MAX
    }

    /// A new game: a tree of bare logs, the player alive on the left with no score.
    pub fn new() -> (game: Game)
        ensures
            game.wf(),
            game@ == new_game(),
    {
        let mut tree: VecDeque<Branch> = VecDeque::new();
        let mut level: usize = 0;
        while level < TRACK_LEN
            invariant
                level <= TRACK_LEN,
                tree@ =~= Seq::new(level as nat, |i: int| Branch::Clear),
            decreases TRACK_LEN - level,
        {
            tree.push_back(Branch::Clear);
            level += 1;
        }
        let player = Player { pos: PlayerPos::Left, alive: true, score: 0 };
        Game { player, tree }
    }

    /// Whether `action` would move the tree and find a bare log on top, so
    /// that the next level has to be drawn.
    pub fn needs_draw(&self, action: PlayerAction) -> (needed: bool)
        requires
            self.wf(),
        ensures
            needed == draws(self@, action),
    {
        let side = action.side();
        let lowest = self.tree[0];
        let hit = side == PlayerPos::Left && lowest == Branch::Left || side == PlayerPos::Right
            && lowest == Branch::Right;
        !hit && self.tree[TRACK_LEN - 1] == Branch::Clear
    }

    /// Takes `action`, with `drawn` as the level that chance offers for the
    /// top of the tree.
    ///
    /// A chop into a branch on the lowest level kills the player and leaves
    /// the tree and the score as they are. Any other chop removes the lowest
    /// level and raises the score; the player dies if the level that comes
    /// down carries a branch on their side. The tree is then topped up: with
    /// `drawn` above a bare log, with a bare log above a branch.
    pub fn update_with(&mut self, action: PlayerAction, drawn: Branch) -> (event: GameEvent)
        requires
            old(self).wf(),
            old(self).can_take(action),
        ensures
            final(self).wf(),
            final(self)@ == advance(old(self)@, action, drawn),
            event == event_of(final(self)@, action),
    {
        self.player.apply_action(action);
        let lowest_branch = self.tree[0];
        if self.player.collides_with(&lowest_branch) {
            self.player.alive = false;
        } else {
            self.tree.pop_front();
            self.player.score += 1;
            let lowest_branch = self.tree[0];
            if self.player.collides_with(&lowest_branch) {
                self.player.alive = false;
            }
            let new_branch = if self.tree[TRACK_LEN - 2] == Branch::Clear {
                drawn
            } else {
                Branch::Clear
            };
            self.tree.push_back(new_branch);
            proof {
                lemma_advance_keeps_track_valid(old(self)@, action, drawn);
            }
        }
        if self.player.alive {
            GameEvent::Performed(action)
        } else {
            GameEvent::Finished(self.player.score)
        }
    }

    /// Takes `action`; where the tree needs a new level above a bare log,
    /// that level is a branch drawn at random.
    pub fn update(&mut self, action: PlayerAction) -> (event: GameEvent)
        requires
            old(self).wf(),
            old(self).can_take(action),
        ensures
            final(self).wf(),
            exists|drawn: Branch|
                drawn != Branch::Clear
                    && final(self)@ == #[trigger] advance(old(self)@, action, drawn),
            event == event_of(final(self)@, action),
    {
        let drawn = if self.needs_draw(action) {
            Branch::random()
        } else {
            Branch::Left
        };
        self.update_with(action, drawn)
    }

    /// The number of logs chopped so far.
    pub fn get_score(&self) -> (score: u32)
        ensures
            score == self@.score,
    {
        self.player.score
    }

    /// The side of the tree the player stands on.
    pub fn get_player_pos(&self) -> (side: PlayerPos)
        ensures
            side == self@.side,
    {
        self.player.pos
    }

    /// Whether the player has not been hit yet.
    pub fn is_alive(&self) -> (alive: bool)
        ensures
            alive == self@.alive,
    {
        self.player.alive
    }

    /// The levels of the tree, lowest first.
    pub fn tree(&self) -> (tree: &VecDeque<Branch>)
        ensures
            tree@ == self@.track,
    {
        &self.tree
    }

    /// The lowest level of the tree: the one the next chop meets.
    pub fn front(&self) -> (branch: Branch)
        requires
            self.wf(),
        ensures
            branch == self@.track[0],
    {
        self.tree[0]
    }
}

/// An update leaves a valid track valid: its length stays the same and no
/// two neighbouring levels both carry a branch, whatever is drawn.
pub proof fn lemma_advance_keeps_track_valid(g: GameView, action: PlayerAction, drawn: Branch)
    requires
        valid_track(g.track),
    ensures
        valid_track(advance(g, action, drawn).track),
{
    let next = advance(g, action, drawn).track;
    if chop_lands(g, action) {
        let rest = g.track.drop_first();
        assert(next.len() == TRACK_LEN);
        assert forall|i: int| 0 <= i && i + 1 < next.len() implies !#[trigger] branches_meet_at(
            next,
            i,
        ) by {
            if i + 1 < rest.len() {
                assert(!branches_meet_at(g.track, i + 1));
            }
        }
    }
}

/// Where an update does not look at what chance offers, it comes to the
/// same whatever is offered.
pub proof fn lemma_unused_draw_is_ignored(
    g: GameView,
    action: PlayerAction,
    drawn: Branch,
    other: Branch,
)
    requires
        g.track.len() >= 2,
        !draws(g, action),
    ensures
        advance(g, action, drawn) == advance(g, action, other),
{
}

/// An update never lowers the score and raises it by at most one, and it
/// never brings a dead player back.
pub proof fn lemma_advance_keeps_score(g: GameView, action: PlayerAction, drawn: Branch)
    ensures
        g.score <= advance(g, action, drawn).score <= g.score + 1,
        !g.alive ==> !advance(g, action, drawn).alive,
{
}

/// A chop made on the side of a branch on the lowest level always kills:
/// the player is dead afterwards, the tree and the score are as before, and
/// the event is `Finished` with the score held before the update.
pub proof fn lemma_collision_finishes(g: GameView, action: PlayerAction, drawn: Branch)
    requires
        collides(side_after(action), g.track[0]),
    ensures
        !advance(g, action, drawn).alive,
        advance(g, action, drawn).track == g.track,
        advance(g, action, drawn).score == g.score,
        event_of(advance(g, action, drawn), action) == GameEvent::Finished(g.score as u32),
{
}

/// Once the player is dead, an update whose chop does not land leaves the
/// score as it is. (A chop that lands moves the tree and counts, alive or not.)
pub proof fn lemma_score_is_frozen_after_death(g: GameView, action: PlayerAction, drawn: Branch)
    requires
        !g.alive,
        !chop_lands(g, action),
    ensures
        advance(g, action, drawn).score == g.score,
        advance(g, action, drawn).track == g.track,
        !advance(g, action, drawn).alive,
{
}

/// The state after a sequence of updates, each given by its action and the
/// level that chance offered.
pub open spec fn advance_all(g: GameView, moves: Seq<(PlayerAction, Branch)>) -> GameView
    decreases moves.len(),
{
    if moves.len() == 0 {
        g
    } else {
        advance(advance_all(g, moves.drop_last()), moves.last().0, moves.last().1)
    }
}

/// Whatever is played from a valid track, the track stays valid: it keeps
/// its length and never shows branches on two neighbouring levels.
pub proof fn lemma_track_stays_valid(g: GameView, moves: Seq<(PlayerAction, Branch)>)
    requires
        valid_track(g.track),
    ensures
        valid_track(advance_all(g, moves).track),
    decreases moves.len(),
{
    if moves.len() > 0 {
        lemma_track_stays_valid(g, moves.drop_last());
        lemma_advance_keeps_track_valid(
            advance_all(g, moves.drop_last()),
            moves.last().0,
            moves.last().1,
        );
    }
}

/// Whatever is played, the score never goes down, it rises by at most the
/// number of updates, and a dead player stays dead.
pub proof fn lemma_score_never_decreases(g: GameView, moves: Seq<(PlayerAction, Branch)>)
    ensures
        g.score <= advance_all(g, moves).score <= g.score + moves.len(),
        !g.alive ==> !advance_all(g, moves).alive,
    decreases moves.len(),
{
    if moves.len() > 0 {
        lemma_score_never_decreases(g, moves.drop_last());
        lemma_advance_keeps_score(
            advance_all(g, moves.drop_last()),
            moves.last().0,
            moves.last().1,
        );
    }
}

} // verus!
