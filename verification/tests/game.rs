use lumber::game::{Branch, Game, GameEvent, PlayerAction, PlayerPos};

fn track(game: &Game) -> Vec<Branch> {
    game.tree().iter().copied().collect()
}

fn no_adjacent_branches(track: &[Branch]) -> bool {
    track
        .windows(2)
        .all(|pair| pair[0] == Branch::Clear || pair[1] == Branch::Clear)
}

#[test]
fn new_game_is_clear() {
    let game = Game::new();
    assert_eq!(game.get_score(), 0);
    assert_eq!(game.get_player_pos(), PlayerPos::Left);
    assert!(game.is_alive());
    assert_eq!(track(&game), vec![Branch::Clear; 5]);
    assert_eq!(game.front(), Branch::Clear);
}

#[test]
fn toss_gives_left_for_zero_and_right_otherwise() {
    assert_eq!(Branch::from_toss(0), Branch::Left);
    assert_eq!(Branch::from_toss(1), Branch::Right);
    assert_eq!(Branch::from_toss(-3), Branch::Right);
}

#[test]
fn random_branch_is_never_clear() {
    let mut lefts = 0;
    let mut rights = 0;
    for _ in 0..2000 {
        match Branch::random() {
            Branch::Left => lefts += 1,
            Branch::Right => rights += 1,
            Branch::Clear => panic!("a drawn branch is left or right"),
        }
    }
    assert!(lefts > 0);
    assert!(rights > 0);
}

#[test]
fn action_names_its_side() {
    assert_eq!(PlayerAction::ChopLeft.side(), PlayerPos::Left);
    assert_eq!(PlayerAction::ChopRight.side(), PlayerPos::Right);
}

#[test]
fn first_chop_scores_and_draws_a_branch() {
    let mut game = Game::new();
    let event = game.update(PlayerAction::ChopRight);
    assert_eq!(event, GameEvent::Performed(PlayerAction::ChopRight));
    assert_eq!(game.get_score(), 1);
    assert_eq!(game.get_player_pos(), PlayerPos::Right);
    let track = track(&game);
    assert_eq!(&track[..4], &[Branch::Clear; 4]);
    assert!(track[4] != Branch::Clear);
}

#[test]
fn drawn_level_goes_on_top_of_a_bare_log() {
    let mut game = Game::new();
    game.update_with(PlayerAction::ChopLeft, Branch::Right);
    assert_eq!(
        track(&game),
        vec![Branch::Clear, Branch::Clear, Branch::Clear, Branch::Clear, Branch::Right]
    );
}

#[test]
fn bare_log_goes_on_top_of_a_branch() {
    let mut game = Game::new();
    game.update_with(PlayerAction::ChopLeft, Branch::Right);
    game.update_with(PlayerAction::ChopLeft, Branch::Left);
    assert_eq!(
        track(&game),
        vec![Branch::Clear, Branch::Clear, Branch::Clear, Branch::Right, Branch::Clear]
    );
}

#[test]
fn forced_draws_lead_to_the_branch_that_kills() {
    let forced = [Branch::Left, Branch::Clear, Branch::Right, Branch::Clear];
    let mut game = Game::new();
    for (i, drawn) in forced.iter().enumerate() {
        let event = game.update_with(PlayerAction::ChopLeft, *drawn);
        assert_eq!(event, GameEvent::Performed(PlayerAction::ChopLeft));
        assert_eq!(game.get_score(), i as u32 + 1);
        assert!(game.is_alive());
    }
    assert_eq!(
        track(&game),
        vec![Branch::Clear, Branch::Left, Branch::Clear, Branch::Right, Branch::Clear]
    );

    // The chop brings the left branch down onto the player: scored, then dead.
    let event = game.update_with(PlayerAction::ChopLeft, Branch::Left);
    assert_eq!(event, GameEvent::Finished(5));
    assert_eq!(game.get_score(), 5);
    assert!(!game.is_alive());
    assert_eq!(game.front(), Branch::Left);
    let at_death = track(&game);

    // Left at the front, player on the left: the score of before is reported.
    let before = game.get_score();
    let event = game.update_with(PlayerAction::ChopLeft, Branch::Right);
    assert_eq!(event, GameEvent::Finished(before));
    assert_eq!(game.get_score(), before);
    assert_eq!(track(&game), at_death);
}

#[test]
fn chop_into_a_branch_kills_and_keeps_the_tree() {
    for (action, branch) in [
        (PlayerAction::ChopLeft, Branch::Left),
        (PlayerAction::ChopRight, Branch::Right),
    ] {
        let mut game = Game::new();
        // Four chops from the other side bring the branch down to the front.
        let other = match action {
            PlayerAction::ChopLeft => PlayerAction::ChopRight,
            PlayerAction::ChopRight => PlayerAction::ChopLeft,
        };
        game.update_with(other, branch);
        for _ in 0..4 {
            let event = game.update_with(other, Branch::Clear);
            assert_eq!(event, GameEvent::Performed(other));
        }
        assert_eq!(game.front(), branch);
        assert_eq!(game.get_score(), 5);
        let before = track(&game);

        let event = game.update(action);
        assert_eq!(event, GameEvent::Finished(5));
        assert!(!game.is_alive());
        assert_eq!(game.get_score(), 5);
        assert_eq!(track(&game), before);
    }
}

#[test]
fn chop_from_the_other_side_passes_a_branch() {
    let mut game = Game::new();
    game.update_with(PlayerAction::ChopRight, Branch::Left);
    for _ in 0..4 {
        game.update_with(PlayerAction::ChopRight, Branch::Clear);
    }
    assert_eq!(game.front(), Branch::Left);
    let event = game.update_with(PlayerAction::ChopRight, Branch::Clear);
    assert_eq!(event, GameEvent::Performed(PlayerAction::ChopRight));
    assert_eq!(game.get_score(), 6);
    assert!(game.is_alive());
}

#[test]
fn dead_player_stays_dead() {
    let mut game = Game::new();
    game.update_with(PlayerAction::ChopRight, Branch::Left);
    for _ in 0..3 {
        game.update_with(PlayerAction::ChopRight, Branch::Clear);
    }
    let event = game.update_with(PlayerAction::ChopLeft, Branch::Clear);
    assert_eq!(event, GameEvent::Finished(5));
    assert!(!game.is_alive());
    let event = game.update_with(PlayerAction::ChopLeft, Branch::Clear);
    assert_eq!(event, GameEvent::Finished(5));
    assert!(!game.is_alive());
}

#[test]
fn random_play_keeps_the_track_valid_and_the_score_rising() {
    for round in 0..200 {
        let mut game = Game::new();
        let mut score = 0;
        for step in 0..50 {
            let action = if (round + step) % 3 == 0 {
                PlayerAction::ChopRight
            } else {
                PlayerAction::ChopLeft
            };
            let front = game.front();
            let alive = game.is_alive();
            let side = action.side();
            let hit = (side == PlayerPos::Left && front == Branch::Left)
                || (side == PlayerPos::Right && front == Branch::Right);
            let before = track(&game);

            let event = game.update(action);

            let after = track(&game);
            assert_eq!(after.len(), 5);
            assert!(no_adjacent_branches(&after));
            assert_eq!(game.get_player_pos(), side);
            assert!(game.get_score() >= score);
            if hit {
                assert_eq!(event, GameEvent::Finished(score));
                assert_eq!(game.get_score(), score);
                assert_eq!(after, before);
                assert!(!game.is_alive());
            } else {
                assert_eq!(game.get_score(), score + 1);
                assert_eq!(&after[..4], &before[1..]);
                if before[4] == Branch::Clear {
                    assert!(after[4] != Branch::Clear);
                } else {
                    assert_eq!(after[4], Branch::Clear);
                }
            }
            if !alive {
                assert!(!game.is_alive());
            }
            match event {
                GameEvent::Performed(done) => {
                    assert!(game.is_alive());
                    assert_eq!(done, action);
                }
                GameEvent::Finished(points) => {
                    assert!(!game.is_alive());
                    assert_eq!(points, game.get_score());
                }
            }
            score = game.get_score();
        }
    }
}
