use rps_tournament::error::TourError;
use rps_tournament::hand::{Hand, Outcome};
use rps_tournament::pairing::pair_players;
use rps_tournament::scoring::MatchResult;
use rps_tournament::phase::SeasonStatus;
use rps_tournament::store::{CandidateStatus, Tournament};

fn now() -> String {
    "2024-05-01 12:00:00".to_string()
}

fn score_of(t: &Tournament, season_id: usize, player_id: i64) -> i64 {
    t.players
        .iter()
        .find(|p| p.season_id == season_id && p.player_id == player_id)
        .map(|p| p.score)
        .expect("player on roster")
}

/// A season in `start_gaming` with the given accepted players.
fn gaming_season(players: &[(i64, &str)]) -> (Tournament, usize) {
    let mut t = Tournament::new();
    let sid = t.start_new_season("Spring".to_string(), 8, now()).unwrap();
    t.start_signup_phase().unwrap();
    for (id, name) in players {
        t.sign_up(sid, *id, name.to_string()).unwrap();
        t.update_player_status_to_accepted(sid, name).unwrap();
    }
    t.stop_signup_phase().unwrap();
    t.start_gaming_phase().unwrap();
    (t, sid)
}

#[test]
fn spring_season_rock_against_paper() {
    let mut t = Tournament::new();
    let sid = t.start_new_season("Spring".to_string(), 4, now()).unwrap();
    assert_eq!(sid, 1);
    assert_eq!(t.seasons[0].status, SeasonStatus::Initial);
    t.start_signup_phase().unwrap();
    t.sign_up(sid, 11, "alice".to_string()).unwrap();
    t.sign_up(sid, 22, "bob".to_string()).unwrap();
    t.sign_up(sid, 33, "carol".to_string()).unwrap();
    assert_eq!(t.update_player_status_to_accepted(sid, "alice"), Ok(11));
    assert_eq!(t.update_player_status_to_accepted(sid, "bob"), Ok(22));
    assert_eq!(t.update_player_status_to_refused(sid, "carol"), Ok(33));
    assert_eq!(t.players.len(), 2);
    assert_eq!(t.candidates[2].status, CandidateStatus::Refused);
    t.stop_signup_phase().unwrap();
    t.start_gaming_phase().unwrap();
    let rid = t.start_new_round(sid, now()).unwrap();
    assert_eq!(t.rounds[rid - 1].round_number, 1);
    assert_eq!(t.seasons[0].status, SeasonStatus::RoundOngoing);
    assert!(t.insert_player_hand_choice(rid, 11, Hand::Rock, now()));
    assert!(t.insert_player_hand_choice(rid, 22, Hand::Paper, now()));
    let closed = t.close_round(sid, "2024-05-01 13:00:00".to_string()).unwrap();
    assert!(closed.forfeited.is_empty());
    assert_eq!(closed.results.len(), 1);
    assert_eq!(score_of(&t, sid, 22), 2);
    assert_eq!(score_of(&t, sid, 11), 0);
    assert_eq!(t.rounds[rid - 1].end_time, Some("2024-05-01 13:00:00".to_string()));
    assert_eq!(t.seasons[0].status, SeasonStatus::StartGaming);
}

#[test]
fn round_with_two_forfeits() {
    let (mut t, sid) = gaming_season(&[(1, "ann"), (2, "ben"), (3, "cat")]);
    let rid = t.start_new_round(sid, now()).unwrap();
    assert!(t.insert_player_hand_choice(rid, 1, Hand::Scissors, now()));
    let closed = t.close_round(sid, now()).unwrap();
    assert_eq!(closed.forfeited, vec![2, 3]);
    let empty_rows = t.moves.iter().filter(|m| m.round_id == rid && m.hand == Hand::Empty).count();
    assert_eq!(empty_rows, 2);
    assert_eq!(closed.results.len(), 2);
    for r in &closed.results {
        if r.player_hand == Hand::Empty && r.opponent_hand != Hand::Empty {
            assert_eq!(r.game_status, Outcome::Lost);
        }
        if r.player_hand != Hand::Empty && r.opponent_hand == Hand::Empty {
            assert_eq!(r.game_status, Outcome::Won);
        }
    }
    // Ann either beats a forfeit or draws against herself twice over.
    assert_eq!(score_of(&t, sid, 1), 2);
    for m in t.moves.iter().filter(|m| m.round_id == rid) {
        assert!(m.game_status.is_some());
    }
}

#[test]
fn stop_signup_during_round_is_refused() {
    let (mut t, sid) = gaming_season(&[(1, "ann"), (2, "ben")]);
    t.start_new_round(sid, now()).unwrap();
    assert_eq!(t.stop_signup_phase(), Err(TourError::InvalidPhaseTransition));
    assert_eq!(t.seasons[0].status, SeasonStatus::RoundOngoing);
}

#[test]
fn second_move_in_a_round_is_refused() {
    let (mut t, sid) = gaming_season(&[(1, "ann"), (2, "ben")]);
    let rid = t.start_new_round(sid, now()).unwrap();
    assert!(t.insert_player_hand_choice(rid, 1, Hand::Rock, now()));
    assert!(!t.insert_player_hand_choice(rid, 1, Hand::Paper, now()));
    assert!(!t.insert_player_hand_choice(rid, 1, Hand::Rock, now()));
    let rows: Vec<_> = t.moves.iter().filter(|m| m.round_id == rid && m.player_id == 1).collect();
    assert_eq!(rows.len(), 1);
    assert_eq!(rows[0].hand, Hand::Rock);
}

#[test]
fn second_season_is_refused_while_one_runs() {
    let mut t = Tournament::new();
    t.start_new_season("Spring".to_string(), 4, now()).unwrap();
    assert_eq!(t.start_new_season("Summer".to_string(), 4, now()), Err(TourError::AlreadyActive));
    assert_eq!(t.seasons.len(), 1);
    assert_eq!(t.stop_current_season(now()), Ok(1));
    assert!(!t.seasons[0].active);
    assert_eq!(t.seasons[0].status, SeasonStatus::Closed);
    assert_eq!(t.start_new_season("Summer".to_string(), 6, now()), Ok(2));
    assert_eq!(t.seasons.iter().filter(|s| s.active).count(), 1);
}

#[test]
fn stop_without_season_fails() {
    let mut t = Tournament::new();
    assert_eq!(t.stop_current_season(now()), Err(TourError::NoActiveSeason));
    assert_eq!(t.start_signup_phase(), Err(TourError::NoActiveSeason));
}

#[test]
fn duplicate_signup_is_refused() {
    let mut t = Tournament::new();
    let sid = t.start_new_season("Spring".to_string(), 4, now()).unwrap();
    assert_eq!(t.sign_up(sid, 1, "ann".to_string()), Err(TourError::WrongPhase));
    t.start_signup_phase().unwrap();
    assert_eq!(t.sign_up(sid, 1, "ann".to_string()), Ok(()));
    assert_eq!(t.sign_up(sid, 1, "ann2".to_string()), Err(TourError::AlreadySignedUp));
    assert_eq!(t.candidates.len(), 1);
    assert_eq!(t.candidates[0].username, "ann");
}

#[test]
fn accept_without_pending_candidate_fails() {
    let mut t = Tournament::new();
    let sid = t.start_new_season("Spring".to_string(), 4, now()).unwrap();
    t.start_signup_phase().unwrap();
    assert_eq!(t.update_player_status_to_accepted(sid, "ghost"), Err(TourError::NoPendingCandidate));
    t.sign_up(sid, 1, "ann".to_string()).unwrap();
    assert_eq!(t.update_player_status_to_accepted(sid, "ann"), Ok(1));
    assert_eq!(t.update_player_status_to_accepted(sid, "ann"), Err(TourError::NoPendingCandidate));
    assert_eq!(t.players.len(), 1);
    assert_eq!(t.players[0].score, 0);
}

#[test]
fn round_needs_gaming_phase() {
    let mut t = Tournament::new();
    let sid = t.start_new_season("Spring".to_string(), 4, now()).unwrap();
    assert_eq!(t.start_new_round(sid, now()), Err(TourError::WrongPhase));
    assert_eq!(t.close_round(sid, now()).err(), Some(TourError::WrongPhase));
    assert_eq!(t.end_current_round(sid, now()), Err(TourError::WrongPhase));
}

#[test]
fn round_numbers_count_up() {
    let (mut t, sid) = gaming_season(&[(1, "ann"), (2, "ben")]);
    assert_eq!(t.get_next_round_number(sid), Ok(1));
    let r1 = t.start_new_round(sid, now()).unwrap();
    assert_eq!(t.get_current_round_id(sid), Some(r1));
    t.close_round(sid, now()).unwrap();
    assert_eq!(t.get_current_round_id(sid), None);
    assert_eq!(t.get_next_round_number(sid), Ok(2));
    let r2 = t.start_new_round(sid, now()).unwrap();
    assert_eq!(t.rounds[r2 - 1].round_number, 2);
}

#[test]
fn scoring_rejects_players_off_the_roster() {
    let (mut t, sid) = gaming_season(&[(1, "ann"), (2, "ben")]);
    let rid = t.start_new_round(sid, now()).unwrap();
    let bad = vec![MatchResult {
        player_id: 1,
        player_hand: Hand::Rock,
        opponent_id: 99,
        opponent_hand: Hand::Paper,
        game_status: Outcome::Lost,
        round_id: rid,
    }];
    assert_eq!(t.update_player_score(&bad, sid), Err(TourError::StoreError));
    assert_eq!(score_of(&t, sid, 1), 0);
}

#[test]
fn self_match_scores_both_roles() {
    let (mut t, sid) = gaming_season(&[(1, "ann"), (2, "ben"), (3, "cat")]);
    let rid = t.start_new_round(sid, now()).unwrap();
    let shuffled = vec![(1, Hand::Rock), (2, Hand::Paper), (3, Hand::Scissors)];
    let pairs = pair_players(shuffled, 0);
    assert_eq!(pairs[0], ((1, Hand::Rock), (1, Hand::Rock)));
    assert_eq!(pairs[1], ((3, Hand::Scissors), (2, Hand::Paper)));
    let results = t.settle_round(sid, rid, &pairs, now()).unwrap();
    assert_eq!(results.len(), 2);
    assert_eq!(score_of(&t, sid, 1), 2);
    assert_eq!(score_of(&t, sid, 3), 2);
    assert_eq!(score_of(&t, sid, 2), 0);
    assert_eq!(t.seasons[0].status, SeasonStatus::StartGaming);
}

#[test]
fn forfeits_are_roster_minus_movers() {
    let (mut t, sid) = gaming_season(&[(1, "ann"), (2, "ben"), (3, "cat"), (4, "dan")]);
    let rid = t.start_new_round(sid, now()).unwrap();
    assert!(t.insert_player_hand_choice(rid, 3, Hand::Paper, now()));
    let forfeited = t.play_empty_hands_for_players(sid, rid, now());
    assert_eq!(forfeited, vec![1, 2, 4]);
    assert_eq!(t.moves.len(), 4);
    assert!(t.play_empty_hands_for_players(sid, rid, now()).is_empty());
    let hands = t.get_player_hands(rid, sid);
    assert_eq!(hands, vec![(3, Hand::Paper), (1, Hand::Empty), (2, Hand::Empty), (4, Hand::Empty)]);
    assert!(t.get_player_hands(rid, sid + 1).is_empty());
}

#[test]
fn stored_tables_are_checked() {
    let (mut t, sid) = gaming_season(&[(1, "ann"), (2, "ben")]);
    assert!(t.check_wf());
    t.start_new_round(sid, now()).unwrap();
    assert!(t.check_wf());
    t.seasons[0].active = false;
    assert!(!t.check_wf());
    t.seasons[0].active = true;
    t.players[1].player_id = 1;
    assert!(!t.check_wf());
}

#[test]
fn announcement_and_standings() {
    let (mut t, sid) = gaming_season(&[(1, "ann"), (2, "ben"), (3, "cat")]);
    let rid = t.start_new_round(sid, now()).unwrap();
    let pairs = pair_players(vec![(1, Hand::Rock), (2, Hand::Rock), (3, Hand::Empty)], 2);
    let results = t.settle_round(sid, rid, &pairs, now()).unwrap();
    let text = t.announce_results(sid, &results).unwrap();
    assert_eq!(
        text,
        "@cat did not play a hand and lost.\n@ben played 🪨 and drew with @ann's 🪨\n"
    );
    let board = t.fetch_leaderboard(sid);
    let order: Vec<i64> = board.iter().map(|e| e.player_id).collect();
    assert_eq!(order, vec![3, 1, 2]);
    assert_eq!(board[0].score, 2);
    assert_eq!(board[1].score, 1);
}

#[test]
fn refusal_covers_every_pending_signup_of_the_name() {
    let mut t = Tournament::new();
    let sid = t.start_new_season("Spring".to_string(), 8, now()).unwrap();
    t.start_signup_phase().unwrap();
    t.sign_up(sid, 1, "unknown".to_string()).unwrap();
    t.sign_up(sid, 2, "unknown".to_string()).unwrap();
    t.sign_up(sid, 3, "zoe".to_string()).unwrap();
    assert_eq!(t.update_player_status_to_refused(sid, "unknown"), Ok(1));
    assert_eq!(t.candidates[0].status, CandidateStatus::Refused);
    assert_eq!(t.candidates[1].status, CandidateStatus::Refused);
    assert_eq!(t.candidates[2].status, CandidateStatus::Pending);
    assert_eq!(t.update_player_status_to_refused(sid, "unknown"), Err(TourError::NoPendingCandidate));
    assert!(t.players.is_empty());
}

#[test]
fn a_run_of_submissions_keeps_the_first() {
    let (mut t, sid) = gaming_season(&[(1, "ann"), (2, "ben")]);
    let rid = t.start_new_round(sid, now()).unwrap();
    let results: Vec<bool> = [Hand::Scissors, Hand::Rock, Hand::Paper, Hand::Scissors]
        .iter()
        .map(|h| t.insert_player_hand_choice(rid, 2, *h, now()))
        .collect();
    assert_eq!(results, vec![true, false, false, false]);
    let rows: Vec<_> = t.moves.iter().filter(|m| m.round_id == rid && m.player_id == 2).collect();
    assert_eq!(rows.len(), 1);
    assert_eq!(rows[0].hand, Hand::Scissors);
}
