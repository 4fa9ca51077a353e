use rps_tournament::admin::{add_admin, is_admin, is_authorized_dev, is_authorized_sender, list_admins, remove_admin, Admins};
use rps_tournament::error::TourError;
use rps_tournament::hand::{evaluate, flip, score_increment, Hand, Outcome};
use rps_tournament::pairing::{pair_players, random_match_players};
use rps_tournament::parse::{parse_i32, split_words};
use rps_tournament::phase::{next_status, refusal_message, status_from_name, status_name, PhaseOp, SeasonStatus};
use rps_tournament::text::{decimal, hand_from_name, hand_name, hand_to_emoji, signed_decimal};

const HANDS: [Hand; 4] = [Hand::Rock, Hand::Paper, Hand::Scissors, Hand::Empty];

const ALL_STATUSES: [SeasonStatus; 7] = [
    SeasonStatus::Initial,
    SeasonStatus::StartSignup,
    SeasonStatus::StoppedSignup,
    SeasonStatus::StartGaming,
    SeasonStatus::RoundOngoing,
    SeasonStatus::StoppedGaming,
    SeasonStatus::Closed,
];

#[test]
fn every_hand_draws_against_itself() {
    for h in HANDS {
        assert_eq!(evaluate(h, h), Outcome::Draw);
    }
}

#[test]
fn a_real_hand_beats_a_forfeit() {
    for h in [Hand::Rock, Hand::Paper, Hand::Scissors] {
        assert_eq!(evaluate(h, Hand::Empty), Outcome::Won);
        assert_eq!(evaluate(Hand::Empty, h), Outcome::Lost);
    }
}

#[test]
fn cyclic_dominance() {
    assert_eq!(evaluate(Hand::Rock, Hand::Scissors), Outcome::Won);
    assert_eq!(evaluate(Hand::Scissors, Hand::Paper), Outcome::Won);
    assert_eq!(evaluate(Hand::Paper, Hand::Rock), Outcome::Won);
    assert_eq!(evaluate(Hand::Scissors, Hand::Rock), Outcome::Lost);
    assert_eq!(evaluate(Hand::Paper, Hand::Scissors), Outcome::Lost);
    assert_eq!(evaluate(Hand::Rock, Hand::Paper), Outcome::Lost);
}

#[test]
fn points_per_outcome() {
    assert_eq!(score_increment(Outcome::Won), 2);
    assert_eq!(score_increment(Outcome::Draw), 1);
    assert_eq!(score_increment(Outcome::Lost), 0);
    assert_eq!(flip(Outcome::Won), Outcome::Lost);
    assert_eq!(flip(Outcome::Draw), Outcome::Draw);
}

#[test]
fn phase_graph_edges() {
    let all = ALL_STATUSES;
    let allowed = |op: PhaseOp, s: SeasonStatus| match op {
        PhaseOp::StartSignup => s == SeasonStatus::Initial || s == SeasonStatus::StoppedSignup,
        PhaseOp::StopSignup => s == SeasonStatus::StartSignup,
        PhaseOp::StartGaming => s == SeasonStatus::StoppedSignup || s == SeasonStatus::StoppedGaming,
        PhaseOp::StopGaming => s == SeasonStatus::StartGaming,
    };
    for op in [PhaseOp::StartSignup, PhaseOp::StopSignup, PhaseOp::StartGaming, PhaseOp::StopGaming] {
        for s in all {
            let r = next_status(op, s);
            if allowed(op, s) {
                assert!(r.is_ok());
                assert_ne!(r.unwrap(), SeasonStatus::RoundOngoing);
            } else {
                assert_eq!(r, Err(TourError::InvalidPhaseTransition));
            }
        }
    }
    assert_eq!(next_status(PhaseOp::StartSignup, SeasonStatus::Initial), Ok(SeasonStatus::StartSignup));
    assert_eq!(next_status(PhaseOp::StartGaming, SeasonStatus::StoppedGaming), Ok(SeasonStatus::StartGaming));
}

#[test]
fn refusal_messages_depend_on_status() {
    assert_eq!(refusal_message(PhaseOp::StopSignup, SeasonStatus::RoundOngoing), "A round is going on, you cannot stop signing up.");
    assert_eq!(refusal_message(PhaseOp::StartSignup, SeasonStatus::StartSignup), "Signup has already started.");
    assert_eq!(
        refusal_message(PhaseOp::StartGaming, SeasonStatus::Initial),
        "The season just started. Please start the signup phase first, we need players."
    );
}

#[test]
fn status_names_round_trip() {
    for s in ALL_STATUSES {
        assert_eq!(status_from_name(status_name(s)), Some(s));
    }
    assert_eq!(status_name(SeasonStatus::RoundOngoing), "round_ongoing");
    assert_eq!(status_from_name("open"), None);
}

#[test]
fn hand_names_and_symbols() {
    for h in HANDS {
        assert_eq!(hand_from_name(hand_name(h)), Some(h));
    }
    assert_eq!(hand_name(Hand::Empty), "");
    assert_eq!(hand_from_name("lizard"), None);
    assert_eq!(hand_to_emoji(Hand::Rock), "🪨");
    assert_eq!(hand_to_emoji(Hand::Empty), "🚫");
}

#[test]
fn pairs_cover_every_player() {
    for n in 0..9usize {
        let hands: Vec<(i64, Hand)> = (0..n).map(|i| (i as i64, HANDS[i % 4])).collect();
        let pairs = random_match_players(hands.clone());
        assert_eq!(pairs.len(), (n + 1) / 2);
        for h in &hands {
            assert!(pairs.iter().any(|(a, b)| a == h || b == h));
        }
        if n % 2 == 1 {
            assert_eq!(pairs[0].0, pairs[0].1);
        }
    }
}

#[test]
fn pairing_is_shuffled() {
    let hands: Vec<(i64, Hand)> = (0..8).map(|i| (i as i64, Hand::Rock)).collect();
    let first = random_match_players(hands.clone());
    let differs = (0..50).any(|_| random_match_players(hands.clone()) != first);
    assert!(differs);
}

#[test]
fn self_matched_player_varies() {
    let hands: Vec<(i64, Hand)> = (0..7).map(|i| (i as i64, Hand::Paper)).collect();
    let first = random_match_players(hands.clone())[0].0;
    let differs = (0..50).any(|_| random_match_players(hands.clone())[0].0 != first);
    assert!(differs);
}

#[test]
fn pairs_from_the_back() {
    let s = vec![(1, Hand::Rock), (2, Hand::Paper), (3, Hand::Scissors), (4, Hand::Empty)];
    let pairs = pair_players(s, 0);
    assert_eq!(pairs, vec![((4, Hand::Empty), (3, Hand::Scissors)), ((2, Hand::Paper), (1, Hand::Rock))]);
    let pairs = pair_players(vec![(1, Hand::Rock), (2, Hand::Paper), (3, Hand::Scissors)], 1);
    assert_eq!(pairs, vec![((2, Hand::Paper), (2, Hand::Paper)), ((3, Hand::Scissors), (1, Hand::Rock))]);
    assert!(pair_players(Vec::new(), 0).is_empty());
}

#[test]
fn words_and_numbers() {
    assert_eq!(split_words("  Spring \t 4 "), vec!["Spring".to_string(), "4".to_string()]);
    assert!(split_words("   ").is_empty());
    assert_eq!(parse_i32("42"), Some(42));
    assert_eq!(parse_i32("-7"), Some(-7));
    assert_eq!(parse_i32("+3"), Some(3));
    assert_eq!(parse_i32("2147483647"), Some(i32::MAX));
    assert_eq!(parse_i32("-2147483648"), Some(i32::MIN));
    assert_eq!(parse_i32("2147483648"), None);
    assert_eq!(parse_i32("99999999999999"), None);
    assert_eq!(parse_i32("4x"), None);
    assert_eq!(parse_i32("-"), None);
    assert_eq!(parse_i32(""), None);
}

#[test]
fn decimal_text() {
    assert_eq!(decimal(0), "0");
    assert_eq!(decimal(1234), "1234");
    assert_eq!(decimal(u64::MAX), u64::MAX.to_string());
    assert_eq!(signed_decimal(-15), "-15");
    assert_eq!(signed_decimal(i64::MIN), i64::MIN.to_string());
}

#[test]
fn admin_table() {
    let mut a = Admins::with_owners();
    assert!(is_admin(&a, "juno0x153"));
    add_admin(&mut a, "eve".to_string());
    add_admin(&mut a, "eve".to_string());
    assert_eq!(list_admins(&a), vec!["juno0x153".to_string(), "novo2424".to_string(), "eve".to_string()]);
    assert!(is_authorized_sender(&a, Some("eve")));
    remove_admin(&mut a, "eve");
    assert!(!is_admin(&a, "eve"));
    assert!(!is_authorized_sender(&a, Some("eve")));
    assert!(!is_authorized_sender(&a, None));
    assert!(is_authorized_dev(Some("juno0x153")));
    assert!(!is_authorized_dev(Some("novo2424")));
}

#[test]
fn markdown_escaping() {
    assert_eq!(rps_tournament::text::escape_markdown("v1.2 - fixed (bugs)!"), "v1\\.2 \\- fixed \\(bugs\\)\\!");
    assert_eq!(rps_tournament::text::escape_markdown("plain"), "plain");
}

#[test]
fn wide_numbers() {
    assert_eq!(rps_tournament::parse::parse_i64("-9223372036854775808"), Some(i64::MIN));
    assert_eq!(rps_tournament::parse::parse_i64("9223372036854775807"), Some(i64::MAX));
    assert_eq!(rps_tournament::parse::parse_i64("9223372036854775808"), None);
    assert_eq!(rps_tournament::parse::parse_i64("1001234567"), Some(1001234567));
}

#[test]
fn pairs_use_each_entry_once() {
    for n in 1..9usize {
        let hands: Vec<(i64, Hand)> = (0..n).map(|i| ((i % 3) as i64, HANDS[i % 2])).collect();
        let pairs = random_match_players(hands.clone());
        let mut flat: Vec<(i64, Hand)> = pairs.iter().flat_map(|(a, b)| vec![*a, *b]).collect();
        let mut expected = hands.clone();
        if n % 2 == 1 {
            expected.push(pairs[0].0);
        }
        let key = |e: &(i64, Hand)| (e.0, hand_name(e.1).to_string());
        flat.sort_by_key(key);
        expected.sort_by_key(key);
        assert_eq!(flat, expected);
    }
}
