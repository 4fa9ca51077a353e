use vstd::prelude::*;

verus! {

/// A hand played in a round; `Empty` stands for a forfeited move.
#[derive(Debug, Clone, Copy, PartialEq, Eq, Structural)]
pub enum Hand {
    Rock,
    Paper,
    Scissors,
    Empty,
}

/// How a match ended for the first-listed player.
#[derive(Debug, Clone, Copy, PartialEq, Eq, Structural)]
pub enum Outcome {
    Won,
    Lost,
    Draw,
}

/// `a` defeats `b` under the cyclic rule, or `b` forfeited while `a` played.
pub open spec fn beats(a: Hand, b: Hand) -> bool {
    match (a, b) {
        (Hand::Rock, Hand::Scissors) => true,
        (Hand::Scissors, Hand::Paper) => true,
        (Hand::Paper, Hand::Rock) => true,
        (Hand::Empty, _) => false,
        (_, Hand::Empty) => true,
        _ => false,
    }
}

/// The outcome of `a` against `b`, for the first-listed player.
pub open spec fn outcome_of(a: Hand, b: Hand) -> Outcome {
    if beats(a, b) {
        Outcome::Won
    } else if beats(b, a) {
        Outcome::Lost
    } else {
        Outcome::Draw
    }
}

/// The same match seen from the other side.
pub open spec fn flipped(o: Outcome) -> Outcome {
    match o {
        Outcome::Won => Outcome::Lost,
        Outcome::Lost => Outcome::Won,
        Outcome::Draw => Outcome::Draw,
    }
}

/// Points credited for an outcome: two for a win, one for a draw.
pub open spec fn points(o: Outcome) -> int {
    match o {
        Outcome::Won => 2,
        Outcome::Draw => 1,
        Outcome::Lost => 0,
    }
}

/// Resolves one match between `player` and `opponent`.
pub fn evaluate(player: Hand, opponent: Hand) -> (r: Outcome)
    ensures
        r == outcome_of(player, opponent),
{
    match (player, opponent) {
        (Hand::Empty, Hand::Empty) => Outcome::Draw,
        (_, Hand::Empty) => Outcome::Won,
        (Hand::Empty, _) => Outcome::Lost,
        (Hand::Rock, Hand::Scissors) | (Hand::Scissors, Hand::Paper) | (Hand::Paper, Hand::Rock) => Outcome::Won,
        (Hand::Scissors, Hand::Rock) | (Hand::Paper, Hand::Scissors) | (Hand::Rock, Hand::Paper) => Outcome::Lost,
        _ => Outcome::Draw,
    }
}

/// The outcome for the opponent of a player who got `o`.
pub fn flip(o: Outcome) -> (r: Outcome)
    ensures
        r == flipped(o),
{
    match o {
        Outcome::Won => Outcome::Lost,
        Outcome::Lost => Outcome::Won,
        Outcome::Draw => Outcome::Draw,
    }
}

/// Score increment for an outcome.
pub fn score_increment(o: Outcome) -> (r: i64)
    ensures
        r == points(o),
{
    match o {
        Outcome::Won => 2,
        Outcome::Draw => 1,
        Outcome::Lost => 0,
    }
}

/// Every hand draws against itself, a real hand beats a forfeit, and the
/// three real hands dominate one another in a cycle: rock over scissors,
/// scissors over paper, paper over rock.
pub proof fn lemma_evaluate_laws(x: Hand, y: Hand)
    ensures
        outcome_of(x, x) == Outcome::Draw,
        x != Hand::Empty ==> outcome_of(x, Hand::Empty) == Outcome::Won
            && outcome_of(Hand::Empty, x) == Outcome::Lost,
        outcome_of(Hand::Rock, Hand::Scissors) == Outcome::Won,
        outcome_of(Hand::Scissors, Hand::Paper) == Outcome::Won,
        outcome_of(Hand::Paper, Hand::Rock) == Outcome::Won,
        x != Hand::Empty && y != Hand::Empty && x != y ==> (outcome_of(x, y) == Outcome::Won
            <==> outcome_of(y, x) == Outcome::Lost),
        x != Hand::Empty && y != Hand::Empty && x != y ==> outcome_of(x, y) != Outcome::Draw,
        outcome_of(y, x) == flipped(outcome_of(x, y)),
{
}

} // verus!
