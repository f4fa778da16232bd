//! A number-guessing game: a target between one and a hundred is drawn at
//! random, and each line of input is answered until the target is guessed.

use crate::scan::{any_hit, before_first, lemma_before_first};
use crate::text::{parse_u32, parsed_u32, trim, trimmed};
use vstd::prelude::*;

verus! {

/// The lowest number that can be the target.
pub const LOWEST: u32 = 1;

/// The highest number that can be the target.
pub const HIGHEST: u32 = 100;

/// Where a game stands.
#[derive(Debug, Clone, Copy, PartialEq, Eq, Structural)]
pub enum State {
    /// Waiting for a guess.
    Prompting,
    /// The target was guessed: the game is over.
    Won,
}

/// What the game answers to one line of input.
#[derive(Debug, Clone, Copy, PartialEq, Eq, Structural)]
pub enum Reply {
    /// The line is no number: say nothing and ask again.
    Ask,
    /// The guess is below the target: say so and ask again.
    TooSmall,
    /// The guess is above the target: say so and ask again.
    TooBig,
    /// The guess is the target: say so and stop.
    Win,
}

impl Reply {
    /// The words that go with this reply, if it has any.
    pub fn message(&self) -> (words: Option<&'static str>)
        ensures
            *self == Reply::Ask ==> words is None,
            *self == Reply::TooSmall ==> words is Some && words->0@ == "Too small!"@,
            *self == Reply::TooBig ==> words is Some && words->0@ == "Too Big!"@,
            *self == Reply::Win ==> words is Some && words->0@ == "You win!"@,
    {
        match self {
            Reply::Ask => None,
            Reply::TooSmall => Some("Too small!"),
            Reply::TooBig => Some("Too Big!"),
            Reply::Win => Some("You win!"),
        }
    }
}

/// The number that a line of input guesses, if it is one: the line is
/// trimmed, then read as an unsigned decimal number.
pub open spec fn guess_of(line: Seq<char>) -> Option<u32> {
    parsed_u32(trimmed(line))
}

/// Reads the guess that `line` holds.
pub fn parse_guess(line: &str) -> (guess: Option<u32>)
    ensures
        guess == guess_of(line@),
{
    parse_u32(trim(line))
}

/// How `guess` compares with `target`.
pub open spec fn judged(guess: u32, target: u32) -> Reply {
    if guess < target {
        Reply::TooSmall
    } else if guess > target {
        Reply::TooBig
    } else {
        Reply::Win
    }
}

/// Compares `guess` with `target`.
pub fn judge(guess: u32, target: u32) -> (reply: Reply)
    ensures
        reply == judged(guess, target),
{
    if guess < target {
        Reply::TooSmall
    } else if guess > target {
        Reply::TooBig
    } else {
        Reply::Win
    }
}

/// What a game with this `target` answers to `line`.
pub open spec fn reply_to(target: u32, line: Seq<char>) -> Reply {
    match guess_of(line) {
        Some(guess) => judged(guess, target),
        None => Reply::Ask,
    }
}

/// The test that tells whether a line guesses `target`.
pub open spec fn wins(target: u32) -> spec_fn(String) -> bool {
    |line: String| guess_of(line@) == Some(target)
}

/// How many of `lines` a game with this `target` gets to answer: those up to
/// and including the first that guesses the target, or all of them where
/// none does.
pub open spec fn lines_heard(target: u32, lines: Seq<String>) -> nat {
    let missed = before_first(lines, wins(target));
    if missed < lines.len() {
        missed + 1
    } else {
        lines.len()
    }
}

/// The replies of a game with this `target` that is fed `lines` one by one.
pub open spec fn replies_to(target: u32, lines: Seq<String>) -> Seq<Reply> {
    Seq::new(lines_heard(target, lines), |i: int| reply_to(target, lines[i]@))
}

/// A line wins exactly when it guesses the target; no other number and no
/// other text does.
pub proof fn lemma_only_target_wins(target: u32, line: Seq<char>)
    ensures
        reply_to(target, line) == Reply::Win <==> guess_of(line) == Some(target),
        guess_of(line) is None <==> reply_to(target, line) == Reply::Ask,
{
}

/// A game ends only on the target: where some line guesses it, the last
/// reply is the win and no earlier reply is; where none does, every line is
/// answered and no reply is a win.
pub proof fn lemma_game_ends_on_target(target: u32, lines: Seq<String>)
    ensures
        replies_to(target, lines).len() <= lines.len(),
        any_hit(lines, wins(target)) ==> replies_to(target, lines).len() > 0 && replies_to(
            target,
            lines,
        ).last() == Reply::Win,
        !any_hit(lines, wins(target)) ==> replies_to(target, lines).len() == lines.len(),
        forall|i: int|
            0 <= i < replies_to(target, lines).len() && #[trigger] replies_to(target, lines)[i]
                == Reply::Win ==> i == replies_to(target, lines).len() - 1 && any_hit(
                lines,
                wins(target),
            ),
{
    lemma_before_first(lines, wins(target));
    assert forall|i: int|
        0 <= i < replies_to(target, lines).len() && #[trigger] replies_to(target, lines)[i]
            == Reply::Win implies i == replies_to(target, lines).len() - 1 && any_hit(
        lines,
        wins(target),
    ) by {
        assert(wins(target)(lines[i]));
    }
}

/// Draws a number from the closed range between `low` and `high`.
///
/// Calls `rand::thread_rng()` and, on the generator it returns,
/// `rand::Rng::gen_range` with the inclusive range `low..=high`. Assumed of
/// that call, and not proved: on a range that is not empty it returns a
/// number of the range. Which one is left open, and two calls may differ.
/// `gen_range` panics on an empty range, which is why `low` may not exceed
/// `high`; `thread_rng` panics where the system has no seed to give it.
#[verifier::external_body]
fn random_in_range(low: u32, high: u32) -> (number: u32)
    requires
        low <= high,
    ensures
        low <= number <= high,
{
    rand::Rng::gen_range(&mut rand::thread_rng(), low..=high)
}

/// A game in progress: the target to guess, and whether it was guessed yet.
#[derive(Debug)]
pub struct Game {
    target: u32,
    state: State,
}

impl Game {
    #[verifier::type_invariant]
    spec fn target_in_range(self) -> bool {
        LOWEST <= self.target <= HIGHEST
    }

    /// The number to guess.
    pub closed spec fn spec_target(&self) -> u32 {
        self.target
    }

    /// Where the game stands.
    pub closed spec fn spec_state(&self) -> State {
        self.state
    }

    /// Starts a game on a target drawn at random.
    pub fn start() -> (game: Game)
        ensures
            game.spec_state() == State::Prompting,
            LOWEST <= game.spec_target() <= HIGHEST,
    {
        Game { target: random_in_range(LOWEST, HIGHEST), state: State::Prompting }
    }

    /// Starts a game on a chosen target, which has to lie between one and a
    /// hundred.
    pub fn with_target(target: u32) -> (game: Option<Game>)
        ensures
            game is Some <==> LOWEST <= target <= HIGHEST,
            game matches Some(g) ==> g.spec_target() == target && g.spec_state()
                == State::Prompting,
    {
        if LOWEST <= target && target <= HIGHEST {
            Some(Game { target, state: State::Prompting })
        } else {
            None
        }
    }

    /// The number to guess. It lies between one and a hundred.
    #[verifier::when_used_as_spec(spec_target)]
    pub fn target(&self) -> (target: u32)
        ensures
            target == self.spec_target(),
            LOWEST <= target <= HIGHEST,
    {
        proof {
            use_type_invariant(self);
        }
        self.target
    }

    /// Where the game stands.
    #[verifier::when_used_as_spec(spec_state)]
    pub fn state(&self) -> (state: State)
        ensures
            state == self.spec_state(),
    {
        self.state
    }

    /// Answers one line of input to a game that waits for a guess.
    ///
    /// A line that is no number changes nothing and is answered by asking
    /// again. A number is compared with the target; only the target itself
    /// wins the game.
    pub fn guess(&mut self, line: &str) -> (reply: Reply)
        requires
            old(self).spec_state() == State::Prompting,
        ensures
            reply == reply_to(old(self).spec_target(), line@),
            final(self).spec_target() == old(self).spec_target(),
            final(self).spec_state() == if reply == Reply::Win {
                State::Won
            } else {
                State::Prompting
            },
            guess_of(line@) is None ==> *final(self) == *old(self),
    {
        proof {
            use_type_invariant(&*self);
        }
        match parse_guess(line) {
            Some(guess) => {
                let reply = judge(guess, self.target);
                if reply == Reply::Win {
                    self.state = State::Won;
                }
                reply
            },
            None => Reply::Ask,
        }
    }

    /// Feeds `lines` to a game that waits for a guess, one by one, until one
    /// of them wins or none is left, and returns the reply to each line that
    /// was answered. Lines after the winning one are never looked at.
    pub fn play(&mut self, lines: &Vec<String>) -> (replies: Vec<Reply>)
        requires
            old(self).spec_state() == State::Prompting,
        ensures
            replies@ == replies_to(old(self).spec_target(), lines@),
            final(self).spec_target() == old(self).spec_target(),
            final(self).spec_state() == State::Won <==> any_hit(
                lines@,
                wins(old(self).spec_target()),
            ),
            final(self).spec_state() == State::Won || final(self).spec_state()
                == State::Prompting,
    {
        let ghost target = self.spec_target();
        let mut replies: Vec<Reply> = Vec::new();
        let mut i: usize = 0;
        while i < lines.len()
            invariant
                i <= lines@.len(),
                i <= before_first(lines@, wins(target)),
                self.spec_state() == State::Prompting,
                self.spec_target() == target,
                target == old(self).spec_target(),
                replies@ == Seq::new(i as nat, |j: int| reply_to(target, lines@[j]@)),
            decreases lines@.len() - i,
        {
            proof {
                lemma_before_first(lines@, wins(target));
            }
            let reply = self.guess(lines[i].as_str());
            replies.push(reply);
            assert(replies@ =~= Seq::new((i + 1) as nat, |j: int| reply_to(target, lines@[j]@)));
            if reply == Reply::Win {
                assert(wins(target)(lines@[i as int]));
                return replies;
            }
            assert(!wins(target)(lines@[i as int]));
            i += 1;
        }
        proof {
            lemma_before_first(lines@, wins(target));
        }
        replies
    }
}

} // verus!
