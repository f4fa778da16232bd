use chapters::guessing_game::{judge, parse_guess, Game, Reply, State, HIGHEST, LOWEST};

fn game_on(target: u32) -> Game {
    match Game::with_target(target) {
        Some(game) => game,
        None => panic!("{} is no target", target),
    }
}

fn lines(texts: &[&str]) -> Vec<String> {
    let mut lines = Vec::new();
    for text in texts {
        lines.push(text.to_string());
    }
    lines
}

#[test]
fn targets_lie_between_one_and_a_hundred() {
    assert_eq!(LOWEST, 1);
    assert_eq!(HIGHEST, 100);
}

#[test]
fn judge_compares_every_guess_with_every_target() {
    let mut target: u32 = 1;
    while target <= 100 {
        let mut guess: u32 = 1;
        while guess <= 100 {
            let reply = judge(guess, target);
            if guess < target {
                assert_eq!(reply, Reply::TooSmall);
            } else if guess > target {
                assert_eq!(reply, Reply::TooBig);
            } else {
                assert_eq!(reply, Reply::Win);
            }
            guess += 1;
        }
        target += 1;
    }
}

#[test]
fn judge_compares_numbers_outside_the_range_too() {
    assert_eq!(judge(0, 1), Reply::TooSmall);
    assert_eq!(judge(101, 100), Reply::TooBig);
    assert_eq!(judge(u32::MAX, 100), Reply::TooBig);
    assert_eq!(judge(0, 0), Reply::Win);
}

#[test]
fn parse_guess_trims_the_line_first() {
    assert_eq!(parse_guess("50\n"), Some(50));
    assert_eq!(parse_guess("  7  "), Some(7));
    assert_eq!(parse_guess("\t+12\r\n"), Some(12));
    assert_eq!(parse_guess("100"), Some(100));
    assert_eq!(parse_guess("0\n"), Some(0));
    assert_eq!(parse_guess("4294967295\n"), Some(u32::MAX));
}

#[test]
fn parse_guess_finds_no_number_in_other_text() {
    assert_eq!(parse_guess(""), None);
    assert_eq!(parse_guess("\n"), None);
    assert_eq!(parse_guess("abc\n"), None);
    assert_eq!(parse_guess("-5\n"), None);
    assert_eq!(parse_guess("5 0\n"), None);
    assert_eq!(parse_guess("fifty\n"), None);
    assert_eq!(parse_guess("4294967296\n"), None);
    assert_eq!(parse_guess("12.0\n"), None);
}

#[test]
fn parse_guess_agrees_with_trim_and_parse_of_std() {
    let samples = ["", " ", "1", " 1 ", "1\n", "+1\n", "\u{3000}33\u{a0}", "3 3", "x", "-0", "007 "];
    for sample in samples {
        assert_eq!(parse_guess(sample), sample.trim().parse::<u32>().ok(), "sample {:?}", sample);
    }
}

#[test]
fn with_target_accepts_one_to_a_hundred_only() {
    assert!(Game::with_target(0).is_none());
    assert!(Game::with_target(101).is_none());
    assert!(Game::with_target(u32::MAX).is_none());
    let mut target: u32 = 1;
    while target <= 100 {
        let game = game_on(target);
        assert_eq!(game.target(), target);
        assert_eq!(game.state(), State::Prompting);
        target += 1;
    }
}

#[test]
fn start_draws_a_target_in_range() {
    let mut draws = 0;
    while draws < 2000 {
        let game = Game::start();
        assert!(1 <= game.target() && game.target() <= 100);
        assert_eq!(game.state(), State::Prompting);
        draws += 1;
    }
}

#[test]
fn start_does_not_always_draw_the_same_target() {
    let first = Game::start().target();
    let mut differs = false;
    let mut draws = 0;
    while draws < 2000 {
        if Game::start().target() != first {
            differs = true;
        }
        draws += 1;
    }
    assert!(differs);
}

#[test]
fn a_low_guess_is_too_small_and_the_game_goes_on() {
    let mut game = game_on(50);
    assert_eq!(game.guess("49\n"), Reply::TooSmall);
    assert_eq!(game.state(), State::Prompting);
    assert_eq!(game.guess("1\n"), Reply::TooSmall);
    assert_eq!(game.state(), State::Prompting);
    assert_eq!(game.target(), 50);
}

#[test]
fn a_high_guess_is_too_big_and_the_game_goes_on() {
    let mut game = game_on(50);
    assert_eq!(game.guess("51\n"), Reply::TooBig);
    assert_eq!(game.state(), State::Prompting);
    assert_eq!(game.guess("100\n"), Reply::TooBig);
    assert_eq!(game.guess("1000000\n"), Reply::TooBig);
    assert_eq!(game.state(), State::Prompting);
    assert_eq!(game.target(), 50);
}

#[test]
fn the_target_wins_the_game() {
    let mut game = game_on(50);
    assert_eq!(game.guess(" 50 \n"), Reply::Win);
    assert_eq!(game.state(), State::Won);
    assert_eq!(game.target(), 50);
}

#[test]
fn text_that_is_no_number_changes_nothing() {
    let mut game = game_on(50);
    assert_eq!(game.guess("fifty\n"), Reply::Ask);
    assert_eq!(game.state(), State::Prompting);
    assert_eq!(game.target(), 50);
    assert_eq!(game.guess("fifty\n"), Reply::Ask);
    assert_eq!(game.guess("\n"), Reply::Ask);
    assert_eq!(game.guess(""), Reply::Ask);
    assert_eq!(game.guess("-50\n"), Reply::Ask);
    assert_eq!(game.state(), State::Prompting);
    assert_eq!(game.target(), 50);
    assert_eq!(game.guess("50\n"), Reply::Win);
}

#[test]
fn play_stops_at_the_winning_line() {
    let mut game = game_on(50);
    let replies = game.play(&lines(&["10\n", "abc\n", "90\n", "50\n", "60\n", "50\n"]));
    assert_eq!(replies, vec![Reply::TooSmall, Reply::Ask, Reply::TooBig, Reply::Win]);
    assert_eq!(game.state(), State::Won);
}

#[test]
fn play_answers_every_line_where_none_wins() {
    let mut game = game_on(50);
    let replies = game.play(&lines(&["10\n", "\n", "90\n", "49\n", "51\n"]));
    assert_eq!(
        replies,
        vec![Reply::TooSmall, Reply::Ask, Reply::TooBig, Reply::TooSmall, Reply::TooBig]
    );
    assert_eq!(game.state(), State::Prompting);
    let more = game.play(&lines(&["50\n"]));
    assert_eq!(more, vec![Reply::Win]);
    assert_eq!(game.state(), State::Won);
}

#[test]
fn play_without_lines_answers_nothing() {
    let mut game = game_on(1);
    let replies = game.play(&lines(&[]));
    assert_eq!(replies, Vec::<Reply>::new());
    assert_eq!(game.state(), State::Prompting);
}

#[test]
fn play_can_win_on_the_first_line() {
    let mut game = game_on(100);
    let replies = game.play(&lines(&["100", "1"]));
    assert_eq!(replies, vec![Reply::Win]);
    assert_eq!(game.state(), State::Won);
}

#[test]
fn replies_have_their_words() {
    assert_eq!(Reply::Ask.message(), None);
    assert_eq!(Reply::TooSmall.message(), Some("Too small!"));
    assert_eq!(Reply::TooBig.message(), Some("Too Big!"));
    assert_eq!(Reply::Win.message(), Some("You win!"));
}
