use rust_basics::guessing::{compare_guess, judge, parse_guess, play, Game, Outcome, Reply, HIGHEST, LOWEST};

fn lines(items: &[&str]) -> Vec<String> {
    items.iter().map(|s| s.to_string()).collect()
}

fn messages(replies: &[Reply]) -> Vec<Option<&'static str>> {
    replies
        .iter()
        .map(|r| match r {
            Reply::Ignored => None,
            Reply::Judged { outcome, .. } => Some(outcome.message()),
        })
        .collect()
}

#[test]
fn scenario_target_fifty() {
    let replies = play(50, &lines(&["abc", "10", "90", "50"]));
    assert_eq!(
        replies,
        vec![
            Reply::Ignored,
            Reply::Judged { guess: 10, outcome: Outcome::Less },
            Reply::Judged { guess: 90, outcome: Outcome::Greater },
            Reply::Judged { guess: 50, outcome: Outcome::Equal },
        ]
    );
    assert_eq!(messages(&replies), vec![None, Some("Too small!"), Some("Too big!"), Some("You win!")]);
}

#[test]
fn scenario_target_one_wins_at_once() {
    let replies = play(1, &lines(&["1", "2", "3"]));
    assert_eq!(replies, vec![Reply::Judged { guess: 1, outcome: Outcome::Equal }]);
    assert_eq!(messages(&replies), vec![Some("You win!")]);
}

#[test]
fn play_without_a_win_answers_every_line() {
    let replies = play(7, &lines(&["1", "x", "9"]));
    assert_eq!(replies.len(), 3);
    assert!(!replies.iter().any(|r| r.is_win()));
}

#[test]
fn play_on_no_input() {
    assert!(play(7, &Vec::new()).is_empty());
}

#[test]
fn smaller_guesses_go_on() {
    for g in 0..50u32 {
        let mut game = Game::new(50);
        let line = format!("{}\n", g);
        let r = game.guess(&line);
        assert_eq!(r, Reply::Judged { guess: g, outcome: Outcome::Less });
        assert!(!game.is_over());
    }
}

#[test]
fn bigger_guesses_go_on() {
    for g in [51u32, 99, 100, 101, 1000, u32::MAX] {
        let mut game = Game::new(50);
        let r = game.guess(&format!("{}\n", g));
        assert_eq!(r, Reply::Judged { guess: g, outcome: Outcome::Greater });
        assert!(!game.is_over());
    }
}

#[test]
fn right_guess_ends_the_game() {
    let mut game = Game::new(42);
    assert!(!game.is_over());
    assert_eq!(game.guess("42\n"), Reply::Judged { guess: 42, outcome: Outcome::Equal });
    assert!(game.is_over());
    assert_eq!(game.target(), 42);
}

#[test]
fn non_numbers_are_ignored() {
    let mut game = Game::new(5);
    for line in ["abc\n", "", "\n", "-5\n", "5.0\n", "five", "+", "5 5", "4294967296", "0x5"] {
        assert_eq!(game.guess(line), Reply::Ignored);
        assert!(!game.is_over());
        assert_eq!(game.target(), 5);
    }
}

#[test]
fn a_won_game_stays_won() {
    let mut game = Game::new(3);
    game.guess("3");
    game.guess("4");
    assert!(game.is_over());
}

#[test]
fn random_target_is_in_range() {
    for _ in 0..200 {
        let game = Game::start();
        assert!(LOWEST <= game.target() && game.target() <= HIGHEST);
        assert!(!game.is_over());
    }
}

#[test]
fn compare_guess_classifies() {
    assert_eq!(compare_guess(1, 2), Outcome::Less);
    assert_eq!(compare_guess(3, 2), Outcome::Greater);
    assert_eq!(compare_guess(2, 2), Outcome::Equal);
    assert_eq!(compare_guess(0, u32::MAX), Outcome::Less);
}

#[test]
fn judge_reads_then_compares() {
    assert_eq!(judge(50, "  77 \r\n"), Reply::Judged { guess: 77, outcome: Outcome::Greater });
    assert_eq!(judge(50, "abc"), Reply::Ignored);
}

#[test]
fn parse_guess_values() {
    assert_eq!(parse_guess("0"), Some(0));
    assert_eq!(parse_guess("+7"), Some(7));
    assert_eq!(parse_guess("007\n"), Some(7));
    assert_eq!(parse_guess("4294967295"), Some(u32::MAX));
    assert_eq!(parse_guess("4294967296"), None);
    assert_eq!(parse_guess("99999999999999999999"), None);
    assert_eq!(parse_guess("\u{3000}12\u{a0}"), Some(12));
    assert_eq!(parse_guess("-0"), None);
    assert_eq!(parse_guess("++1"), None);
    assert_eq!(parse_guess("1\u{200b}"), None);
}

#[test]
fn parse_guess_agrees_with_std() {
    let samples = [
        "", " ", "1", " 1", "1 ", "\t12\n", "+", "+0", "-1", "12a", "a12", "٣", "１２",
        "4294967295", "4294967296", "00000000000000000000042", "\u{85}9\u{2028}", "\u{feff}9",
        "1_000", " + 1", "+ 1", "1\n2",
    ];
    for s in samples {
        assert_eq!(parse_guess(s), s.trim().parse::<u32>().ok(), "on {:?}", s);
    }
}

#[test]
fn outcome_messages() {
    assert_eq!(Outcome::Less.message(), "Too small!");
    assert_eq!(Outcome::Greater.message(), "Too big!");
    assert_eq!(Outcome::Equal.message(), "You win!");
}
