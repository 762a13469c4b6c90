use wordle::session::{take_turn, Turn};
use wordle::{Game, GameError, GameStatus, Letter};

fn list(words: &[&str]) -> Vec<String> {
    words.iter().map(|w| w.to_string()).collect()
}

#[test]
fn line_that_is_no_word_is_not_submitted() {
    let words = list(&["CRANE", "SNAKE"]);
    let mut game = Game::new("CRANE", 5, 6).unwrap();
    match take_turn(&mut game, &words, " smoky\n") {
        Turn::NotAWord(word) => assert_eq!(word, "SMOKY"),
        _ => panic!("the line should not have been submitted"),
    }
    assert!(game.get_word_list().is_empty());
}

#[test]
fn line_is_cleaned_before_it_is_submitted() {
    let words = list(&["CRANE", "SNAKE"]);
    let mut game = Game::new("CRANE", 5, 6).unwrap();
    assert!(matches!(take_turn(&mut game, &words, "  snake \n"), Turn::Played(GameStatus::Playing)));
    assert_eq!(game.get_word_list(), &list(&["SNAKE"]));
    assert_eq!(
        game.get_tries()[0],
        vec![
            Letter::Wrong('S'),
            Letter::WrongPlace('N'),
            Letter::Right('A'),
            Letter::Wrong('K'),
            Letter::Right('E'),
        ]
    );
}

#[test]
fn right_word_wins() {
    let words = list(&["CRANE", "SNAKE"]);
    let mut game = Game::new("CRANE", 5, 6).unwrap();
    assert!(matches!(take_turn(&mut game, &words, "crane\n"), Turn::Played(GameStatus::Won)));
}

#[test]
fn last_miss_loses() {
    let words = list(&["CRANE", "SNAKE"]);
    let mut game = Game::new("CRANE", 5, 2).unwrap();
    assert!(matches!(take_turn(&mut game, &words, "snake\n"), Turn::Played(GameStatus::Playing)));
    assert!(matches!(take_turn(&mut game, &words, "snake\n"), Turn::Played(GameStatus::Lost)));
    assert!(matches!(
        take_turn(&mut game, &words, "crane\n"),
        Turn::Refused(GameError::TooManyAttempts)
    ));
    assert_eq!(game.get_word_list().len(), 2);
}

#[test]
fn word_of_another_length_than_the_game_is_refused() {
    let words = list(&["CRANE", "SNAKE"]);
    let mut game = Game::new("CRAN", 4, 6).unwrap();
    assert!(matches!(
        take_turn(&mut game, &words, "crane\n"),
        Turn::Refused(GameError::InvalidGuessLength)
    ));
    assert!(game.get_word_list().is_empty());
}
