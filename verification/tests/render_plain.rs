use wordle::render::{paint_letter, push_cell, render_empty_row, render_guesses, render_row};
use wordle::{Game, Letter};

#[test]
fn board_without_colours() {
    colored::control::set_override(false);

    assert_eq!(paint_letter(Letter::Right('A')), "A");
    assert_eq!(paint_letter(Letter::WrongPlace('B')), "B");
    assert_eq!(paint_letter(Letter::Wrong('C')), "C");

    let letters = vec![Letter::Wrong('S'), Letter::WrongPlace('N'), Letter::Right('A')];
    assert_eq!(render_row(&letters), "[S][N][A]");
    assert_eq!(render_row(&Vec::new()), "");

    let mut game = Game::new("CRANE", 5, 3).unwrap();
    game.add_word("SNAKE").unwrap();
    assert_eq!(
        render_guesses(&game),
        vec!["[S][N][A][K][E]".to_string(), "[ ][ ][ ][ ][ ]".to_string(), "[ ][ ][ ][ ][ ]".to_string()]
    );
    game.add_word("CRATE").unwrap();
    game.add_word("CRANE").unwrap();
    assert_eq!(
        render_guesses(&game),
        vec!["[S][N][A][K][E]".to_string(), "[C][R][A][T][E]".to_string(), "[C][R][A][N][E]".to_string()]
    );
}

#[test]
fn empty_row_has_a_blank_in_every_cell() {
    assert_eq!(render_empty_row(0), "");
    assert_eq!(render_empty_row(1), "[ ]");
    assert_eq!(render_empty_row(5), "[ ][ ][ ][ ][ ]");
}

#[test]
fn cell_is_put_in_brackets() {
    let mut row = String::from("[a]");
    push_cell(&mut row, "xy");
    assert_eq!(row, "[a][xy]");
    push_cell(&mut row, "");
    assert_eq!(row, "[a][xy][]");
}

#[test]
fn board_has_a_row_for_every_try() {
    let game = Game::new("CRANE", 5, 6).unwrap();
    let rows = render_guesses(&game);
    assert_eq!(rows.len(), 6);
    for row in rows {
        assert_eq!(row, "[ ][ ][ ][ ][ ]");
    }
    assert!(render_guesses(&Game::new("CRANE", 5, 0).unwrap()).is_empty());
}
