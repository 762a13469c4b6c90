use wordle::render::{paint_letter, render_row};
use wordle::Letter;

#[test]
fn board_with_colours() {
    colored::control::set_override(true);

    assert_eq!(paint_letter(Letter::Right('A')), "\x1B[32mA\x1B[0m");
    assert_eq!(paint_letter(Letter::WrongPlace('B')), "\x1B[33mB\x1B[0m");
    assert_eq!(paint_letter(Letter::Wrong('C')), "\x1B[31mC\x1B[0m");

    let letters = vec![Letter::Wrong('S'), Letter::Right('A')];
    assert_eq!(render_row(&letters), "[\x1B[31mS\x1B[0m][\x1B[32mA\x1B[0m]");
}
