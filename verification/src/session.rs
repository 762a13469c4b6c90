//! One turn of a game played line by line: what a line of input does to the
//! game, and what is to be shown for it.

use crate::game::{Game, GameError};
use crate::letter::{score_word, status_of, GameStatus};
use crate::words::{is_valid_word, sanitize_word, sanitized, validate_word};
use vstd::prelude::*;

verus! {

/// What a line of input came to.
pub enum Turn {
    /// The line, once cleaned, is no word of the list. It was not submitted,
    /// and is handed back as cleaned.
    NotAWord(String),
    /// The word was submitted and the game refused it.
    Refused(GameError),
    /// The word was submitted and scored; the game now has this status.
    Played(GameStatus),
}

/// Takes one line of input for `game`.
///
/// The line is cleaned first. A line that is then no word of `words_list`
/// is not submitted; any other is submitted as a guess, and the status of
/// the game after it is returned, or the reason for which it was refused.
/// Only an accepted guess changes the game.
pub fn take_turn(game: &mut Game, words_list: &Vec<String>, line: &str) -> (turn: Turn)
    requires
        old(game).wf(),
    ensures
        final(game).wf(),
        ({
            let word = sanitized(line@);
            match turn {
                Turn::NotAWord(w) => {
                    &&& !is_valid_word(word, words_list.deep_view())
                    &&& w@ == word
                    &&& *final(game) == *old(game)
                },
                Turn::Refused(e) => {
                    &&& is_valid_word(word, words_list.deep_view())
                    &&& old(game)@.refusal(word) == Some(e)
                    &&& *final(game) == *old(game)
                },
                Turn::Played(status) => {
                    &&& is_valid_word(word, words_list.deep_view())
                    &&& old(game)@.refusal(word) is None
                    &&& final(game)@ == old(game)@.record(word)
                    &&& status == status_of(
                        score_word(old(game)@.target, word),
                        old(game)@.guesses.len() + 1,
                        old(game)@.max_tries,
                    )
                },
            }
        }),
{
    let word = sanitize_word(line);
    if !validate_word(word.as_str(), words_list) {
        return Turn::NotAWord(word);
    }
    match game.add_word(word.as_str()) {
        Ok(result) => Turn::Played(result.get_game_status()),
        Err(e) => Turn::Refused(e),
    }
}

} // verus!
