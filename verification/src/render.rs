//! The board as lines of text: one row for each allowed guess, every letter
//! in a cell that is coloured by its verdict.

use crate::game::Game;
use crate::letter::Letter;
use crate::text::push_char;
use colored::Colorize;
use vstd::prelude::*;
use vstd::string::StringExecFns;

verus! {

/// A cell with `body` in it.
pub open spec fn framed(body: Seq<char>) -> Seq<char> {
    seq!['['] + body + seq![']']
}

/// A row of cells with `bodies` in them, from left to right.
pub open spec fn framed_row(bodies: Seq<Seq<char>>) -> Seq<char>
    decreases bodies.len(),
{
    if bodies.len() == 0 {
        Seq::empty()
    } else {
        framed_row(bodies.drop_last()) + framed(bodies.last())
    }
}

/// A row of `word_length` cells with a blank in each.
pub open spec fn empty_row(word_length: nat) -> Seq<char> {
    framed_row(Seq::new(word_length, |i: int| seq![' ']))
}

/// The escape sequence that switches the colour with the number `code` on.
pub open spec fn colour_on(code: Seq<char>) -> Seq<char> {
    seq!['\x1B', '['] + code + seq!['m']
}

/// The escape sequence that switches every colour off.
pub open spec fn colour_off() -> Seq<char> {
    seq!['\x1B', '[', '0', 'm']
}

/// The number of green among the colours of a terminal.
pub open spec fn green_code() -> Seq<char> {
    seq!['3', '2']
}

/// The number of yellow among the colours of a terminal.
pub open spec fn yellow_code() -> Seq<char> {
    seq!['3', '3']
}

/// The number of red among the colours of a terminal.
pub open spec fn red_code() -> Seq<char> {
    seq!['3', '1']
}

/// The number of the colour that shows the verdict of `letter`: green for a
/// right letter, yellow for a misplaced one, red for a wrong one.
pub open spec fn colour_code(letter: Letter) -> Seq<char> {
    match letter {
        Letter::Right(_) => green_code(),
        Letter::WrongPlace(_) => yellow_code(),
        Letter::Wrong(_) => red_code(),
    }
}

/// Whether `painted` is `c` in the colour with the number `code`: `c` alone
/// where colours are switched off for the process, and else `c` between the
/// escape sequences that switch the colour on and off.
pub open spec fn is_painted(painted: Seq<char>, c: char, code: Seq<char>) -> bool {
    painted == seq![c] || painted == colour_on(code) + seq![c] + colour_off()
}

/// Whether `row` is a row of cells, one for each of `letters` in their
/// order, each with the letter's character in it, in the colour of its
/// verdict.
pub open spec fn is_row_of(row: Seq<char>, letters: Seq<Letter>) -> bool {
    exists|bodies: Seq<Seq<char>>|
        {
            &&& bodies.len() == letters.len()
            &&& forall|i: int|
                0 <= i < bodies.len() ==> is_painted(
                    #[trigger] bodies[i],
                    letters[i].spec_character(),
                    colour_code(letters[i]),
                )
            &&& row == framed_row(bodies)
        }
}

/// Calls `Colorize::green` on the text of `c` and formats what it returns.
/// Whether colours are shown is a matter of the terminal and the
/// environment, so the contract allows for both: the text alone, or the
/// text between the escape sequence of green and the one that resets.
#[verifier::external_body]
fn paint_green(c: char) -> (painted: String)
    ensures
        is_painted(painted@, c, green_code()),
{
    c.to_string().green().to_string()
}

/// Calls `Colorize::yellow` on the text of `c` and formats what it returns.
/// Whether colours are shown is a matter of the terminal and the
/// environment, so the contract allows for both: the text alone, or the
/// text between the escape sequence of yellow and the one that resets.
#[verifier::external_body]
fn paint_yellow(c: char) -> (painted: String)
    ensures
        is_painted(painted@, c, yellow_code()),
{
    c.to_string().yellow().to_string()
}

/// Calls `Colorize::red` on the text of `c` and formats what it returns.
/// Whether colours are shown is a matter of the terminal and the
/// environment, so the contract allows for both: the text alone, or the
/// text between the escape sequence of red and the one that resets.
#[verifier::external_body]
fn paint_red(c: char) -> (painted: String)
    ensures
        is_painted(painted@, c, red_code()),
{
    c.to_string().red().to_string()
}

/// Paints the character of `letter`: green for a right one, yellow for a
/// misplaced one, red for a wrong one.
pub fn paint_letter(letter: Letter) -> (painted: String)
    ensures
        is_painted(painted@, letter.spec_character(), colour_code(letter)),
{
    match letter {
        Letter::Right(c) => paint_green(c),
        Letter::WrongPlace(c) => paint_yellow(c),
        Letter::Wrong(c) => paint_red(c),
    }
}

/// Appends a cell with `body` in it to `row`.
pub fn push_cell(row: &mut String, body: &str)
    ensures
        final(row)@ == old(row)@ + framed(body@),
{
    push_char(row, '[');
    row.append(body);
    push_char(row, ']');
    assert(row@ =~= old(row)@ + framed(body@));
}

/// The row of a guess with the verdicts `letters`.
pub fn render_row(letters: &Vec<Letter>) -> (row: String)
    ensures
        is_row_of(row@, letters@),
{
    let mut row = String::new();
    let ghost mut bodies: Seq<Seq<char>> = Seq::empty();
    let mut i: usize = 0;
    while i < letters.len()
        invariant
            i <= letters@.len(),
            bodies.len() == i,
            forall|j: int|
                0 <= j < i ==> is_painted(
                    #[trigger] bodies[j],
                    letters@[j].spec_character(),
                    colour_code(letters@[j]),
                ),
            row@ == framed_row(bodies),
        decreases letters@.len() - i,
    {
        let painted = paint_letter(letters[i]);
        push_cell(&mut row, painted.as_str());
        proof {
            assert(bodies.push(painted@).drop_last() =~= bodies);
            bodies = bodies.push(painted@);
        }
        i += 1;
    }
    row
}

/// The row of a guess that has not been made: a blank in each of
/// `word_length` cells.
pub fn render_empty_row(word_length: usize) -> (row: String)
    ensures
        row@ == empty_row(word_length as nat),
{
    let mut row = String::new();
    let mut i: usize = 0;
    while i < word_length
        invariant
            i <= word_length,
            row@ == empty_row(i as nat),
        decreases word_length - i,
    {
        proof {
            let blanks = Seq::new((i + 1) as nat, |k: int| seq![' ']);
            assert(blanks.drop_last() =~= Seq::new(i as nat, |k: int| seq![' ']));
            assert(framed(blanks.last()) =~= seq!['[', ' ', ']']);
        }
        push_char(&mut row, '[');
        push_char(&mut row, ' ');
        push_char(&mut row, ']');
        i += 1;
        assert(row@ =~= empty_row(i as nat));
    }
    row
}

/// The board of `game`: as many rows as guesses are allowed, first the rows
/// of the guesses made, oldest first, then empty rows.
pub fn render_guesses(game: &Game) -> (rows: Vec<String>)
    requires
        game.wf(),
    ensures
        rows@.len() == game@.max_tries,
        forall|i: int|
            0 <= i < game@.guesses.len() ==> is_row_of(
                (#[trigger] rows@[i])@,
                game@.scores()[i],
            ),
        forall|i: int|
            game@.guesses.len() <= i < game@.max_tries ==> (#[trigger] rows@[i])@ == empty_row(
                game@.word_length,
            ),
{
    let tries = game.get_tries();
    let max_tries = game.get_max_tries();
    let mut rows: Vec<String> = Vec::new();
    let mut i: usize = 0;
    assert(tries.deep_view().len() == tries@.len());
    while i < max_tries
        invariant
            i <= max_tries,
            max_tries == game@.max_tries,
            tries.deep_view() == game@.scores(),
            tries@.len() == game@.guesses.len(),
            rows@.len() == i,
            forall|j: int|
                0 <= j < i && j < game@.guesses.len() ==> is_row_of(
                    (#[trigger] rows@[j])@,
                    game@.scores()[j],
                ),
            forall|j: int|
                game@.guesses.len() <= j < i ==> (#[trigger] rows@[j])@ == empty_row(
                    game@.word_length,
                ),
        decreases max_tries - i,
    {
        if i >= tries.len() {
            rows.push(render_empty_row(game.get_word_length()));
        } else {
            let row = render_row(&tries[i]);
            proof {
                assert(tries.deep_view()[i as int] =~= tries@[i as int]@);
            }
            rows.push(row);
        }
        i += 1;
    }
    rows
}

} // verus!
