//! Letter classifications and the scoring rule.

use crate::text::chars_of;
use vstd::prelude::*;

verus! {

/// The verdict on one character of a guess.
#[derive(Copy, Clone, Debug, PartialEq, Eq, Structural)]
pub enum Letter {
    /// The character stands at this position in the hidden word.
    Right(char),
    /// The character occurs in the hidden word, but not at this position.
    WrongPlace(char),
    /// The character does not occur in the hidden word.
    Wrong(char),
}

impl DeepView for Letter {
    type V = Letter;

    open spec fn deep_view(&self) -> Letter {
        *self
    }
}

/// How a game stands after a guess.
#[derive(Copy, Clone, Debug, PartialEq, Eq, Structural)]
pub enum GameStatus {
    Won,
    Playing,
    Lost,
}

/// The verdict on the character `c` guessed at position `i` of `target`.
///
/// Every position is judged on its own: a character that occurs anywhere in
/// the hidden word counts as misplaced however often it has been guessed.
pub open spec fn score_char(target: Seq<char>, i: int, c: char) -> Letter {
    if 0 <= i < target.len() && target[i] == c {
        Letter::Right(c)
    } else if target.contains(c) {
        Letter::WrongPlace(c)
    } else {
        Letter::Wrong(c)
    }
}

/// The verdicts on all characters of `guess`, in order.
pub open spec fn score_word(target: Seq<char>, guess: Seq<char>) -> Seq<Letter> {
    Seq::new(guess.len(), |i: int| score_char(target, i, guess[i]))
}

/// Whether every verdict in `letters` is `Right`.
pub open spec fn all_right(letters: Seq<Letter>) -> bool {
    forall|i: int| 0 <= i < letters.len() ==> (#[trigger] letters[i]) is Right
}

/// The status that follows from the verdicts on the latest guess, the number
/// of guesses made so far and the number allowed. A win is looked for first.
pub open spec fn status_of(letters: Seq<Letter>, tries: nat, max_tries: nat) -> GameStatus {
    if all_right(letters) {
        GameStatus::Won
    } else if tries == max_tries {
        GameStatus::Lost
    } else {
        GameStatus::Playing
    }
}

/// A guess that equals the hidden word is scored `Right` at every position,
/// and wins the game whatever the number of guesses taken and allowed, the
/// last allowed guess included.
pub proof fn lemma_exact_guess_wins(target: Seq<char>, tries: nat, max_tries: nat)
    ensures
        score_word(target, target).len() == target.len(),
        forall|i: int|
            0 <= i < target.len() ==> #[trigger] score_word(target, target)[i] == Letter::Right(
                target[i],
            ),
        all_right(score_word(target, target)),
        status_of(score_word(target, target), tries, max_tries) == GameStatus::Won,
{
}

/// Verdicts that are all `Right` win the game even when the guess was the
/// last one allowed: a win goes before a loss.
pub proof fn lemma_win_precedes_loss(letters: Seq<Letter>, max_tries: nat)
    requires
        all_right(letters),
    ensures
        status_of(letters, max_tries, max_tries) == GameStatus::Won,
{
}

/// A guess none of whose characters occurs in the hidden word is scored
/// `Wrong` at every position.
pub proof fn lemma_foreign_guess_all_wrong(target: Seq<char>, guess: Seq<char>)
    requires
        forall|i: int| 0 <= i < guess.len() ==> !target.contains(#[trigger] guess[i]),
    ensures
        score_word(target, guess).len() == guess.len(),
        forall|i: int|
            0 <= i < guess.len() ==> #[trigger] score_word(target, guess)[i] == Letter::Wrong(
                guess[i],
            ),
{
    assert forall|i: int| 0 <= i < guess.len() implies #[trigger] score_word(target, guess)[i]
        == Letter::Wrong(guess[i]) by {
        if 0 <= i < target.len() && target[i] == guess[i] {
            assert(target.contains(guess[i]));
        }
    }
}

/// Every verdict is about the character guessed at its position, and it is
/// `Right` exactly where the hidden word has that character there, `Wrong`
/// exactly where the hidden word does not have it at all.
pub proof fn lemma_score_word_by_position(target: Seq<char>, guess: Seq<char>, i: int)
    requires
        0 <= i < guess.len(),
    ensures
        score_word(target, guess)[i].spec_character() == guess[i],
        score_word(target, guess)[i] is Right <==> i < target.len() && target[i] == guess[i],
        score_word(target, guess)[i] is Wrong <==> !target.contains(guess[i]),
{
    if i < target.len() && target[i] == guess[i] {
        assert(target.contains(guess[i]));
    }
}

impl Letter {
    /// The guessed character that this verdict is about.
    pub open spec fn spec_character(self) -> char {
        match self {
            Letter::Right(c) => c,
            Letter::WrongPlace(c) => c,
            Letter::Wrong(c) => c,
        }
    }

    /// The guessed character that this verdict is about.
    #[verifier::when_used_as_spec(spec_character)]
    pub fn character(self) -> (c: char)
        ensures
            c == self.spec_character(),
    {
        match self {
            Letter::Right(c) => c,
            Letter::WrongPlace(c) => c,
            Letter::Wrong(c) => c,
        }
    }
}

/// Whether `c` occurs among `chars`.
pub fn contains_char(chars: &Vec<char>, c: char) -> (found: bool)
    ensures
        found == chars@.contains(c),
{
    let mut i: usize = 0;
    while i < chars.len()
        invariant
            i <= chars@.len(),
            forall|j: int| 0 <= j < i ==> chars@[j] != c,
        decreases chars@.len() - i,
    {
        if chars[i] == c {
            return true;
        }
        i += 1;
    }
    false
}

/// Scores the character `c` guessed at position `i` against the characters
/// of the hidden word.
pub fn score_letter(target: &Vec<char>, i: usize, c: char) -> (letter: Letter)
    ensures
        letter == score_char(target@, i as int, c),
{
    if i < target.len() && target[i] == c {
        Letter::Right(c)
    } else if contains_char(target, c) {
        Letter::WrongPlace(c)
    } else {
        Letter::Wrong(c)
    }
}

/// Scores every character of `guess` against `target`.
pub fn score_guess(target: &str, guess: &str) -> (letters: Vec<Letter>)
    ensures
        letters@ == score_word(target@, guess@),
{
    let target = chars_of(target);
    let guess = chars_of(guess);
    let mut letters: Vec<Letter> = Vec::new();
    let mut i: usize = 0;
    while i < guess.len()
        invariant
            i <= guess@.len(),
            letters@.len() == i,
            forall|j: int| 0 <= j < i ==> letters@[j] == score_char(target@, j, guess@[j]),
        decreases guess@.len() - i,
    {
        letters.push(score_letter(&target, i, guess[i]));
        i += 1;
    }
    assert(letters@ =~= score_word(target@, guess@));
    letters
}

} // verus!
