//! The game state and the single operation that changes it.

use crate::letter::{score_guess, score_word, status_of, GameStatus, Letter};
use vstd::prelude::*;

verus! {

/// Why a game could not be set up, or a guess was not taken.
#[derive(Copy, Clone, Debug, PartialEq, Eq, Structural)]
pub enum GameError {
    /// The hidden word does not have the configured length.
    InvalidTargetLength,
    /// The guess does not have the configured length.
    InvalidGuessLength,
    /// All allowed guesses have been made already.
    TooManyAttempts,
}

/// A game as the contracts see it.
pub struct GameView {
    /// The hidden word.
    pub target: Seq<char>,
    /// The guesses taken so far, oldest first.
    pub guesses: Seq<Seq<char>>,
    /// The number of guesses allowed.
    pub max_tries: nat,
    /// The number of characters of the hidden word and of every guess.
    pub word_length: nat,
}

impl GameView {
    /// A game that has just been set up.
    pub open spec fn fresh(target: Seq<char>, word_length: nat, max_tries: nat) -> GameView {
        GameView { target, guesses: Seq::empty(), max_tries, word_length }
    }

    /// The hidden word and every guess have the configured length, and no
    /// more guesses were taken than are allowed.
    pub open spec fn wf(self) -> bool {
        &&& self.target.len() == self.word_length
        &&& self.guesses.len() <= self.max_tries
        &&& forall|i: int|
            0 <= i < self.guesses.len() ==> (#[trigger] self.guesses[i]).len() == self.word_length
    }

    /// The verdicts on every guess taken so far, oldest first.
    pub open spec fn scores(self) -> Seq<Seq<Letter>> {
        Seq::new(self.guesses.len(), |i: int| score_word(self.target, self.guesses[i]))
    }

    /// The reason for which `word` is refused, if it is. The length is
    /// looked at before the number of guesses.
    pub open spec fn refusal(self, word: Seq<char>) -> Option<GameError> {
        if word.len() != self.word_length {
            Some(GameError::InvalidGuessLength)
        } else if self.guesses.len() >= self.max_tries {
            Some(GameError::TooManyAttempts)
        } else {
            None
        }
    }

    /// The game with `word` recorded as its latest guess.
    pub open spec fn record(self, word: Seq<char>) -> GameView {
        GameView { guesses: self.guesses.push(word), ..self }
    }

    /// The game after `word` has been submitted: recorded where it is
    /// accepted, the game as it was where it is refused.
    pub open spec fn submit(self, word: Seq<char>) -> GameView {
        if self.refusal(word) is None {
            self.record(word)
        } else {
            self
        }
    }

    /// The game after each of `words` has been submitted in turn.
    pub open spec fn submit_all(self, words: Seq<Seq<char>>) -> GameView
        decreases words.len(),
    {
        if words.len() == 0 {
            self
        } else {
            self.submit_all(words.drop_last()).submit(words.last())
        }
    }
}

/// Submitting a guess keeps a well-formed game well formed; in particular
/// the number of guesses taken never passes the number allowed.
pub proof fn lemma_submit_preserves_wf(game: GameView, word: Seq<char>)
    requires
        game.wf(),
    ensures
        game.submit(word).wf(),
        game.submit(word).target == game.target,
        game.submit(word).max_tries == game.max_tries,
        game.submit(word).word_length == game.word_length,
{
}

/// A refused guess, of the wrong length or beyond the allowed number, leaves
/// the game as it was, however often it is submitted.
pub proof fn lemma_refused_guess_changes_nothing(game: GameView, word: Seq<char>)
    requires
        game.refusal(word) is Some,
    ensures
        game.submit(word) == game,
        game.submit(word).submit(word) == game,
{
}

/// Submitting guesses one after another keeps the game well formed, and
/// records each guess of the right length for which an attempt was left.
pub proof fn lemma_submit_all(game: GameView, words: Seq<Seq<char>>)
    requires
        game.wf(),
    ensures
        game.submit_all(words).wf(),
        game.submit_all(words).target == game.target,
        game.submit_all(words).max_tries == game.max_tries,
        game.submit_all(words).word_length == game.word_length,
        game.guesses.len() <= game.submit_all(words).guesses.len() <= game.guesses.len()
            + words.len(),
        (forall|i: int| 0 <= i < words.len() ==> (#[trigger] words[i]).len() == game.word_length)
            ==> game.submit_all(words).guesses.len() == if game.guesses.len() + words.len()
            <= game.max_tries {
            game.guesses.len() + words.len()
        } else {
            game.max_tries
        },
    decreases words.len(),
{
    if words.len() > 0 {
        lemma_submit_all(game, words.drop_last());
        lemma_submit_preserves_wf(game.submit_all(words.drop_last()), words.last());
        if forall|i: int| 0 <= i < words.len() ==> (#[trigger] words[i]).len() == game.word_length {
            assert forall|i: int| 0 <= i < words.drop_last().len() implies (
            #[trigger] words.drop_last()[i]).len() == game.word_length by {
                assert(words.drop_last()[i] == words[i]);
            }
        }
    }
}

/// Once as many guesses of the right length have been submitted to a new
/// game as are allowed, one more is refused as one too many, and the number
/// of guesses taken stays at the number allowed.
pub proof fn lemma_budget_is_enforced(
    target: Seq<char>,
    max_tries: nat,
    words: Seq<Seq<char>>,
    extra: Seq<char>,
)
    requires
        words.len() >= max_tries,
        forall|i: int| 0 <= i < words.len() ==> (#[trigger] words[i]).len() == target.len(),
        extra.len() == target.len(),
    ensures
        ({
            let played = GameView::fresh(target, target.len(), max_tries).submit_all(words);
            &&& played.guesses.len() == max_tries
            &&& played.refusal(extra) == Some(GameError::TooManyAttempts)
            &&& played.submit(extra) == played
        }),
{
    lemma_submit_all(GameView::fresh(target, target.len(), max_tries), words);
}

/// What one accepted guess brought, as the contracts see it.
pub struct TryResultView {
    /// The verdicts on the guess, one for each character.
    pub letters: Seq<Letter>,
    /// The number of guesses taken, this one included.
    pub tries: nat,
    /// The number of guesses allowed.
    pub max_tries: nat,
}

impl TryResultView {
    /// The status of the game after this guess.
    pub open spec fn status(self) -> GameStatus {
        status_of(self.letters, self.tries, self.max_tries)
    }
}

/// The outcome of one accepted guess.
pub struct TryResult {
    result: Vec<Letter>,
    tries: usize,
    max_tries: usize,
}

impl View for TryResult {
    type V = TryResultView;

    closed spec fn view(&self) -> TryResultView {
        TryResultView {
            letters: self.result@,
            tries: self.tries as nat,
            max_tries: self.max_tries as nat,
        }
    }
}

impl TryResult {
    /// The verdicts on the guess, one for each character.
    pub fn get_result(&self) -> (letters: &Vec<Letter>)
        ensures
            letters@ == self@.letters,
    {
        &self.result
    }

    /// The number of guesses taken, this one included.
    pub fn get_tries(&self) -> (tries: usize)
        ensures
            tries == self@.tries,
    {
        self.tries
    }

    /// The number of guesses allowed.
    pub fn get_max_tries(&self) -> (max_tries: usize)
        ensures
            max_tries == self@.max_tries,
    {
        self.max_tries
    }

    /// Whether the game is won, lost or still going on after this guess.
    ///
    /// The game is won when every letter is right, even on the last allowed
    /// guess; otherwise it is lost when no guess is left.
    pub fn get_game_status(&self) -> (status: GameStatus)
        ensures
            status == self@.status(),
    {
        let n: usize = self.result.len();
        let mut i: usize = 0;
        while i < n
            invariant
                n == self.result@.len(),
                i <= n,
                forall|j: int| 0 <= j < i ==> (#[trigger] self.result@[j]) is Right,
            decreases n - i,
        {
            match self.result[i] {
                Letter::Right(_) => {},
                _ => {
                    return if self.tries == self.max_tries {
                        GameStatus::Lost
                    } else {
                        GameStatus::Playing
                    };
                },
            }
            i += 1;
        }
        GameStatus::Won
    }
}

/// One game: the hidden word, the guesses taken and their verdicts.
pub struct Game {
    selected_word: String,
    word_list: Vec<String>,
    max_tries: usize,
    tries: Vec<Vec<Letter>>,
    word_length: usize,
}

impl View for Game {
    type V = GameView;

    closed spec fn view(&self) -> GameView {
        GameView {
            target: self.selected_word@,
            guesses: self.word_list.deep_view(),
            max_tries: self.max_tries as nat,
            word_length: self.word_length as nat,
        }
    }
}

impl Game {
    /// The verdicts that the game holds are those of its guesses.
    pub closed spec fn scores_kept(&self) -> bool {
        self.tries.deep_view() == self@.scores()
    }

    /// The game is well formed, and the verdicts it holds are those of its
    /// guesses.
    pub open spec fn wf(&self) -> bool {
        &&& self@.wf()
        &&& self.scores_kept()
    }

    /// Sets up a game with no guess taken. It is refused where the hidden
    /// word does not have `word_length` characters.
    pub fn new(selected_word: &str, word_length: usize, max_tries: usize) -> (game: Result<
        Game,
        GameError,
    >)
        ensures
            selected_word@.len() == word_length <==> game is Ok,
            game matches Ok(g) ==> g.wf() && g@ == GameView::fresh(
                selected_word@,
                word_length as nat,
                max_tries as nat,
            ),
            game matches Err(e) ==> e == GameError::InvalidTargetLength,
    {
        if selected_word.unicode_len() != word_length {
            return Err(GameError::InvalidTargetLength);
        }
        let game = Game {
            selected_word: selected_word.to_owned(),
            word_list: Vec::new(),
            tries: Vec::new(),
            word_length,
            max_tries,
        };
        assert(game.word_list.deep_view() =~= Seq::<Seq<char>>::empty());
        assert(game.tries.deep_view() =~= game@.scores());
        Ok(game)
    }

    /// The hidden word.
    pub fn get_word(&self) -> (word: &str)
        ensures
            word@ == self@.target,
    {
        self.selected_word.as_str()
    }

    /// The guesses taken so far, oldest first.
    pub fn get_word_list(&self) -> (words: &Vec<String>)
        ensures
            words.deep_view() == self@.guesses,
    {
        &self.word_list
    }

    /// The verdicts on the guesses taken so far, oldest first.
    pub fn get_tries(&self) -> (tries: &Vec<Vec<Letter>>)
        requires
            self.wf(),
        ensures
            tries.deep_view() == self@.scores(),
    {
        &self.tries
    }

    /// The number of guesses allowed.
    pub fn get_max_tries(&self) -> (max_tries: usize)
        ensures
            max_tries == self@.max_tries,
    {
        self.max_tries
    }

    /// The number of characters of the hidden word and of every guess.
    pub fn get_word_length(&self) -> (word_length: usize)
        ensures
            word_length == self@.word_length,
    {
        self.word_length
    }

    /// Submits a guess.
    ///
    /// A guess of the wrong length is refused, and so is any guess once all
    /// allowed guesses have been made; a refused guess leaves the game as it
    /// was. An accepted guess is scored, recorded as the latest one, and its
    /// verdicts are returned with the number of guesses now taken.
    pub fn add_word(&mut self, word: &str) -> (outcome: Result<TryResult, GameError>)
        requires
            old(self).wf(),
        ensures
            final(self).wf(),
            final(self)@ == old(self)@.submit(word@),
            match outcome {
                Ok(result) => {
                    &&& old(self)@.refusal(word@) is None
                    &&& result@ == (TryResultView {
                        letters: score_word(old(self)@.target, word@),
                        tries: old(self)@.guesses.len() + 1,
                        max_tries: old(self)@.max_tries,
                    })
                },
                Err(e) => {
                    &&& old(self)@.refusal(word@) == Some(e)
                    &&& *final(self) == *old(self)
                },
            },
    {
        if word.unicode_len() != self.word_length {
            return Err(GameError::InvalidGuessLength);
        }
        if self.word_list.len() >= self.max_tries {
            return Err(GameError::TooManyAttempts);
        }
        let result = score_guess(self.selected_word.as_str(), word);
        let new_res = result.clone();

        self.word_list.push(word.to_owned());
        self.tries.push(result);

        proof {
            assert(self.word_list.deep_view() =~= old(self)@.guesses.push(word@));
            assert(result.deep_view() =~= score_word(self@.target, word@));
            assert(old(self).tries.deep_view().len() == old(self).tries@.len());
            assert(old(self)@.scores().len() == old(self).word_list@.len());
            assert(self@.guesses.len() == self.tries@.len());
            assert forall|i: int| 0 <= i < self.tries@.len() implies self.tries.deep_view()[i]
                == self@.scores()[i] by {
                if i < old(self).tries@.len() {
                    assert(self.tries.deep_view()[i] == old(self).tries.deep_view()[i]);
                    assert(self@.guesses[i] == old(self)@.guesses[i]);
                    assert(self@.scores()[i] == old(self)@.scores()[i]);
                } else {
                    assert(self@.guesses[i] == word@);
                    assert(self.tries@[i] == result);
                }
            }
            assert(self.tries.deep_view() =~= self@.scores());
        }
        Ok(TryResult { result: new_res, tries: self.word_list.len(), max_tries: self.max_tries })
    }
}

} // verus!
