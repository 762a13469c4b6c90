//! The list of accepted words: reading it, testing a guess against it and
//! choosing the word of the day from it.

use crate::text::{
    keep_ascii_letters, letters_only, lines_of, split_lines, to_uppercase, trim, trimmed,
    uppercased,
};
use rand::rngs::StdRng;
use rand::seq::SliceRandom;
use rand::SeedableRng;
use vstd::prelude::*;
use vstd::utf8::{encode_utf8, is_ascii_chars, is_ascii_chars_encode_utf8};

verus! {

/// The number of characters of every word of the game.
pub const WORD_LENGTH: usize = 5;

/// The number of guesses that a player has.
pub const MAX_TRIES: usize = 6;

/// The number of seconds of a day.
pub const SECONDS_PER_DAY: u64 = 86400;

/// The number of leading lines of a word list that hold no word.
pub const HEADER_LINES: usize = 2;

/// The word that the generator seeded with `seed` chooses from `words`:
/// what `SliceRandom::choose` returns with a `StdRng` made by
/// `SeedableRng::seed_from_u64`.
pub uninterp spec fn seeded_choice(words: Seq<Seq<char>>, seed: u64) -> Option<Seq<char>>;

/// A line of input as the game reads it: without the white space around it,
/// in upper case, and with nothing left but the letters `A` to `Z`.
pub open spec fn sanitized(word: Seq<char>) -> Seq<char> {
    letters_only(uppercased(trimmed(word)))
}

/// Whether `word` takes `WORD_LENGTH` bytes and is one of `words`.
pub open spec fn is_valid_word(word: Seq<char>, words: Seq<Seq<char>>) -> bool {
    encode_utf8(word).len() == WORD_LENGTH && words.contains(word)
}

/// The words among `lines`: each line sanitized, and of these the ones of
/// `WORD_LENGTH` characters, in their order.
pub open spec fn words_among(lines: Seq<Seq<char>>) -> Seq<Seq<char>> {
    lines.map_values(|line: Seq<char>| sanitized(line)).filter(
        |word: Seq<char>| word.len() == WORD_LENGTH,
    )
}

/// The words that the text of a word list holds: the words among its lines
/// but for the header.
pub open spec fn listed_words(text: Seq<char>) -> Seq<Seq<char>> {
    let lines = split_lines(text);
    if lines.len() >= HEADER_LINES {
        words_among(lines.skip(HEADER_LINES as int))
    } else {
        Seq::empty()
    }
}

/// The day in which the second `secs` lies, counted from the day of second 0.
pub open spec fn day_of(secs: u64) -> u64 {
    secs / SECONDS_PER_DAY
}

/// Nothing but ASCII letters is left in a sanitized line, so it takes as
/// many bytes as it has characters.
pub proof fn lemma_sanitized_is_ascii(word: Seq<char>)
    ensures
        forall|i: int|
            0 <= i < sanitized(word).len() ==> crate::text::is_ascii_letter(
                #[trigger] sanitized(word)[i],
            ),
        is_ascii_chars(sanitized(word)),
        encode_utf8(sanitized(word)).len() == sanitized(word).len(),
{
    let raw = uppercased(trimmed(word));
    let pred = |c: char| crate::text::is_ascii_letter(c);
    assert forall|i: int| 0 <= i < sanitized(word).len() implies crate::text::is_ascii_letter(
        #[trigger] sanitized(word)[i],
    ) by {
        raw.lemma_filter_pred(pred, i);
    }
    is_ascii_chars_encode_utf8(sanitized(word));
}

/// No line holds no word.
pub proof fn lemma_words_among_empty()
    ensures
        words_among(Seq::empty()) == Seq::<Seq<char>>::empty(),
{
    let clean = Seq::<Seq<char>>::empty().map_values(|line: Seq<char>| sanitized(line));
    clean.lemma_filter_len(|word: Seq<char>| word.len() == WORD_LENGTH);
    assert(words_among(Seq::empty()) =~= Seq::<Seq<char>>::empty());
}

/// One line more adds its sanitized form to the words where that has
/// `WORD_LENGTH` characters, and nothing else.
pub proof fn lemma_words_among_push(lines: Seq<Seq<char>>, line: Seq<char>)
    ensures
        words_among(lines.push(line)) == if sanitized(line).len() == WORD_LENGTH {
            words_among(lines).push(sanitized(line))
        } else {
            words_among(lines)
        },
{
    let clean = lines.map_values(|line: Seq<char>| sanitized(line));
    assert(lines.push(line).map_values(|line: Seq<char>| sanitized(line)) =~= clean.push(
        sanitized(line),
    ));
    clean.lemma_filter_push(sanitized(line), |word: Seq<char>| word.len() == WORD_LENGTH);
}

/// Calls `SeedableRng::seed_from_u64` for a `StdRng` and hands the generator
/// to `SliceRandom::choose`, which returns `None` for an empty slice and else
/// one of its items, at the index that the generator draws. The generator is
/// a function of the seed alone, so the contract gives the result a name,
/// and states with it that the word is one of `words`.
#[verifier::external_body]
fn choose_seeded<'a>(words: &'a Vec<String>, seed: u64) -> (word: Option<&'a String>)
    ensures
        match word {
            Some(w) => seeded_choice(words.deep_view(), seed) == Some(w@),
            None => seeded_choice(words.deep_view(), seed) is None,
        },
        word is None <==> words@.len() == 0,
        word matches Some(w) ==> words.deep_view().contains(w@),
{
    let mut rng = StdRng::seed_from_u64(seed);
    words.choose(&mut rng)
}

/// Cleans a line of input: takes the white space around it away, puts it in
/// upper case and drops every character but the letters `A` to `Z`.
pub fn sanitize_word(word: &str) -> (clean: String)
    ensures
        clean@ == sanitized(word@),
{
    let upper = to_uppercase(trim(word));
    keep_ascii_letters(upper.as_str())
}

/// Whether `word` takes `WORD_LENGTH` bytes and is one of `words_list`.
pub fn validate_word(word: &str, words_list: &Vec<String>) -> (valid: bool)
    ensures
        valid == is_valid_word(word@, words_list.deep_view()),
{
    if word.as_bytes().len() != WORD_LENGTH {
        return false;
    }
    let wanted = word.to_owned();
    let mut i: usize = 0;
    while i < words_list.len()
        invariant
            i <= words_list@.len(),
            wanted@ == word@,
            encode_utf8(word@).len() == WORD_LENGTH,
            forall|j: int| 0 <= j < i ==> words_list.deep_view()[j] != word@,
        decreases words_list@.len() - i,
    {
        if words_list[i] == wanted {
            assert(words_list.deep_view()[i as int] == word@);
            return true;
        }
        i += 1;
    }
    false
}

/// Reads a word list: drops the header lines, sanitizes every other line
/// and keeps the ones that are `WORD_LENGTH` characters long.
pub fn words_list(text: &str) -> (words: Vec<String>)
    ensures
        words.deep_view() == listed_words(text@),
{
    let lines = lines_of(text);
    let mut words: Vec<String> = Vec::new();
    if lines.len() < HEADER_LINES {
        return words;
    }
    let ghost body = split_lines(text@).skip(HEADER_LINES as int);
    proof {
        lemma_words_among_empty();
        assert(body.take(0) =~= Seq::empty());
    }
    let mut i: usize = HEADER_LINES;
    while i < lines.len()
        invariant
            HEADER_LINES <= i <= lines@.len(),
            lines.deep_view() == split_lines(text@),
            body == split_lines(text@).skip(HEADER_LINES as int),
            words.deep_view() == words_among(body.take(i - HEADER_LINES)),
        decreases lines@.len() - i,
    {
        let word = sanitize_word(lines[i].as_str());
        proof {
            assert(lines.deep_view()[i as int] == lines@[i as int]@);
            assert(body.take(i + 1 - HEADER_LINES) =~= body.take(i - HEADER_LINES).push(
                lines@[i as int]@,
            ));
            lemma_words_among_push(body.take(i - HEADER_LINES), lines@[i as int]@);
        }
        if word.as_str().unicode_len() == WORD_LENGTH {
            let ghost before = words.deep_view();
            words.push(word);
            assert(words.deep_view() =~= before.push(word@));
        }
        i += 1;
    }
    assert(body.take(i - HEADER_LINES) =~= body);
    words
}

/// The number of the day in which the second `secs` lies.
pub fn day_seed(secs: u64) -> (day: u64)
    ensures
        day == day_of(secs),
{
    secs / SECONDS_PER_DAY
}

/// The word of the day `seed`: the same for everyone who asks with the same
/// list and the same day. There is none where the list is empty.
pub fn daily_word(words: &Vec<String>, seed: u64) -> (word: Option<String>)
    ensures
        match word {
            Some(w) => seeded_choice(words.deep_view(), seed) == Some(w@),
            None => seeded_choice(words.deep_view(), seed) is None,
        },
        word is None <==> words@.len() == 0,
        word matches Some(w) ==> words.deep_view().contains(w@),
{
    match choose_seeded(words, seed) {
        Some(w) => Some(w.clone()),
        None => None,
    }
}

} // verus!
