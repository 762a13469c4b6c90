use rand::rngs::StdRng;
use rand::seq::SliceRandom;
use rand::SeedableRng;
use wordle::text::{chars_of, is_ascii_alphabetic, keep_ascii_letters, lines_of};
use wordle::words::{
    daily_word, day_seed, sanitize_word, validate_word, words_list, HEADER_LINES, MAX_TRIES,
    SECONDS_PER_DAY, WORD_LENGTH,
};

fn list(words: &[&str]) -> Vec<String> {
    words.iter().map(|w| w.to_string()).collect()
}

#[test]
fn constants_of_the_game() {
    assert_eq!(WORD_LENGTH, 5);
    assert_eq!(MAX_TRIES, 6);
    assert_eq!(SECONDS_PER_DAY, 86400);
    assert_eq!(HEADER_LINES, 2);
}

#[test]
fn sanitize_trims_and_uppercases() {
    assert_eq!(sanitize_word("  crane\n"), "CRANE");
    assert_eq!(sanitize_word("Crane"), "CRANE");
    assert_eq!(sanitize_word("CRANE"), "CRANE");
}

#[test]
fn sanitize_drops_what_is_no_letter() {
    assert_eq!(sanitize_word("cr4ne!"), "CRNE");
    assert_eq!(sanitize_word("c r-a_n.e"), "CRANE");
    assert_eq!(sanitize_word("école"), "COLE");
    assert_eq!(sanitize_word(""), "");
    assert_eq!(sanitize_word(" \t\r\n"), "");
}

#[test]
fn sanitize_uppercases_beyond_ascii() {
    assert_eq!(sanitize_word("straße"), "STRASSE");
    assert_eq!(sanitize_word("ﬁnal"), "FINAL");
}

#[test]
fn keep_ascii_letters_keeps_both_cases() {
    assert_eq!(keep_ascii_letters("aZ09 é[`{@"), "aZ");
    assert_eq!(keep_ascii_letters(""), "");
}

#[test]
fn ascii_letters_are_told_apart() {
    for c in ['A', 'Z', 'a', 'z', 'M', 'q'] {
        assert!(is_ascii_alphabetic(c));
    }
    for c in ['@', '[', '`', '{', '0', ' ', 'é', 'Σ'] {
        assert!(!is_ascii_alphabetic(c));
    }
}

#[test]
fn chars_of_gives_every_character() {
    assert_eq!(chars_of("aé\nz"), vec!['a', 'é', '\n', 'z']);
    assert!(chars_of("").is_empty());
}

#[test]
fn lines_are_cut_at_line_feeds() {
    assert_eq!(lines_of(""), list(&[""]));
    assert_eq!(lines_of("abc"), list(&["abc"]));
    assert_eq!(lines_of("a\nb"), list(&["a", "b"]));
    assert_eq!(lines_of("a\n"), list(&["a", ""]));
    assert_eq!(lines_of("\n\na\r\n"), list(&["", "", "a\r", ""]));
}

#[test]
fn lines_are_what_split_gives() {
    let text = "one\n\ntwo\nthree\n";
    let expected: Vec<String> = text.split('\n').map(|l| l.to_string()).collect();
    assert_eq!(lines_of(text), expected);
}

#[test]
fn validate_needs_length_and_membership() {
    let words = list(&["CRANE", "SPEED", "ABC"]);
    assert!(validate_word("CRANE", &words));
    assert!(validate_word("SPEED", &words));
    assert!(!validate_word("SNAKE", &words));
    assert!(!validate_word("ABC", &words));
    assert!(!validate_word("crane", &words));
    assert!(!validate_word("", &words));
    assert!(!validate_word("CRANE", &Vec::new()));
}

#[test]
fn validate_counts_bytes() {
    let words = list(&["CAFÉ", "ÉCOLE"]);
    assert!(validate_word("CAFÉ", &words));
    assert!(!validate_word("ÉCOLE", &words));
}

#[test]
fn words_list_skips_the_header_and_cleans_the_rest() {
    let text = "title\nabout\ncrane\nab\n speed \nhouses\nSn4ake\n\nsmoky";
    assert_eq!(words_list(text), list(&["CRANE", "SPEED", "SNAKE", "SMOKY"]));
}

#[test]
fn words_list_of_a_header_alone_is_empty() {
    assert!(words_list("").is_empty());
    assert!(words_list("crane").is_empty());
    assert!(words_list("crane\nspeed").is_empty());
    assert_eq!(words_list("crane\nspeed\nsnake"), list(&["SNAKE"]));
}

#[test]
fn day_seed_counts_whole_days() {
    assert_eq!(day_seed(0), 0);
    assert_eq!(day_seed(86399), 0);
    assert_eq!(day_seed(86400), 1);
    assert_eq!(day_seed(1_700_000_000), 19675);
    assert_eq!(day_seed(u64::MAX), u64::MAX / 86400);
}

#[test]
fn daily_word_of_an_empty_list_is_none() {
    assert_eq!(daily_word(&Vec::new(), 7), None);
}

#[test]
fn daily_word_is_one_of_the_list() {
    let words = list(&["CRANE", "SPEED", "SNAKE", "SMOKY", "CRATE"]);
    for seed in 0..50 {
        let word = daily_word(&words, seed).unwrap();
        assert!(words.contains(&word));
    }
}

#[test]
fn daily_word_is_the_same_for_the_same_day() {
    let words = list(&["CRANE", "SPEED", "SNAKE", "SMOKY", "CRATE"]);
    for seed in [0, 1, 19675, u64::MAX] {
        assert_eq!(daily_word(&words, seed), daily_word(&words, seed));
    }
}

#[test]
fn daily_word_is_what_the_seeded_generator_chooses() {
    let words = list(&["CRANE", "SPEED", "SNAKE", "SMOKY", "CRATE", "HOUSE", "MOUSE"]);
    let mut seen = Vec::new();
    for seed in 0..200 {
        let mut rng = StdRng::seed_from_u64(seed);
        let expected = words.choose(&mut rng).cloned();
        let word = daily_word(&words, seed);
        assert_eq!(word, expected);
        let word = word.unwrap();
        if !seen.contains(&word) {
            seen.push(word);
        }
    }
    assert!(seen.len() > 1);
}
