//! Strings as sequences of characters: taking them apart, cleaning them and
//! putting them together.

use vstd::prelude::*;

verus! {

/// What `str::trim` returns for the string with the characters `s`.
pub uninterp spec fn trimmed(s: Seq<char>) -> Seq<char>;

/// What `str::to_uppercase` returns for the string with the characters `s`.
pub uninterp spec fn uppercased(s: Seq<char>) -> Seq<char>;

/// Whether `c` is one of the letters `A` to `Z` and `a` to `z`.
pub open spec fn is_ascii_letter(c: char) -> bool {
    ('A' <= c && c <= 'Z') || ('a' <= c && c <= 'z')
}

/// The letters `A` to `Z` and `a` to `z` of `s`, in their order.
pub open spec fn letters_only(s: Seq<char>) -> Seq<char> {
    s.filter(|c: char| is_ascii_letter(c))
}

/// The pieces into which the line feeds of `text` cut it, in order. There is
/// one piece more than there are line feeds, and a piece may be empty.
pub open spec fn split_lines(text: Seq<char>) -> Seq<Seq<char>>
    decreases text.len(),
{
    if text.len() == 0 {
        seq![Seq::empty()]
    } else {
        let before = split_lines(text.drop_last());
        if text.last() == '\n' {
            before.push(Seq::empty())
        } else {
            before.drop_last().push(before.last().push(text.last()))
        }
    }
}

/// The text that `lines` make when a line feed is put between each two.
pub open spec fn join_lines(lines: Seq<Seq<char>>) -> Seq<char>
    decreases lines.len(),
{
    if lines.len() == 0 {
        Seq::empty()
    } else if lines.len() == 1 {
        lines[0]
    } else {
        join_lines(lines.drop_last()) + seq!['\n'] + lines.last()
    }
}

/// Cutting a text at its line feeds gives at least one piece, no piece holds
/// a line feed, and the pieces joined by line feeds are the text again.
pub proof fn lemma_split_lines(text: Seq<char>)
    ensures
        split_lines(text).len() >= 1,
        forall|i: int|
            0 <= i < split_lines(text).len() ==> !(#[trigger] split_lines(text)[i]).contains(
                '\n',
            ),
        join_lines(split_lines(text)) == text,
    decreases text.len(),
{
    let lines = split_lines(text);
    if text.len() == 0 {
        assert(join_lines(lines) =~= text);
    } else {
        let before = split_lines(text.drop_last());
        lemma_split_lines(text.drop_last());
        assert(text =~= text.drop_last().push(text.last()));
        if text.last() == '\n' {
            assert(lines.drop_last() =~= before);
            assert(join_lines(lines) =~= text);
        } else {
            let grown = before.last().push(text.last());
            assert forall|j: int| 0 <= j < grown.len() implies grown[j] != '\n' by {
                if j < before.last().len() {
                    assert(before.last().contains(before.last()[j]));
                }
            }
            assert(lines.drop_last() =~= before.drop_last());
            if before.len() == 1 {
                assert(join_lines(lines) =~= text);
            } else {
                assert(join_lines(lines) =~= join_lines(before).push(text.last()));
            }
        }
    }
}

/// Calls `str::trim`, which returns the part of `s` that is left when the
/// white space at its start and at its end is taken away. The contract only
/// gives the result its name.
#[verifier::external_body]
pub(crate) fn trim(s: &str) -> (t: &str)
    ensures
        t@ == trimmed(s@),
{
    s.trim()
}

/// Calls `str::to_uppercase`, which returns `s` with every character replaced
/// by its upper-case form, which may be more than one character. The contract
/// only gives the result its name.
#[verifier::external_body]
pub(crate) fn to_uppercase(s: &str) -> (u: String)
    ensures
        u@ == uppercased(s@),
{
    s.to_uppercase()
}

/// Calls `String::push`, which appends `c` to the end of `s`.
#[verifier::external_body]
pub(crate) fn push_char(s: &mut String, c: char)
    ensures
        final(s)@ == old(s)@.push(c),
{
    s.push(c)
}

/// The characters of `s`, in order.
pub fn chars_of(s: &str) -> (chars: Vec<char>)
    ensures
        chars@ == s@,
{
    let mut chars: Vec<char> = Vec::new();
    for c in it: s.chars()
        invariant
            it.seq() == s@,
            chars@ == s@.take(it.index()),
    {
        chars.push(c);
    }
    chars
}

/// Whether `c` is one of the letters `A` to `Z` and `a` to `z`.
pub fn is_ascii_alphabetic(c: char) -> (yes: bool)
    ensures
        yes == is_ascii_letter(c),
{
    ('A' <= c && c <= 'Z') || ('a' <= c && c <= 'z')
}

/// Keeps the letters `A` to `Z` and `a` to `z` of `s` and drops every other
/// character.
pub fn keep_ascii_letters(s: &str) -> (kept: String)
    ensures
        kept@ == letters_only(s@),
{
    let mut kept = String::new();
    for c in it: s.chars()
        invariant
            it.seq() == s@,
            kept@ == letters_only(s@.take(it.index())),
    {
        proof {
            let done = s@.take(it.index());
            assert(s@.take(it.index() + 1) =~= done.push(c));
            done.lemma_filter_push(c, |c: char| is_ascii_letter(c));
        }
        if is_ascii_alphabetic(c) {
            push_char(&mut kept, c);
        }
    }
    assert(s@.take(s@.len() as int) =~= s@);
    kept
}

/// Cuts `text` at its line feeds.
pub fn lines_of(text: &str) -> (lines: Vec<String>)
    ensures
        lines.deep_view() == split_lines(text@),
{
    let mut lines: Vec<String> = Vec::new();
    let mut current = String::new();
    for c in it: text.chars()
        invariant
            it.seq() == text@,
            lines.deep_view().push(current@) == split_lines(text@.take(it.index())),
    {
        proof {
            let done = text@.take(it.index());
            let next = text@.take(it.index() + 1);
            assert(next.drop_last() =~= done);
            assert(next.last() == c);
            assert(lines.deep_view().push(current@).drop_last() =~= lines.deep_view());
        }
        if c == '\n' {
            let ghost before = lines.deep_view();
            let ghost line = current@;
            lines.push(current);
            current = String::new();
            assert(lines.deep_view() =~= before.push(line));
        } else {
            push_char(&mut current, c);
        }
    }
    let ghost before = lines.deep_view();
    lines.push(current);
    proof {
        assert(lines.deep_view() =~= before.push(current@));
        assert(text@.take(text@.len() as int) =~= text@);
    }
    lines
}

} // verus!
