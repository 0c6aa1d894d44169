//! Headings from note names: `design-decisions` becomes `Design Decisions`.

use vstd::prelude::*;
use crate::chars::{chars_of, string_of};

verus! {

/// The uppercase mapping of `c` in Unicode, which may hold more than one
/// character.
pub uninterp spec fn uppercase_of(c: char) -> Seq<char>;

/// The two characters that separate the words of a note name.
pub open spec fn is_separator(c: char) -> bool {
    c == '-' || c == '_'
}

/// The words of `s`: the stretches between separators, empty ones included.
/// A text without separators is one word; so is the empty text.
pub open spec fn split_words(s: Seq<char>) -> Seq<Seq<char>>
    decreases s.len(),
{
    if s.len() == 0 {
        seq![Seq::<char>::empty()]
    } else {
        let before = split_words(s.drop_last());
        if is_separator(s.last()) {
            before.push(Seq::<char>::empty())
        } else {
            before.drop_last().push(before.last().push(s.last()))
        }
    }
}

/// `word` with `head` in place of its first character; the empty word stays
/// empty.
pub open spec fn replace_first(word: Seq<char>, head: Seq<char>) -> Seq<char> {
    if word.len() == 0 {
        word
    } else {
        head + word.skip(1)
    }
}

/// `word` with its first character in uppercase and the rest as it was.
pub open spec fn capitalized(word: Seq<char>) -> Seq<char> {
    if word.len() == 0 {
        word
    } else {
        replace_first(word, uppercase_of(word[0]))
    }
}

/// Each word of `words` capitalized.
pub open spec fn capitalized_all(words: Seq<Seq<char>>) -> Seq<Seq<char>> {
    Seq::new(words.len(), |i: int| capitalized(words[i]))
}

/// The words of `words` with a single space between neighbours.
pub open spec fn join_words(words: Seq<Seq<char>>) -> Seq<char>
    decreases words.len(),
{
    if words.len() == 0 {
        Seq::<char>::empty()
    } else if words.len() == 1 {
        words[0]
    } else {
        join_words(words.drop_last()) + seq![' '] + words.last()
    }
}

/// The heading text for the note name `s`.
pub open spec fn titlecase_of(s: Seq<char>) -> Seq<char> {
    join_words(capitalized_all(split_words(s)))
}

/// What each word of `words` holds.
pub open spec fn word_views(words: Seq<Vec<char>>) -> Seq<Seq<char>> {
    Seq::new(words.len(), |i: int| words[i]@)
}

/// Calls `char::to_uppercase` and collects what it yields. The contract only
/// gives that mapping its name.
#[verifier::external_body]
fn uppercase(c: char) -> (out: Vec<char>)
    ensures
        out@ == uppercase_of(c),
{
    c.to_uppercase().collect()
}

/// Splits `s` at every `-` and `_`.
pub fn words(s: &str) -> (out: Vec<Vec<char>>)
    ensures
        word_views(out@) == split_words(s@),
{
    let text = chars_of(s);
    let mut out: Vec<Vec<char>> = Vec::new();
    let mut current: Vec<char> = Vec::new();
    let mut i: usize = 0;
    while i < text.len()
        invariant
            i <= text.len(),
            text@ == s@,
            word_views(out@).push(current@) == split_words(text@.take(i as int)),
        decreases text.len() - i,
    {
        let c = text[i];
        assert(text@.take(i as int + 1).drop_last() == text@.take(i as int));
        if c == '-' || c == '_' {
            out.push(current);
            current = Vec::new();
        } else {
            current.push(c);
        }
        i += 1;
    }
    assert(text@.take(i as int) == text@);
    out.push(current);
    out
}

/// Puts `head` in the place of the first character of `word`.
pub fn with_first_replaced(word: &Vec<char>, head: &Vec<char>) -> (out: Vec<char>)
    ensures
        out@ == replace_first(word@, head@),
{
    let mut out: Vec<char> = Vec::new();
    if word.len() == 0 {
        return out;
    }
    let mut i: usize = 0;
    while i < head.len()
        invariant
            i <= head.len(),
            out@ == head@.take(i as int),
        decreases head.len() - i,
    {
        out.push(head[i]);
        i += 1;
    }
    let mut j: usize = 1;
    while j < word.len()
        invariant
            1 <= j <= word.len(),
            out@ == head@ + word@.subrange(1, j as int),
        decreases word.len() - j,
    {
        out.push(word[j]);
        j += 1;
    }
    out
}

/// Puts the first character of `word` in uppercase.
pub fn capitalize(word: &Vec<char>) -> (out: Vec<char>)
    ensures
        out@ == capitalized(word@),
{
    if word.len() == 0 {
        Vec::new()
    } else {
        let head = uppercase(word[0]);
        with_first_replaced(word, &head)
    }
}

/// Writes the words one after another, a space between neighbours.
pub fn join(words: &Vec<Vec<char>>) -> (out: String)
    ensures
        out@ == join_words(word_views(words@)),
{
    let mut out: Vec<char> = Vec::new();
    let mut i: usize = 0;
    while i < words.len()
        invariant
            i <= words.len(),
            out@ == join_words(word_views(words@).take(i as int)),
        decreases words.len() - i,
    {
        let ghost views = word_views(words@);
        if i > 0 {
            out.push(' ');
        }
        let word = &words[i];
        let ghost start = out@;
        let mut j: usize = 0;
        while j < word.len()
            invariant
                j <= word.len(),
                out@ == start + word@.take(j as int),
            decreases word.len() - j,
        {
            out.push(word[j]);
            j += 1;
        }
        assert(views.take(i as int + 1).drop_last() == views.take(i as int));
        i += 1;
    }
    assert(word_views(words@).take(i as int) == word_views(words@));
    string_of(&out)
}

/// The heading text for a note name: the name is split at `-` and `_`, the
/// first character of each word is put in uppercase, and the words are
/// joined by single spaces. The rest of each word stays as it is, and an
/// empty word stays empty, so two separators in a row give two spaces.
pub fn titlecase(s: &str) -> (out: String)
    ensures
        out@ == titlecase_of(s@),
{
    let parts = words(s);
    let mut done: Vec<Vec<char>> = Vec::new();
    let mut i: usize = 0;
    while i < parts.len()
        invariant
            i <= parts.len(),
            word_views(done@) == capitalized_all(word_views(parts@)).take(i as int),
        decreases parts.len() - i,
    {
        let ghost shown = word_views(done@);
        let word = capitalize(&parts[i]);
        done.push(word);
        assert(word_views(done@) == shown.push(done@.last()@));
        i += 1;
    }
    assert(capitalized_all(word_views(parts@)).take(i as int) == capitalized_all(
        word_views(parts@),
    ));
    join(&done)
}

/// A text without separators is one word.
proof fn lemma_split_single_word(s: Seq<char>)
    requires
        forall|i: int| 0 <= i < s.len() ==> !is_separator(#[trigger] s[i]),
    ensures
        split_words(s) == seq![s],
    decreases s.len(),
{
    if s.len() == 0 {
        assert(s == Seq::<char>::empty());
    } else {
        lemma_split_single_word(s.drop_last());
        let before = split_words(s.drop_last());
        assert(before.last().push(s.last()) == s);
    }
}

/// The words of a text that holds a separator are the words before it and
/// the words behind it.
proof fn lemma_split_at_separator(a: Seq<char>, sep: char, b: Seq<char>)
    requires
        is_separator(sep),
    ensures
        split_words(a + seq![sep] + b) == split_words(a) + split_words(b),
        split_words(a).len() > 0,
        split_words(b).len() > 0,
    decreases b.len(),
{
    lemma_split_is_not_empty(a);
    lemma_split_is_not_empty(b);
    let whole = a + seq![sep] + b;
    if b.len() == 0 {
        assert(whole.drop_last() == a);
    } else {
        lemma_split_at_separator(a, sep, b.drop_last());
        lemma_split_is_not_empty(b.drop_last());
        assert(whole.drop_last() == a + seq![sep] + b.drop_last());
    }
}

/// Every text has at least one word.
proof fn lemma_split_is_not_empty(s: Seq<char>)
    ensures
        split_words(s).len() > 0,
    decreases s.len(),
{
    if s.len() > 0 {
        lemma_split_is_not_empty(s.drop_last());
    }
}

/// Joining two lists of words puts a space between what each gives.
proof fn lemma_join_of_two_lists(left: Seq<Seq<char>>, right: Seq<Seq<char>>)
    requires
        left.len() > 0,
        right.len() > 0,
    ensures
        join_words(left + right) == join_words(left) + seq![' '] + join_words(right),
    decreases right.len(),
{
    let whole = left + right;
    assert(whole.drop_last() == left + right.drop_last());
    if right.len() > 1 {
        lemma_join_of_two_lists(left, right.drop_last());
    }
}

/// The title of a single word: for every text that is not empty and holds
/// no separator, `titlecase` puts the first character in uppercase and
/// keeps the rest as it is.
pub proof fn lemma_titlecase_single_word(s: Seq<char>)
    requires
        s.len() > 0,
        forall|i: int| 0 <= i < s.len() ==> !is_separator(#[trigger] s[i]),
    ensures
        titlecase_of(s) == uppercase_of(s[0]) + s.skip(1),
{
    lemma_split_single_word(s);
}

/// The title of words: a separator in the name becomes one space in the
/// title, with the title of what stands before it in front and the title
/// of what stands behind it at the back.
pub proof fn lemma_titlecase_joins_words(a: Seq<char>, sep: char, b: Seq<char>)
    requires
        is_separator(sep),
    ensures
        titlecase_of(a + seq![sep] + b) == titlecase_of(a) + seq![' '] + titlecase_of(b),
{
    lemma_split_at_separator(a, sep, b);
    let left = split_words(a);
    let right = split_words(b);
    assert(capitalized_all(left + right) == capitalized_all(left) + capitalized_all(right));
    lemma_join_of_two_lists(capitalized_all(left), capitalized_all(right));
}

} // verus!
