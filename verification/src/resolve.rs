//! From what was asked for to the note that is meant: its place below the
//! notes directory and the heading it gets when it is new.

use vstd::prelude::*;
use vstd::string::StringExecFns;
use crate::chars::{chars_of, push_range, string_of};
use crate::title::{titlecase, titlecase_of};

verus! {

/// The note that a request leads to.
#[derive(Debug, PartialEq, Eq)]
pub struct ResolvedNote {
    /// Where the note lies, from the notes directory.
    pub relative_path: String,
    /// The first line of the note when it is new.
    pub heading: String,
}

/// A resolved note as a mathematical value.
pub ghost struct NoteModel {
    pub relative_path: Seq<char>,
    pub heading: Seq<char>,
}

impl View for ResolvedNote {
    type V = NoteModel;

    open spec fn view(&self) -> NoteModel {
        NoteModel { relative_path: self.relative_path@, heading: self.heading@ }
    }
}

/// Whether `c` is one of the digits `0` to `9`.
pub open spec fn is_digit(c: char) -> bool {
    '0' <= c <= '9'
}

/// Whether `s` is a date as it is written here: a year of four or more
/// digits, with or without a `+` in front, a hyphen, two digits for the
/// month, a hyphen, and two digits for the day.
pub open spec fn is_date_text(s: Seq<char>) -> bool {
    let n = s.len() as int;
    let sign: int = if n > 0 && s[0] == '+' { 1 } else { 0 };
    &&& n >= sign + 10
    &&& s[n - 6] == '-'
    &&& s[n - 3] == '-'
    &&& is_digit(s[n - 5])
    &&& is_digit(s[n - 4])
    &&& is_digit(s[n - 2])
    &&& is_digit(s[n - 1])
    &&& forall|i: int| sign <= i < n - 6 ==> is_digit(#[trigger] s[i])
}

/// Where the first hyphen of `s` stands; the length of `s` if it has none.
pub open spec fn first_hyphen(s: Seq<char>) -> int
    decreases s.len(),
{
    if s.len() == 0 || s[0] == '-' {
        0
    } else {
        1 + first_hyphen(s.drop_first())
    }
}

/// What stands before the first hyphen of a date: the year.
pub open spec fn year_of(today: Seq<char>) -> Seq<char> {
    today.take(first_hyphen(today))
}

/// What stands behind the first hyphen of a date: month and day.
pub open spec fn month_day_of(today: Seq<char>) -> Seq<char> {
    today.skip(first_hyphen(today) + 1)
}

/// The place of the daily note: `daily/<year>/<month-day>.md`.
pub open spec fn daily_path(today: Seq<char>) -> Seq<char> {
    "daily/"@ + year_of(today) + seq!['/'] + month_day_of(today) + ".md"@
}

/// The heading of a note that is named by its date.
pub open spec fn date_heading(today: Seq<char>) -> Seq<char> {
    "# "@ + today
}

/// What stands behind the last `/` of `name`; all of it, if there is none.
pub open spec fn last_segment(name: Seq<char>) -> Seq<char>
    decreases name.len(),
{
    if name.len() == 0 || name.last() == '/' {
        Seq::empty()
    } else {
        last_segment(name.drop_last()).push(name.last())
    }
}

/// Whether the segment `..` stands in `path` at `at`: two dots, with the
/// beginning of the path or a `/` before them and the end of the path or a
/// `/` behind them.
pub open spec fn is_parent_segment_at(path: Seq<char>, at: int) -> bool {
    &&& 0 <= at
    &&& at + 2 <= path.len()
    &&& path[at] == '.'
    &&& path[at + 1] == '.'
    &&& (at == 0 || path[at - 1] == '/')
    &&& (at + 2 == path.len() || path[at + 2] == '/')
}

/// Whether one of the segments of `path` is `..`.
pub open spec fn has_parent_segment(path: Seq<char>) -> bool {
    exists|at: int| is_parent_segment_at(path, at)
}

/// Whether a request names a directory: it ends in `/`.
pub open spec fn names_directory(name: Seq<char>) -> bool {
    name.len() > 0 && name.last() == '/'
}

/// The note that `path` leads to on the day `today`.
///
/// Without a path it is the daily note. A path that ends in `/` is a
/// directory, and the note in it is named by the date. Any other path names
/// the note itself, and its last segment gives the heading.
pub open spec fn resolved(path: Option<Seq<char>>, today: Seq<char>) -> NoteModel {
    match path {
        None => NoteModel { relative_path: daily_path(today), heading: date_heading(today) },
        Some(name) => if names_directory(name) {
            NoteModel { relative_path: name + today + ".md"@, heading: date_heading(today) }
        } else {
            NoteModel {
                relative_path: name + ".md"@,
                heading: "# "@ + titlecase_of(last_segment(name)),
            }
        },
    }
}

/// The view of a path that may be absent.
pub open spec fn path_view(path: Option<&str>) -> Option<Seq<char>> {
    match path {
        Some(p) => Some(p@),
        None => None,
    }
}

/// The date of today as text: chrono's `Local::now`, formatted with
/// `%Y-%m-%d`. Which date it is depends on the clock, so the contract states
/// only the shape that this format gives to every date that comes back:
/// `%Y` writes a year from 0 to 9999 as four digits and a later one as `+`
/// and its digits; `%m` and `%d` write two digits each. A year before 0
/// would begin with a hyphen, but no such date comes back: where the clock
/// stands before 1970, or the time zone gives no local time, `Local::now`
/// does not return.
#[verifier::external_body]
fn local_date() -> (out: String)
    ensures
        is_date_text(out@),
{
    chrono::Local::now().format("%Y-%m-%d").to_string()
}

/// Tells whether `text` is written as a date. Every such text holds a
/// hyphen, so it can be handed to `resolve` as the day.
pub fn is_date(text: &str) -> (r: bool)
    ensures
        r == is_date_text(text@),
        r ==> text@.contains('-'),
{
    let s = chars_of(text);
    let n = s.len();
    let sign: usize = if n > 0 && s[0] == '+' {
        1
    } else {
        0
    };
    if n < 10 || n - 10 < sign {
        return false;
    }
    if s[n - 6] != '-' || s[n - 3] != '-' {
        return false;
    }
    if !(digit(s[n - 5]) && digit(s[n - 4]) && digit(s[n - 2]) && digit(s[n - 1])) {
        return false;
    }
    assert(s@[n - 6] == '-');
    let mut i: usize = sign;
    while i < n - 6
        invariant
            sign <= i <= n - 6,
            n == s.len(),
            n >= sign + 10,
            s@ == text@,
            is_date_text(s@) <==> forall|j: int| sign <= j < n - 6 ==> is_digit(#[trigger] s@[j]),
            forall|j: int| sign <= j < i ==> is_digit(#[trigger] s@[j]),
        decreases n - 6 - i,
    {
        if !digit(s[i]) {
            return false;
        }
        i += 1;
    }
    true
}

/// Tells whether `c` is a digit.
fn digit(c: char) -> (r: bool)
    ensures
        r == is_digit(c),
{
    '0' <= c && c <= '9'
}

/// Finds the first hyphen of `text`.
fn find_hyphen(text: &Vec<char>) -> (at: usize)
    ensures
        at == first_hyphen(text@),
        at <= text.len(),
        at < text.len() <==> text@.contains('-'),
{
    let mut at: usize = 0;
    assert(text@.skip(0) == text@);
    while at < text.len() && text[at] != '-'
        invariant
            at <= text.len(),
            first_hyphen(text@) == at + first_hyphen(text@.skip(at as int)),
            forall|j: int| 0 <= j < at ==> text@[j] != '-',
        decreases text.len() - at,
    {
        assert(text@.skip(at as int).drop_first() == text@.skip(at + 1));
        at += 1;
    }
    assert(first_hyphen(text@.skip(at as int)) == 0);
    at
}

/// The last segment of `name`.
fn segment_of(name: &Vec<char>) -> (out: String)
    ensures
        out@ == last_segment(name@),
{
    let mut from: usize = name.len();
    assert(name@.take(from as int) == name@);
    while from > 0 && name[from - 1] != '/'
        invariant
            from <= name.len(),
            last_segment(name@) == last_segment(name@.take(from as int)) + name@.skip(from as int),
        decreases from,
    {
        assert(name@.take(from as int).drop_last() == name@.take(from - 1));
        from -= 1;
    }
    assert(last_segment(name@.take(from as int)).len() == 0);
    let mut out = String::new();
    push_range(&mut out, name, from, name.len());
    out
}

/// Resolves `path` on the day `today`.
///
/// Without a path the note is `daily/<year>/<month-day>.md`, year and the
/// rest being what stands before and behind the first hyphen of `today`,
/// and its heading is `# ` and the date. A path that ends in `/` gives the
/// note `<path><today>.md` with the same heading. Any other path gives
/// `<path>.md`, headed by `# ` and its last segment in title case.
pub fn resolve(path: Option<&str>, today: &str) -> (note: ResolvedNote)
    requires
        today@.contains('-'),
    ensures
        note@ == resolved(path_view(path), today@),
{
    match path {
        None => {
            let date = chars_of(today);
            let at = find_hyphen(&date);
            let mut relative_path = "daily/".to_owned();
            push_range(&mut relative_path, &date, 0, at);
            relative_path.push('/');
            push_range(&mut relative_path, &date, at + 1, date.len());
            relative_path.append(".md");
            let mut heading = "# ".to_owned();
            heading.append(today);
            assert("daily/"@ + year_of(today@) + seq!['/'] == ("daily/"@ + year_of(today@)).push(
                '/',
            ));
            ResolvedNote { relative_path, heading }
        },
        Some(name) => {
            let text = chars_of(name);
            if text.len() > 0 && text[text.len() - 1] == '/' {
                let mut relative_path = name.to_owned();
                relative_path.append(today);
                relative_path.append(".md");
                let mut heading = "# ".to_owned();
                heading.append(today);
                ResolvedNote { relative_path, heading }
            } else {
                let mut relative_path = name.to_owned();
                relative_path.append(".md");
                let segment = segment_of(&text);
                let title = titlecase(segment.as_str());
                let mut heading = "# ".to_owned();
                heading.append(title.as_str());
                ResolvedNote { relative_path, heading }
            }
        },
    }
}

/// Resolves `path` on this day, by the local clock. The note is what
/// `resolve` gives for the date that the clock shows. No segment of its
/// path is `..` unless one of `path` is.
pub fn resolve_note(path: Option<&str>) -> (note: ResolvedNote)
    ensures
        exists|today: Seq<char>| is_date_text(today) && note@ == resolved(path_view(path), today),
        (path matches Some(name) ==> !has_parent_segment(name@)) ==> !has_parent_segment(
            note.relative_path@,
        ),
{
    let today = local_date();
    proof {
        if path matches Some(name) ==> !has_parent_segment(name@) {
            lemma_resolve_adds_no_parent_segment(path_view(path), today@);
        }
    }
    resolve(path, today.as_str())
}

/// In a text whose first `at` characters are no hyphens and whose next one
/// is, the first hyphen stands at `at`.
proof fn lemma_first_hyphen_at(s: Seq<char>, at: int)
    requires
        0 <= at < s.len(),
        s[at] == '-',
        forall|i: int| 0 <= i < at ==> s[i] != '-',
    ensures
        first_hyphen(s) == at,
    decreases at,
{
    if at > 0 {
        let rest = s.drop_first();
        assert forall|i: int| 0 <= i < at - 1 implies rest[i] != '-' by {
            assert(rest[i] == s[i + 1]);
        }
        lemma_first_hyphen_at(rest, at - 1);
    }
}

/// The daily note: on every day, written as a date, the note without a path
/// lies at `daily/<year>/<month-day>.md`, where the year is the date
/// without its last six characters and month and day are its last five,
/// and the heading is `# ` and the date.
pub proof fn lemma_daily_note_shape(today: Seq<char>)
    requires
        is_date_text(today),
    ensures
        today.contains('-'),
        resolved(None, today).relative_path == "daily/"@ + today.take(today.len() - 6) + seq!['/']
            + today.skip(today.len() - 5) + ".md"@,
        resolved(None, today).heading == "# "@ + today,
        today.skip(today.len() - 5).len() == 5,
{
    let n = today.len() as int;
    lemma_first_hyphen_at(today, n - 6);
}

/// A directory's note: a path that ends in `/` leads to the note of the day
/// in that directory. The path is kept as it is and the heading is that of
/// the daily note; the name of the directory plays no part in it.
pub proof fn lemma_directory_note_shape(name: Seq<char>, today: Seq<char>)
    requires
        names_directory(name),
    ensures
        resolved(Some(name), today).relative_path == name + today + ".md"@,
        resolved(Some(name), today).heading == resolved(None, today).heading,
{
}

/// A named note lies at the same place with the same heading on every day.
pub proof fn lemma_named_note_ignores_the_day(name: Seq<char>, today: Seq<char>, other: Seq<char>)
    requires
        !names_directory(name),
    ensures
        resolved(Some(name), today) == resolved(Some(name), other),
        resolved(Some(name), today).relative_path == name + ".md"@,
{
}


/// A date holds no dot and no `/`.
proof fn lemma_date_characters(today: Seq<char>)
    requires
        is_date_text(today),
    ensures
        forall|i: int| 0 <= i < today.len() ==> today[i] != '.' && today[i] != '/',
{
    let n = today.len() as int;
    assert forall|i: int| 0 <= i < n implies today[i] != '.' && today[i] != '/' by {
        if i == 0 && today[0] == '+' {
        } else if i < n - 6 {
            assert(is_digit(today[i]));
        }
    }
}

/// Behind a path, a tail without a `/` that does not end in a dot makes no
/// segment `..`: the last segment grows, and the others stay.
proof fn lemma_tail_adds_no_parent_segment(path: Seq<char>, tail: Seq<char>)
    requires
        !has_parent_segment(path),
        tail.len() > 0,
        tail.last() != '.',
        forall|i: int| 0 <= i < tail.len() ==> tail[i] != '/',
    ensures
        !has_parent_segment(path + tail),
{
    let whole = path + tail;
    assert forall|at: int| !is_parent_segment_at(whole, at) by {
        if is_parent_segment_at(whole, at) {
            if at + 2 <= path.len() {
                if at + 2 < path.len() {
                    assert(whole[at + 2] == path[at + 2]);
                } else {
                    assert(whole[at + 2] == tail[0]);
                }
                assert(is_parent_segment_at(path, at));
            } else if at + 2 == whole.len() {
                assert(whole[at + 1] == tail.last());
            } else {
                assert(whole[at + 2] == tail[at + 2 - path.len()]);
            }
        }
    }
}

/// No way up: the resolver puts no segment `..` into a path. On every day,
/// the daily note has none, and the note for a path without such a segment
/// has none.
pub proof fn lemma_resolve_adds_no_parent_segment(path: Option<Seq<char>>, today: Seq<char>)
    requires
        is_date_text(today),
        path matches Some(name) ==> !has_parent_segment(name),
    ensures
        !has_parent_segment(resolved(path, today).relative_path),
{
    reveal_strlit(".md");
    reveal_strlit("daily/");
    lemma_date_characters(today);
    let suffix = ".md"@;
    match path {
        None => {
            let n = today.len() as int;
            lemma_daily_note_shape(today);
            let base = "daily/"@ + today.take(n - 6) + seq!['/'];
            let tail = today.skip(n - 5) + suffix;
            assert forall|at: int| !is_parent_segment_at(base, at) by {
                if 0 <= at && at + 2 <= base.len() && base[at] == '.' {
                    if at >= 6 && at < 6 + (n - 6) {
                        assert(base[at] == today[at - 6]);
                    }
                }
            }
            lemma_tail_adds_no_parent_segment(base, tail);
            assert(base + tail == resolved(path, today).relative_path);
        },
        Some(name) => {
            if names_directory(name) {
                let tail = today + suffix;
                lemma_tail_adds_no_parent_segment(name, tail);
                assert(name + tail == name + today + suffix);
            } else {
                lemma_tail_adds_no_parent_segment(name, suffix);
            }
        },
    }
}

} // verus!
