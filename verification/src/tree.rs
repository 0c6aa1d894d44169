//! The tree listing of a notes directory.
//!
//! A directory is handed over as the entries that were read from it, in any
//! order. What is listed, and in which order, is decided here: `arranged`
//! says which entries are shown, `rendered` how they are drawn.

use vstd::prelude::*;
use vstd::std_specs::iter::IteratorSpec;
use crate::chars::chars_of;

verus! {

/// What a directory entry is.
#[derive(Clone, Copy, Debug, PartialEq, Eq)]
pub enum EntryKind {
    File,
    Directory,
}

/// One entry of a directory. `children` holds the entries below it, where it
/// is a directory that was read; for a file it is not looked at.
#[derive(Debug, PartialEq, Eq)]
pub struct DirectoryEntry {
    pub name: String,
    pub kind: EntryKind,
    pub children: Vec<DirectoryEntry>,
}

/// How a listing is drawn.
#[derive(Clone, Copy, Debug, PartialEq, Eq)]
pub struct ListOptions {
    /// Whether notes are listed; without it only directories are.
    pub show_notes: bool,
    /// Whether names are drawn bare: directories without the `/` behind
    /// them, notes without `.md`.
    pub bare_names: bool,
}

/// What a listing starts from.
#[derive(Debug, PartialEq, Eq)]
pub enum ListingRoot {
    /// There is no directory at the place asked for, which is shown as `path`.
    NotADirectory { path: String },
    /// A directory that holds `entries`.
    Directory { entries: Vec<DirectoryEntry> },
}

/// A directory entry as a mathematical value.
pub ghost struct EntryModel {
    pub name: Seq<char>,
    pub is_dir: bool,
    pub children: Seq<EntryModel>,
}

impl View for DirectoryEntry {
    type V = EntryModel;

    open spec fn view(&self) -> EntryModel {
        model_of(*self)
    }
}

/// The entry `e` as a mathematical value, with all that lies below it.
pub open spec fn model_of(e: DirectoryEntry) -> EntryModel
    decreases e,
{
    EntryModel {
        name: e.name@,
        is_dir: e.kind == EntryKind::Directory,
        children: Seq::new(
            e.children@.len(),
            |i: int|
                if 0 <= i < e.children@.len() {
                    model_of(e.children@[i])
                } else {
                    arbitrary()
                },
        ),
    }
}

/// The entries of `entries` as mathematical values.
pub open spec fn entry_views(entries: Seq<DirectoryEntry>) -> Seq<EntryModel> {
    Seq::new(entries.len(), |i: int| entries[i]@)
}

/// The number of levels that a depth limit leaves; `None` is no limit.
pub open spec fn levels_of(max_depth: Option<usize>) -> Option<nat> {
    match max_depth {
        Some(n) => Some(n as nat),
        None => None,
    }
}

/// The levels left one level further down: one fewer, and none where none
/// are left.
pub open spec fn levels_below(levels: Option<nat>) -> Option<nat> {
    match levels {
        Some(n) => if n == 0 {
            Some(0nat)
        } else {
            Some((n - 1) as nat)
        },
        None => None,
    }
}

/// Whether `a` comes before `b`, or is equal to it, in the order of names:
/// character by character, by code point, a name before those it begins.
/// This is the order of the names' UTF-8 bytes.
pub open spec fn name_le(a: Seq<char>, b: Seq<char>) -> bool
    decreases a.len(),
{
    if a.len() == 0 {
        true
    } else if b.len() == 0 {
        false
    } else if a[0] != b[0] {
        a[0] < b[0]
    } else {
        name_le(a.drop_first(), b.drop_first())
    }
}

/// Whether a name begins with a dot.
pub open spec fn is_dot_name(name: Seq<char>) -> bool {
    name.len() > 0 && name[0] == '.'
}

/// Whether a file name has a stem and the extension `md`: it ends in `.md`
/// and is longer than that. The name `.md` alone has no extension.
pub open spec fn is_note_name(name: Seq<char>) -> bool {
    name.len() > 3 && name.skip(name.len() - 3) == seq!['.', 'm', 'd']
}

/// Whether an entry is listed: a directory unless its name begins with a
/// dot, a file if notes are shown and it is a note.
pub open spec fn is_visible(e: EntryModel, show_notes: bool) -> bool {
    if e.is_dir {
        !is_dot_name(e.name)
    } else {
        show_notes && is_note_name(e.name)
    }
}

/// `sorted` with `e` put behind the last entry whose name is not after its
/// own.
pub open spec fn insert_by_name(sorted: Seq<EntryModel>, e: EntryModel) -> Seq<EntryModel>
    decreases sorted.len(),
{
    if sorted.len() == 0 {
        seq![e]
    } else if name_le(sorted.last().name, e.name) {
        sorted.push(e)
    } else {
        insert_by_name(sorted.drop_last(), e).push(sorted.last())
    }
}

/// The entries in the order of their names; entries of one name keep the
/// order they came in.
pub open spec fn sorted_by_name(entries: Seq<EntryModel>) -> Seq<EntryModel>
    decreases entries.len(),
{
    if entries.len() == 0 {
        entries
    } else {
        insert_by_name(sorted_by_name(entries.drop_last()), entries.last())
    }
}

/// What is listed of a directory that holds `entries`: the visible entries
/// in the order of their names, each directory with what is listed of it in
/// turn, as far down as `levels` allows.
pub open spec fn arranged(entries: Seq<EntryModel>, levels: Option<nat>, show_notes: bool) -> Seq<
    EntryModel,
>
    decreases entries, 1nat,
{
    if levels == Some(0nat) {
        Seq::empty()
    } else {
        sorted_by_name(pruned(entries, levels, show_notes))
    }
}

/// The visible entries of `entries`, in the order they came in, each
/// directory with what is listed of it.
pub open spec fn pruned(entries: Seq<EntryModel>, levels: Option<nat>, show_notes: bool) -> Seq<
    EntryModel,
>
    decreases entries, 0nat,
{
    if entries.len() == 0 {
        Seq::empty()
    } else {
        let rest = pruned(entries.drop_last(), levels, show_notes);
        let e = entries.last();
        if is_visible(e, show_notes) {
            rest.push(listed_entry(e, levels, show_notes))
        } else {
            rest
        }
    }
}

/// The entry `e` as it is listed.
pub open spec fn listed_entry(e: EntryModel, levels: Option<nat>, show_notes: bool) -> EntryModel
    decreases e, 2nat,
{
    EntryModel {
        name: e.name,
        is_dir: e.is_dir,
        children: if e.is_dir {
            arranged(e.children, levels_below(levels), show_notes)
        } else {
            Seq::empty()
        },
    }
}

/// What is drawn in front of a row's name: `└── ` for the last row of its
/// level, `├── ` for the others.
pub open spec fn connector(last: bool) -> Seq<char> {
    if last {
        seq!['└', '─', '─', ' ']
    } else {
        seq!['├', '─', '─', ' ']
    }
}

/// What the rows below a row get in front, behind the row's own prefix:
/// four spaces under the last row of a level, `│` and three spaces under
/// the others.
pub open spec fn indent(last: bool) -> Seq<char> {
    if last {
        seq![' ', ' ', ' ', ' ']
    } else {
        seq!['│', ' ', ' ', ' ']
    }
}

/// The name as it is drawn: a directory with `/` behind it, a file as it is;
/// or bare, a directory as it is and a note without `.md`.
pub open spec fn display_name(e: EntryModel, bare: bool) -> Seq<char> {
    if e.is_dir {
        if bare {
            e.name
        } else {
            e.name.push('/')
        }
    } else if bare && is_note_name(e.name) {
        e.name.take(e.name.len() - 3)
    } else {
        e.name
    }
}

/// The lines for one row: its own line, which is the prefix, the connector,
/// the name and a line feed, and below it the lines for what lies below a
/// directory, with the indent added to the prefix.
pub open spec fn rendered_row(row: EntryModel, last: bool, prefix: Seq<char>, bare: bool) -> Seq<
    char,
>
    decreases row, 0nat,
{
    let line = prefix + connector(last) + display_name(row, bare) + seq!['\n'];
    if row.is_dir {
        line + rendered(row.children, prefix + indent(last), bare)
    } else {
        line
    }
}

/// The lines for the first `count` of `rows`, one row after the other. The
/// last of all rows gets the connector and the indent of a last row.
pub open spec fn rendered_first(rows: Seq<EntryModel>, count: int, prefix: Seq<char>, bare: bool) -> Seq<
    char,
>
    decreases rows, 0nat, count,
{
    if 0 < count <= rows.len() {
        rendered_first(rows, count - 1, prefix, bare) + rendered_row(
            rows[count - 1],
            count == rows.len(),
            prefix,
            bare,
        )
    } else {
        Seq::empty()
    }
}

/// The lines for `rows` and all that lies below them.
pub open spec fn rendered(rows: Seq<EntryModel>, prefix: Seq<char>, bare: bool) -> Seq<char>
    decreases rows, 1nat,
{
    rendered_first(rows, rows.len() as int, prefix, bare)
}

/// The lines that list a directory holding `entries`.
pub open spec fn tree_text(
    entries: Seq<EntryModel>,
    prefix: Seq<char>,
    levels: Option<nat>,
    options: ListOptions,
) -> Seq<char> {
    rendered(arranged(entries, levels, options.show_notes), prefix, options.bare_names)
}

/// The listing of `root` under the heading `label`.
pub open spec fn listing_text(
    root: ListingRoot,
    label: Seq<char>,
    levels: Option<nat>,
    options: ListOptions,
) -> Seq<char> {
    match root {
        ListingRoot::NotADirectory { path } => path@ + " is not a directory\n"@,
        ListingRoot::Directory { entries } => label + seq!['\n'] + tree_text(
            entry_views(entries@),
            Seq::empty(),
            levels,
            options,
        ),
    }
}

/// The heading of a listing: the path that was asked for, or `.` for the
/// notes directory itself.
pub open spec fn label_of(path: Option<&str>) -> Seq<char> {
    match path {
        Some(p) => p@,
        None => seq!['.'],
    }
}

/// A directory's entries seen as values: the view of an entry holds the
/// views of the entries below it.
pub proof fn lemma_children_views(e: DirectoryEntry)
    ensures
        e@.children == entry_views(e.children@),
        e@.name == e.name@,
        e@.is_dir == (e.kind == EntryKind::Directory),
{
    let below = e@.children;
    assert(below.len() == e.children@.len());
    assert forall|i: int| 0 <= i < below.len() implies below[i] == entry_views(e.children@)[i] by {
        assert(below[i] == e.children@[i]@);
    }
}

/// Compares two names in the order of `name_le`.
pub fn name_precedes(a: &str, b: &str) -> (r: bool)
    ensures
        r == name_le(a@, b@),
{
    let mut left = a.chars();
    let mut right = b.chars();
    loop
        invariant
            left.obeys_prophetic_iter_laws(),
            right.obeys_prophetic_iter_laws(),
            left.decrease() is Some,
            name_le(a@, b@) == name_le(left.remaining(), right.remaining()),
        decreases left.decrease()->0,
    {
        let x = left.next();
        let y = right.next();
        match x {
            None => {
                return true;
            },
            Some(c) => {
                match y {
                    None => {
                        return false;
                    },
                    Some(d) => {
                        if c != d {
                            return c < d;
                        }
                    },
                }
            },
        }
    }
}

/// Whether `name` begins with a dot.
pub fn starts_with_dot(name: &str) -> (r: bool)
    ensures
        r == is_dot_name(name@),
{
    let mut it = name.chars();
    match it.next() {
        Some(c) => c == '.',
        None => false,
    }
}

/// Whether `name` is the name of a note: a stem and the extension `md`.
pub fn has_note_extension(name: &str) -> (r: bool)
    ensures
        r == is_note_name(name@),
{
    let text = chars_of(name);
    let n = text.len();
    if n > 3 {
        let r = text[n - 3] == '.' && text[n - 2] == 'm' && text[n - 1] == 'd';
        proof {
            let tail = text@.skip(n - 3);
            assert(tail[0] == text@[n - 3] && tail[1] == text@[n - 2] && tail[2] == text@[n - 1]);
            if r {
                assert(tail =~= seq!['.', 'm', 'd']);
            }
        }
        r
    } else {
        false
    }
}

/// Whether `entry` is listed.
pub fn entry_is_visible(entry: &DirectoryEntry, show_notes: bool) -> (r: bool)
    ensures
        r == is_visible(entry@, show_notes),
{
    proof {
        lemma_children_views(*entry);
    }
    match entry.kind {
        EntryKind::Directory => !starts_with_dot(entry.name.as_str()),
        EntryKind::File => show_notes && has_note_extension(entry.name.as_str()),
    }
}

/// Puts `entry` into `rows`, which are in the order of their names, behind
/// the last row whose name is not after its own.
pub fn insert_row(rows: &mut Vec<DirectoryEntry>, entry: DirectoryEntry)
    ensures
        entry_views(final(rows)@) == insert_by_name(entry_views(old(rows)@), entry@),
{
    let ghost before = entry_views(rows@);
    let mut at: usize = rows.len();
    assert(before.take(at as int) == before);
    while at > 0 && !name_precedes(rows[at - 1].name.as_str(), entry.name.as_str())
        invariant
            at <= rows.len(),
            before == entry_views(rows@),
            insert_by_name(before, entry@) == insert_by_name(before.take(at as int), entry@)
                + before.skip(at as int),
        decreases at,
    {
        proof {
            lemma_children_views(rows@[at - 1]);
            lemma_children_views(entry);
            assert(before.take(at as int).drop_last() == before.take(at - 1));
        }
        at -= 1;
    }
    proof {
        if at > 0 {
            lemma_children_views(rows@[at - 1]);
            lemma_children_views(entry);
        }
        assert(insert_by_name(before, entry@) == before.insert(at as int, entry@));
    }
    rows.insert(at, entry);
}

/// Tells whether a depth limit leaves nothing to list: it is 0.
pub fn lists_nothing(max_depth: Option<usize>) -> (r: bool)
    ensures
        r == (levels_of(max_depth) == Some(0nat)),
{
    match max_depth {
        Some(n) => n == 0,
        None => false,
    }
}

/// The depth limit for what lies one level further down: one level fewer,
/// or no limit where there is none.
pub fn depth_below(max_depth: Option<usize>) -> (below: Option<usize>)
    ensures
        levels_of(below) == levels_below(levels_of(max_depth)),
{
    match max_depth {
        Some(n) => if n == 0 {
            Some(0)
        } else {
            Some(n - 1)
        },
        None => None,
    }
}

/// What is listed of a directory that holds `entries`, as a tree of its own:
/// hidden entries are left out, each level is in the order of its names, and
/// nothing lies deeper than `max_depth` levels.
pub fn arrange(entries: &Vec<DirectoryEntry>, max_depth: Option<usize>, show_notes: bool) -> (rows:
    Vec<DirectoryEntry>)
    ensures
        entry_views(rows@) == arranged(entry_views(entries@), levels_of(max_depth), show_notes),
    decreases entries,
{
    let mut rows: Vec<DirectoryEntry> = Vec::new();
    if lists_nothing(max_depth) {
        return rows;
    }
    let below = depth_below(max_depth);
    let ghost all = entry_views(entries@);
    let ghost levels = levels_of(max_depth);
    let mut i: usize = 0;
    while i < entries.len()
        invariant
            i <= entries.len(),
            all == entry_views(entries@),
            levels != Some(0nat),
            levels_of(below) == levels_below(levels),
            entry_views(rows@) == sorted_by_name(pruned(all.take(i as int), levels, show_notes)),
        decreases entries.len() - i,
    {
        let entry = &entries[i];
        proof {
            lemma_children_views(*entry);
            assert(all.take(i as int + 1).drop_last() == all.take(i as int));
        }
        if entry_is_visible(entry, show_notes) {
            let children = match entry.kind {
                EntryKind::Directory => arrange(&entry.children, below, show_notes),
                EntryKind::File => Vec::new(),
            };
            let row = DirectoryEntry { name: entry.name.clone(), kind: entry.kind, children };
            proof {
                lemma_children_views(row);
                assert(entry_views(row.children@) == listed_entry(
                    entry@,
                    levels,
                    show_notes,
                ).children);
                let kept = pruned(all.take(i as int), levels, show_notes);
                assert(kept.push(row@).drop_last() == kept);
                assert(kept.push(row@).last() == row@);
            }
            insert_row(&mut rows, row);
        }
        i += 1;
    }
    assert(all.take(i as int) == all);
    rows
}

/// Appends the connector for a row to `output`.
fn push_connector(output: &mut String, last: bool)
    ensures
        final(output)@ == old(output)@ + connector(last),
{
    if last {
        output.push('└');
    } else {
        output.push('├');
    }
    output.push('─');
    output.push('─');
    output.push(' ');
}

/// The prefix for the rows below a row whose own prefix is `prefix`.
fn child_prefix(prefix: &str, last: bool) -> (out: String)
    ensures
        out@ == prefix@ + indent(last),
{
    let mut out = prefix.to_owned();
    if last {
        out.push(' ');
    } else {
        out.push('│');
    }
    out.push(' ');
    out.push(' ');
    out.push(' ');
    out
}

/// Appends the name of `row` to `output`, as it is drawn.
fn push_display_name(output: &mut String, row: &DirectoryEntry, bare: bool)
    ensures
        final(output)@ == old(output)@ + display_name(row@, bare),
{
    proof {
        lemma_children_views(*row);
    }
    match row.kind {
        EntryKind::Directory => {
            output.append(row.name.as_str());
            if !bare {
                output.push('/');
            }
        },
        EntryKind::File => {
            if bare && has_note_extension(row.name.as_str()) {
                let text = chars_of(row.name.as_str());
                let stem = text.len() - 3;
                let mut i: usize = 0;
                while i < stem
                    invariant
                        i <= stem <= text.len(),
                        output@ == old(output)@ + text@.take(i as int),
                    decreases stem - i,
                {
                    output.push(text[i]);
                    i += 1;
                }
            } else {
                output.append(row.name.as_str());
            }
        },
    }
}

/// Appends to `output` the line for `row` and the lines for what lies below
/// it.
pub fn write_row(row: &DirectoryEntry, last: bool, prefix: &str, bare_names: bool, output: &mut String)
    ensures
        final(output)@ == old(output)@ + rendered_row(row@, last, prefix@, bare_names),
    decreases row,
{
    proof {
        lemma_children_views(*row);
    }
    output.append(prefix);
    push_connector(output, last);
    push_display_name(output, row, bare_names);
    output.push('\n');
    let ghost line = prefix@ + connector(last) + display_name(row@, bare_names) + seq!['\n'];
    assert(output@ == old(output)@ + line);
    match row.kind {
        EntryKind::Directory => {
            let deeper = child_prefix(prefix, last);
            write_rows(&row.children, deeper.as_str(), bare_names, output);
            let ghost below = rendered(row@.children, prefix@ + indent(last), bare_names);
            assert(output@ == old(output)@ + (line + below));
        },
        EntryKind::File => {},
    }
}

/// Appends to `output` the lines for `rows` and all that lies below them,
/// as they stand: nothing is left out or put in order here.
pub fn write_rows(rows: &Vec<DirectoryEntry>, prefix: &str, bare_names: bool, output: &mut String)
    ensures
        final(output)@ == old(output)@ + rendered(entry_views(rows@), prefix@, bare_names),
    decreases rows,
{
    let ghost all = entry_views(rows@);
    let mut i: usize = 0;
    while i < rows.len()
        invariant
            i <= rows.len(),
            all == entry_views(rows@),
            output@ == old(output)@ + rendered_first(all, i as int, prefix@, bare_names),
        decreases rows.len() - i,
    {
        let ghost before = rendered_first(all, i as int, prefix@, bare_names);
        let ghost added = rendered_row(all[i as int], i == rows.len() - 1, prefix@, bare_names);
        write_row(&rows[i], i == rows.len() - 1, prefix, bare_names, output);
        assert(output@ == old(output)@ + (before + added));
        i += 1;
    }
}

/// Appends to `output` the lines that list a directory holding `entries`:
/// the visible entries in the order of their names, each directory followed
/// by the listing of what it holds, down to `max_depth` levels; `None` is no
/// limit. Every line starts with `prefix`.
pub fn list_tree(
    entries: &Vec<DirectoryEntry>,
    prefix: &str,
    max_depth: Option<usize>,
    options: ListOptions,
    output: &mut String,
)
    ensures
        final(output)@ == old(output)@ + tree_text(
            entry_views(entries@),
            prefix@,
            levels_of(max_depth),
            options,
        ),
{
    let rows = arrange(entries, max_depth, options.show_notes);
    write_rows(&rows, prefix, options.bare_names, output);
}

/// Draws the listing of `root`. Where `root` is no directory, that is one
/// line which says so. Otherwise it is `label` on a line of its own and
/// below it the tree of the directory's entries, down to `max_depth` levels;
/// `None` is no limit.
pub fn render(root: &ListingRoot, label: &str, max_depth: Option<usize>, options: ListOptions) -> (out:
    String)
    ensures
        out@ == listing_text(*root, label@, levels_of(max_depth), options),
{
    match root {
        ListingRoot::NotADirectory { path } => {
            let mut out = path.clone();
            out.append(" is not a directory\n");
            out
        },
        ListingRoot::Directory { entries } => {
            let mut out = label.to_owned();
            out.push('\n');
            proof {
                reveal_strlit("");
                assert(""@ == Seq::<char>::empty());
            }
            list_tree(entries, "", max_depth, options, &mut out);
            out
        },
    }
}

/// Draws the listing of the notes below `path`, or of all notes where `path`
/// is `None`; `root` is what was found at that place.
pub fn list_notes(
    root: &ListingRoot,
    path: Option<&str>,
    max_depth: Option<usize>,
    options: ListOptions,
) -> (out: String)
    ensures
        out@ == listing_text(*root, label_of(path), levels_of(max_depth), options),
{
    let label = match path {
        Some(p) => p,
        None => {
            proof {
                reveal_strlit(".");
            }
            "."
        },
    };
    render(root, label, max_depth, options)
}

} // verus!
