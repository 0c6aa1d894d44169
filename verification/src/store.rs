//! What a note file holds: created with its heading when it is opened for
//! the first time, left alone once it has content or where it cannot be
//! read, and grown line by line.

use vstd::prelude::*;
use vstd::std_specs::iter::IteratorSpec;
use vstd::string::StringExecFns;

verus! {

/// Whether `c` is white space in Unicode's sense.
pub uninterp spec fn is_white_space(c: char) -> bool;

/// `char::is_whitespace` tells whether a character has Unicode's property
/// `White_Space`. The contract only gives that property its name.
pub assume_specification[ char::is_whitespace ](c: char) -> (r: bool)
    ensures
        r == is_white_space(c),
;

/// A note file, as it was found or as it is left.
#[derive(Debug, PartialEq, Eq)]
pub enum NoteFile {
    /// There is no such file.
    Missing,
    /// The file holds this text.
    Text(String),
    /// There is a file, and what it holds could not be read as text.
    Unreadable,
}

/// Why a note file could not be changed.
#[derive(Clone, Copy, Debug, PartialEq, Eq)]
pub enum StoreError {
    /// There is no file to append to.
    Missing,
}

/// A note file as a mathematical value.
pub ghost enum FileModel {
    Missing,
    Text(Seq<char>),
    Unreadable,
}

impl View for NoteFile {
    type V = FileModel;

    open spec fn view(&self) -> FileModel {
        match *self {
            NoteFile::Missing => FileModel::Missing,
            NoteFile::Text(text) => FileModel::Text(text@),
            NoteFile::Unreadable => FileModel::Unreadable,
        }
    }
}

/// Whether `text` is nothing but white space; the empty text is.
pub open spec fn is_blank(text: Seq<char>) -> bool {
    forall|i: int| 0 <= i < text.len() ==> is_white_space(#[trigger] text[i])
}

/// Whether a file is to get its heading: it is missing or blank. A file
/// that could not be read is neither.
pub open spec fn needs_heading(file: FileModel) -> bool {
    match file {
        FileModel::Missing => true,
        FileModel::Text(text) => is_blank(text),
        FileModel::Unreadable => false,
    }
}

/// What a new note holds: the heading on the first line and an empty line
/// behind it.
pub open spec fn initial_contents(heading: Seq<char>) -> Seq<char> {
    heading + seq!['\n', '\n']
}

/// The file after it was opened as a note with the heading `heading`.
pub open spec fn ensured(file: FileModel, heading: Seq<char>) -> FileModel {
    if needs_heading(file) {
        FileModel::Text(initial_contents(heading))
    } else {
        file
    }
}

/// The file after `text` was appended to it as a line. What could not be
/// read before cannot be read after.
pub open spec fn appended(file: FileModel, text: Seq<char>) -> FileModel {
    match file {
        FileModel::Text(before) => FileModel::Text(before + line_of(text)),
        other => other,
    }
}

/// What appending `text` adds to a file: the text and a line feed.
pub open spec fn line_of(text: Seq<char>) -> Seq<char> {
    text.push('\n')
}

/// Tells whether `text` is nothing but white space.
pub fn blank(text: &str) -> (r: bool)
    ensures
        r == is_blank(text@),
{
    let mut it = text.chars();
    let ghost mut seen: Seq<char> = Seq::empty();
    loop
        invariant
            it.obeys_prophetic_iter_laws(),
            it.decrease() is Some,
            text@ == seen + it.remaining(),
            is_blank(seen),
        decreases it.decrease()->0,
    {
        match it.next() {
            None => {
                return true;
            },
            Some(c) => {
                assert(text@[seen.len() as int] == c);
                if !c.is_whitespace() {
                    return false;
                }
                proof {
                    seen = seen.push(c);
                }
            },
        }
    }
}

/// The contents of a new note with the heading `heading`.
pub fn new_note_contents(heading: &str) -> (out: String)
    ensures
        out@ == initial_contents(heading@),
{
    let mut out = heading.to_owned();
    out.push('\n');
    out.push('\n');
    out
}

/// The line that appending `text` writes.
pub fn appended_line(text: &str) -> (out: String)
    ensures
        out@ == line_of(text@),
{
    let mut out = text.to_owned();
    out.push('\n');
    out
}

impl NoteFile {
    /// The file that does not exist.
    pub fn missing() -> (file: NoteFile)
        ensures
            file@ == FileModel::Missing,
    {
        NoteFile::Missing
    }

    /// The file that holds `contents`.
    pub fn holding(contents: String) -> (file: NoteFile)
        ensures
            file@ == FileModel::Text(contents@),
    {
        NoteFile::Text(contents)
    }

    /// The file whose contents could not be read as text.
    pub fn unreadable() -> (file: NoteFile)
        ensures
            file@ == FileModel::Unreadable,
    {
        NoteFile::Unreadable
    }

    /// The text that the file holds, if it holds one.
    pub fn text(&self) -> (text: Option<&str>)
        ensures
            match text {
                Some(t) => self@ == FileModel::Text(t@),
                None => !(self@ is Text),
            },
    {
        match self {
            NoteFile::Text(text) => Some(text.as_str()),
            _ => None,
        }
    }

    /// Whether opening this file as a note writes the heading: the file is
    /// missing, or holds nothing but white space.
    pub fn needs_heading(&self) -> (r: bool)
        ensures
            r == needs_heading(self@),
    {
        match self {
            NoteFile::Missing => true,
            NoteFile::Text(text) => blank(text.as_str()),
            NoteFile::Unreadable => false,
        }
    }

    /// Opens the file as a note. A missing or blank file is written anew
    /// with the heading, and the result is `true`. Any other file stays as
    /// it is, one that could not be read too.
    pub fn ensure(&mut self, heading: &str) -> (written: bool)
        ensures
            written == needs_heading(old(self)@),
            final(self)@ == ensured(old(self)@, heading@),
    {
        if self.needs_heading() {
            *self = NoteFile::Text(new_note_contents(heading));
            true
        } else {
            false
        }
    }

    /// Appends `text` as a line of its own. There has to be a file.
    pub fn append(&mut self, text: &str) -> (r: Result<(), StoreError>)
        ensures
            r == (if old(self)@ is Missing {
                Err::<(), StoreError>(StoreError::Missing)
            } else {
                Ok(())
            }),
            final(self)@ == appended(old(self)@, text@),
    {
        match self {
            NoteFile::Missing => Err(StoreError::Missing),
            NoteFile::Text(contents) => {
                contents.append(text);
                contents.push('\n');
                Ok(())
            },
            NoteFile::Unreadable => Ok(()),
        }
    }
}

/// Opening a note twice: the second time changes nothing, whatever the
/// file was before the first.
pub proof fn lemma_ensure_twice(file: FileModel, heading: Seq<char>)
    ensures
        ensured(ensured(file, heading), heading) == ensured(file, heading),
{
}

/// Opening a note keeps what was written: a file that holds more than white
/// space stays as it is, and so does one that could not be read.
pub proof fn lemma_ensure_keeps_content(file: FileModel, heading: Seq<char>)
    requires
        file is Unreadable || (file matches FileModel::Text(text) && !is_blank(text)),
    ensures
        ensured(file, heading) == file,
{
}

/// A blank file is a missing file: opening either gives the heading and an
/// empty line, and nothing of what the blank file held.
pub proof fn lemma_blank_is_missing(text: Seq<char>, heading: Seq<char>)
    requires
        is_blank(text),
    ensures
        ensured(FileModel::Text(text), heading) == ensured(FileModel::Missing, heading),
        ensured(FileModel::Missing, heading) == FileModel::Text(heading + seq!['\n', '\n']),
{
}

} // verus!
