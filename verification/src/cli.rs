//! The command line: what the arguments ask for, and what is done for it.
//!
//! ```text
//! kno [PATH] [-p|--print] [-a|--append TEXT]
//! kno list [PATH] [-L|--level|--depth N] [--show-notes]
//! kno init
//! kno git [ARGS...]
//! ```
//!
//! The value of an option is the argument behind it, or stands in the same
//! argument: `--append=TEXT`, `-aTEXT`, `-a=TEXT`, and likewise `--level=N`,
//! `--depth=N`, `-LN` and `-L=N`. A number may have a `+` in front.
//!
//! Not taken: several short options in one argument (`-pa TEXT`), a value
//! for an option that has none (`--print=yes`), `--` to end the options,
//! and `-h` or `--help`; `git` alone takes whatever follows it.

use vstd::prelude::*;
use vstd::std_specs::iter::IteratorSpec;
use crate::chars::{chars_of, push_range, same_text};
use crate::resolve::is_digit;

verus! {

/// What is asked for besides a note.
#[derive(Debug, PartialEq, Eq)]
pub enum Command {
    /// List notes and directories.
    List {
        /// The directory to list; all notes if there is none.
        path: Option<String>,
        /// How many levels to show; 0 for all of them.
        level: Option<usize>,
        /// Whether notes are listed besides directories.
        show_notes: bool,
    },
    /// Set the notes directory up.
    Init,
    /// Run git in the notes directory.
    Git {
        /// What is handed to git.
        args: Vec<String>,
    },
}

/// The arguments of one call.
#[derive(Debug, PartialEq, Eq)]
pub struct Cli {
    /// The note that is meant; the daily note if there is none.
    pub path: Option<String>,
    /// Print where the note lies in place of opening it.
    pub print: bool,
    /// A line to append to the note in place of opening it.
    pub append: Option<String>,
    pub command: Option<Command>,
}

/// Why the arguments were not understood.
#[derive(Debug, PartialEq, Eq)]
pub enum CliError {
    /// The option is the last argument, and it needs a value behind it.
    MissingValue(String),
    /// The argument begins with `-` and is no option that is known here.
    UnknownOption(String),
    /// The argument has no place: there is a path already, or the command
    /// takes none.
    UnexpectedArgument(String),
    /// The value is no number, or one that is too large.
    InvalidNumber(String),
}

/// What is done with a note once it is there.
#[derive(Debug, PartialEq, Eq)]
pub enum NoteUse {
    /// Print where it lies.
    Print,
    /// Append a line to it.
    Append { text: String },
    /// Open it in the editor.
    Edit,
}

/// What one call does.
#[derive(Debug, PartialEq, Eq)]
pub enum Action {
    /// Set the notes directory up.
    Init,
    /// Run git with `args` in the notes directory.
    Git { args: Vec<String> },
    /// Print the listing of `path`, down to `max_depth` levels; `None` is
    /// no limit.
    List { path: Option<String>, max_depth: Option<usize>, show_notes: bool },
    /// Make sure that the note at `path` is there, and use it.
    Open { path: Option<String>, purpose: NoteUse },
}

/// What is done with a note, as a mathematical value.
pub ghost enum NoteUseModel {
    Print,
    Append { text: Seq<char> },
    Edit,
}

/// What one call does, as a mathematical value.
pub ghost enum ActionModel {
    Init,
    Git { args: Seq<Seq<char>> },
    List { path: Option<Seq<char>>, max_depth: Option<usize>, show_notes: bool },
    Open { path: Option<Seq<char>>, purpose: NoteUseModel },
}

/// A command as a mathematical value.
pub ghost enum CommandModel {
    List { path: Option<Seq<char>>, level: Option<usize>, show_notes: bool },
    Init,
    Git { args: Seq<Seq<char>> },
}

/// The arguments of one call as a mathematical value.
pub ghost struct CliModel {
    pub path: Option<Seq<char>>,
    pub print: bool,
    pub append: Option<Seq<char>>,
    pub command: Option<CommandModel>,
}

/// An error as a mathematical value.
pub ghost enum CliErrorModel {
    MissingValue(Seq<char>),
    UnknownOption(Seq<char>),
    UnexpectedArgument(Seq<char>),
    InvalidNumber(Seq<char>),
}

/// The view of a text that may be absent.
pub open spec fn text_view(text: Option<String>) -> Option<Seq<char>> {
    match text {
        Some(t) => Some(t@),
        None => None,
    }
}

/// What each of `texts` holds.
pub open spec fn text_views(texts: Seq<String>) -> Seq<Seq<char>> {
    Seq::new(texts.len(), |i: int| texts[i]@)
}

/// What each of the arguments holds.
pub open spec fn argument_views(args: Seq<&str>) -> Seq<Seq<char>> {
    Seq::new(args.len(), |i: int| args[i]@)
}

impl View for Command {
    type V = CommandModel;

    open spec fn view(&self) -> CommandModel {
        match *self {
            Command::List { path, level, show_notes } => CommandModel::List {
                path: text_view(path),
                level,
                show_notes,
            },
            Command::Init => CommandModel::Init,
            Command::Git { args } => CommandModel::Git { args: text_views(args@) },
        }
    }
}

impl View for Cli {
    type V = CliModel;

    open spec fn view(&self) -> CliModel {
        CliModel {
            path: text_view(self.path),
            print: self.print,
            append: text_view(self.append),
            command: match self.command {
                Some(c) => Some(c@),
                None => None,
            },
        }
    }
}

impl View for CliError {
    type V = CliErrorModel;

    open spec fn view(&self) -> CliErrorModel {
        match *self {
            CliError::MissingValue(t) => CliErrorModel::MissingValue(t@),
            CliError::UnknownOption(t) => CliErrorModel::UnknownOption(t@),
            CliError::UnexpectedArgument(t) => CliErrorModel::UnexpectedArgument(t@),
            CliError::InvalidNumber(t) => CliErrorModel::InvalidNumber(t@),
        }
    }
}

impl View for NoteUse {
    type V = NoteUseModel;

    open spec fn view(&self) -> NoteUseModel {
        match *self {
            NoteUse::Print => NoteUseModel::Print,
            NoteUse::Append { text } => NoteUseModel::Append { text: text@ },
            NoteUse::Edit => NoteUseModel::Edit,
        }
    }
}

impl View for Action {
    type V = ActionModel;

    open spec fn view(&self) -> ActionModel {
        match *self {
            Action::Init => ActionModel::Init,
            Action::Git { args } => ActionModel::Git { args: text_views(args@) },
            Action::List { path, max_depth, show_notes } => ActionModel::List {
                path: text_view(path),
                max_depth,
                show_notes,
            },
            Action::Open { path, purpose } => ActionModel::Open { path: text_view(path), purpose: purpose@ },
        }
    }
}

/// The view of the outcome of parsing.
pub open spec fn outcome_view(r: Result<Cli, CliError>) -> Result<CliModel, CliErrorModel> {
    match r {
        Ok(cli) => Ok(cli@),
        Err(e) => Err(e@),
    }
}

/// Whether an argument looks like an option: it begins with `-`.
pub open spec fn is_option(token: Seq<char>) -> bool {
    token.len() > 0 && token[0] == '-'
}

/// The number that a text of digits writes, in base ten.
pub open spec fn digits_value(digits: Seq<char>) -> nat
    decreases digits.len(),
{
    if digits.len() == 0 {
        0
    } else {
        digits_value(digits.drop_last()) * 10 + (digits.last() as u32 - '0' as u32) as nat
    }
}

/// Whether a text is one or more digits.
pub open spec fn is_number(text: Seq<char>) -> bool {
    text.len() > 0 && forall|i: int| 0 <= i < text.len() ==> is_digit(#[trigger] text[i])
}

/// What is left of a number without the `+` that may stand in front.
pub open spec fn unsigned_part(text: Seq<char>) -> Seq<char> {
    if text.len() > 0 && text[0] == '+' {
        text.drop_first()
    } else {
        text
    }
}

/// The number that `text` writes, if it is one that a `usize` holds: one or
/// more digits, with or without a `+` in front.
pub open spec fn number_of(text: Seq<char>) -> Option<usize> {
    let digits = unsigned_part(text);
    if is_number(digits) && digits_value(digits) <= usize::MAX {
        Some(digits_value(digits) as usize)
    } else {
        None
    }
}

/// Whether `token` begins with `prefix`.
pub open spec fn begins_with(token: Seq<char>, prefix: Seq<char>) -> bool {
    prefix.len() <= token.len() && token.take(prefix.len() as int) == prefix
}

/// The value that `token` brings along for the option written `short` or
/// `long`: what stands behind `long` and `=`, or else what stands behind
/// `short` where that is not empty, without the `=` it may begin with.
/// `None` where the token is neither.
pub open spec fn attached_value(token: Seq<char>, short: Seq<char>, long: Seq<char>) -> Option<
    Seq<char>,
> {
    if begins_with(token, long.push('=')) {
        Some(token.skip(long.len() as int + 1))
    } else if token.len() > short.len() && begins_with(token, short) {
        let rest = token.skip(short.len() as int);
        if rest[0] == '=' {
            Some(rest.drop_first())
        } else {
            Some(rest)
        }
    } else {
        None
    }
}

/// The value that `token` brings along for the number of levels.
pub open spec fn attached_level(token: Seq<char>) -> Option<Seq<char>> {
    if attached_value(token, "-L"@, "--level"@) is Some {
        attached_value(token, "-L"@, "--level"@)
    } else {
        attached_value(token, "-L"@, "--depth"@)
    }
}

/// The depth limit that a number of levels stands for: one level where
/// none is given, no limit for 0.
pub open spec fn depth_limit(level: Option<usize>) -> Option<usize> {
    match level {
        None => Some(1usize),
        Some(n) => if n == 0 {
            None
        } else {
            Some(n)
        },
    }
}

/// What a call does. A command goes before everything else. Without one
/// the note is opened: to print its place if that is asked for, else to
/// append to it if there is a text, else for the editor.
pub open spec fn action_for(cli: CliModel) -> ActionModel {
    match cli.command {
        Some(CommandModel::Init) => ActionModel::Init,
        Some(CommandModel::Git { args }) => ActionModel::Git { args },
        Some(CommandModel::List { path, level, show_notes }) => ActionModel::List {
            path,
            max_depth: depth_limit(level),
            show_notes,
        },
        None => ActionModel::Open {
            path: cli.path,
            purpose: if cli.print {
                NoteUseModel::Print
            } else {
                match cli.append {
                    Some(text) => NoteUseModel::Append { text },
                    None => NoteUseModel::Edit,
                }
            },
        },
    }
}

/// Whether git is run: in a notes directory that is a repository anything
/// is, in any other only `init`.
pub open spec fn git_allowed(args: Seq<Seq<char>>, is_repository: bool) -> bool {
    is_repository || (args.len() > 0 && args[0] == "init"@)
}

/// The call that asks for nothing: the daily note, to be opened.
pub open spec fn plain_call() -> CliModel {
    CliModel { path: None, print: false, append: None, command: None }
}

/// What the arguments `tokens` add to `so_far` where a note is asked for.
/// `-p` and `--print` set the flag; `-a` and `--append` take the argument
/// behind them as the text, whatever it looks like, or the text that they
/// bring along; anything else that begins with `-` is refused; and the one
/// argument left over is the path.
pub open spec fn note_call(tokens: Seq<Seq<char>>, so_far: CliModel) -> Result<
    CliModel,
    CliErrorModel,
>
    decreases tokens.len(),
{
    if tokens.len() == 0 {
        Ok(so_far)
    } else {
        let token = tokens[0];
        if token == "-p"@ || token == "--print"@ {
            note_call(tokens.drop_first(), CliModel { print: true, ..so_far })
        } else if token == "-a"@ || token == "--append"@ {
            if tokens.len() == 1 {
                Err(CliErrorModel::MissingValue(token))
            } else {
                note_call(tokens.skip(2), CliModel { append: Some(tokens[1]), ..so_far })
            }
        } else if attached_value(token, "-a"@, "--append"@) is Some {
            note_call(
                tokens.drop_first(),
                CliModel { append: attached_value(token, "-a"@, "--append"@), ..so_far },
            )
        } else if is_option(token) {
            Err(CliErrorModel::UnknownOption(token))
        } else if so_far.path is Some {
            Err(CliErrorModel::UnexpectedArgument(token))
        } else {
            note_call(tokens.drop_first(), CliModel { path: Some(token), ..so_far })
        }
    }
}

/// What the arguments `tokens` ask of `list`, given what came before them.
/// `-L`, `--level` and `--depth` take the number behind them, or the one
/// that they bring along; `--show-notes` sets the flag; anything else that
/// begins with `-` is refused; and the one argument left over is the path.
pub open spec fn list_call(
    tokens: Seq<Seq<char>>,
    path: Option<Seq<char>>,
    level: Option<usize>,
    show_notes: bool,
) -> Result<CommandModel, CliErrorModel>
    decreases tokens.len(),
{
    if tokens.len() == 0 {
        Ok(CommandModel::List { path, level, show_notes })
    } else {
        let token = tokens[0];
        if token == "-L"@ || token == "--level"@ || token == "--depth"@ {
            if tokens.len() == 1 {
                Err(CliErrorModel::MissingValue(token))
            } else if number_of(tokens[1]) is None {
                Err(CliErrorModel::InvalidNumber(tokens[1]))
            } else {
                list_call(tokens.skip(2), path, number_of(tokens[1]), show_notes)
            }
        } else if attached_level(token) is Some {
            let number = attached_level(token)->0;
            if number_of(number) is None {
                Err(CliErrorModel::InvalidNumber(number))
            } else {
                list_call(tokens.drop_first(), path, number_of(number), show_notes)
            }
        } else if token == "--show-notes"@ {
            list_call(tokens.drop_first(), path, level, true)
        } else if is_option(token) {
            Err(CliErrorModel::UnknownOption(token))
        } else if path is Some {
            Err(CliErrorModel::UnexpectedArgument(token))
        } else {
            list_call(tokens.drop_first(), Some(token), level, show_notes)
        }
    }
}

/// What the arguments behind the program's name ask for. A first argument
/// `list`, `init` or `git` is a command: `init` takes nothing, `git` takes
/// all that follows as it is. Anything else asks for a note.
pub open spec fn call_of(tokens: Seq<Seq<char>>) -> Result<CliModel, CliErrorModel> {
    if tokens.len() > 0 && tokens[0] == "list"@ {
        match list_call(tokens.drop_first(), None, None, false) {
            Ok(command) => Ok(CliModel { command: Some(command), ..plain_call() }),
            Err(e) => Err(e),
        }
    } else if tokens.len() > 0 && tokens[0] == "init"@ {
        if tokens.len() > 1 {
            Err(CliErrorModel::UnexpectedArgument(tokens[1]))
        } else {
            Ok(CliModel { command: Some(CommandModel::Init), ..plain_call() })
        }
    } else if tokens.len() > 0 && tokens[0] == "git"@ {
        Ok(
            CliModel {
                command: Some(CommandModel::Git { args: tokens.drop_first() }),
                ..plain_call()
            },
        )
    } else {
        note_call(tokens, plain_call())
    }
}

/// What the arguments ask for; the first of them is the program's name.
pub open spec fn parsed(args: Seq<Seq<char>>) -> Result<CliModel, CliErrorModel> {
    if args.len() == 0 {
        Ok(plain_call())
    } else {
        call_of(args.drop_first())
    }
}

/// A text of digits writes no less than any text it begins with.
proof fn lemma_digits_value_grows(digits: Seq<char>, upto: int)
    requires
        0 <= upto <= digits.len(),
    ensures
        digits_value(digits.take(upto)) <= digits_value(digits),
    decreases digits.len() - upto,
{
    if upto == digits.len() {
        assert(digits.take(upto) == digits);
    } else {
        let longer = digits.take(upto + 1);
        assert(longer.drop_last() == digits.take(upto));
        lemma_digits_value_grows(digits, upto + 1);
    }
}

/// Tells whether `token` begins with `-`.
fn looks_like_option(token: &str) -> (r: bool)
    ensures
        r == is_option(token@),
{
    let mut it = token.chars();
    match it.next() {
        Some(c) => c == '-',
        None => false,
    }
}

/// Reads a number in base ten: one or more digits, with or without a `+`
/// in front, and nothing else. A number that a `usize` cannot hold gives
/// `None`, as a text that is no number does.
pub fn parse_number(text: &str) -> (r: Option<usize>)
    ensures
        r == number_of(text@),
{
    let s = chars_of(text);
    let start: usize = if s.len() > 0 && s[0] == '+' {
        1
    } else {
        0
    };
    let ghost digits = unsigned_part(text@);
    assert(digits == s@.skip(start as int));
    if start == s.len() {
        return None;
    }
    let mut value: usize = 0;
    let mut i: usize = start;
    while i < s.len()
        invariant
            start <= i <= s.len(),
            start < s.len(),
            digits == unsigned_part(text@),
            digits == s@.skip(start as int),
            forall|k: int| 0 <= k < i - start ==> is_digit(#[trigger] digits[k]),
            value == digits_value(digits.take(i - start)),
        decreases s.len() - i,
    {
        let c = s[i];
        assert(digits[i - start] == c);
        if !('0' <= c && c <= '9') {
            return None;
        }
        let digit = (c as u32 - '0' as u32) as usize;
        proof {
            assert(digits.take(i - start + 1).drop_last() == digits.take(i - start));
            lemma_digits_value_grows(digits, i - start + 1);
        }
        let tens = match value.checked_mul(10) {
            Some(t) => t,
            None => {
                return None;
            },
        };
        let next = match tens.checked_add(digit) {
            Some(n) => n,
            None => {
                return None;
            },
        };
        value = next;
        i += 1;
    }
    assert(digits.take(i - start) == digits);
    Some(value)
}

/// Tells whether `token` begins with `prefix`.
fn begins(token: &Vec<char>, prefix: &Vec<char>) -> (r: bool)
    ensures
        r == begins_with(token@, prefix@),
{
    if prefix.len() > token.len() {
        return false;
    }
    let mut i: usize = 0;
    while i < prefix.len()
        invariant
            i <= prefix.len() <= token.len(),
            forall|k: int| 0 <= k < i ==> token@[k] == prefix@[k],
        decreases prefix.len() - i,
    {
        if token[i] != prefix[i] {
            assert(token@.take(prefix.len() as int)[i as int] == token@[i as int]);
            return false;
        }
        i += 1;
    }
    assert(token@.take(prefix.len() as int) =~= prefix@);
    true
}

/// Reads the value that `token` brings along for the option written
/// `short` or `long`.
pub fn attached(token: &str, short: &str, long: &str) -> (value: Option<String>)
    ensures
        text_view(value) == attached_value(token@, short@, long@),
{
    let word = chars_of(token);
    let brief = chars_of(short);
    let mut full = chars_of(long);
    full.push('=');
    let mut from: usize = 0;
    if begins(&word, &full) {
        from = full.len();
    } else if word.len() > brief.len() && begins(&word, &brief) {
        from = brief.len();
        if word[from] == '=' {
            assert(word@.skip(from as int).drop_first() == word@.skip(from + 1));
            from = from + 1;
        }
    } else {
        return None;
    }
    let mut value = String::new();
    push_range(&mut value, &word, from, word.len());
    assert(word@.subrange(from as int, word.len() as int) == word@.skip(from as int));
    Some(value)
}

/// Reads the value that `token` brings along for the number of levels.
fn attached_level_of(token: &str) -> (value: Option<String>)
    ensures
        text_view(value) == attached_level(token@),
{
    match attached(token, "-L", "--level") {
        Some(number) => Some(number),
        None => attached(token, "-L", "--depth"),
    }
}

/// Reads the arguments from `from` on where a note is asked for.
fn parse_note_call(args: &[&str], from: usize) -> (r: Result<Cli, CliError>)
    requires
        from <= args.len(),
    ensures
        outcome_view(r) == note_call(argument_views(args@).skip(from as int), plain_call()),
{
    let ghost tokens = argument_views(args@);
    let mut path: Option<String> = None;
    let mut print = false;
    let mut append: Option<String> = None;
    let mut i: usize = from;
    while i < args.len()
        invariant
            from <= i <= args.len(),
            tokens == argument_views(args@),
            note_call(tokens.skip(from as int), plain_call()) == note_call(
                tokens.skip(i as int),
                CliModel {
                    path: text_view(path),
                    print,
                    append: text_view(append),
                    command: None,
                },
            ),
        decreases args.len() - i,
    {
        let token = args[i];
        proof {
            let rest = tokens.skip(i as int);
            assert(rest.drop_first() == tokens.skip(i + 1));
            if i + 1 < args.len() {
                assert(rest.skip(2) == tokens.skip(i + 2));
            }
        }
        if same_text(token, "-p") || same_text(token, "--print") {
            print = true;
            i += 1;
        } else if same_text(token, "-a") || same_text(token, "--append") {
            if i + 1 >= args.len() {
                return Err(CliError::MissingValue(token.to_owned()));
            }
            append = Some(args[i + 1].to_owned());
            i += 2;
        } else if let Some(text) = attached(token, "-a", "--append") {
            append = Some(text);
            i += 1;
        } else if looks_like_option(token) {
            return Err(CliError::UnknownOption(token.to_owned()));
        } else if path.is_some() {
            return Err(CliError::UnexpectedArgument(token.to_owned()));
        } else {
            path = Some(token.to_owned());
            i += 1;
        }
    }
    Ok(Cli { path, print, append, command: None })
}

/// Reads the arguments of `list`, which begin at `from`.
fn parse_list_call(args: &[&str], from: usize) -> (r: Result<Command, CliError>)
    requires
        from <= args.len(),
    ensures
        match r {
            Ok(command) => Ok::<CommandModel, CliErrorModel>(command@),
            Err(e) => Err(e@),
        } == list_call(argument_views(args@).skip(from as int), None, None, false),
{
    let ghost tokens = argument_views(args@);
    let mut path: Option<String> = None;
    let mut level: Option<usize> = None;
    let mut show_notes = false;
    let mut i: usize = from;
    while i < args.len()
        invariant
            from <= i <= args.len(),
            tokens == argument_views(args@),
            list_call(tokens.skip(from as int), None, None, false) == list_call(
                tokens.skip(i as int),
                text_view(path),
                level,
                show_notes,
            ),
        decreases args.len() - i,
    {
        let token = args[i];
        proof {
            let rest = tokens.skip(i as int);
            assert(rest.drop_first() == tokens.skip(i + 1));
            if i + 1 < args.len() {
                assert(rest.skip(2) == tokens.skip(i + 2));
            }
        }
        if same_text(token, "-L") || same_text(token, "--level") || same_text(token, "--depth") {
            if i + 1 >= args.len() {
                return Err(CliError::MissingValue(token.to_owned()));
            }
            match parse_number(args[i + 1]) {
                Some(n) => {
                    level = Some(n);
                },
                None => {
                    return Err(CliError::InvalidNumber(args[i + 1].to_owned()));
                },
            }
            i += 2;
        } else if let Some(number) = attached_level_of(token) {
            match parse_number(number.as_str()) {
                Some(n) => {
                    level = Some(n);
                },
                None => {
                    return Err(CliError::InvalidNumber(number));
                },
            }
            i += 1;
        } else if same_text(token, "--show-notes") {
            show_notes = true;
            i += 1;
        } else if looks_like_option(token) {
            return Err(CliError::UnknownOption(token.to_owned()));
        } else if path.is_some() {
            return Err(CliError::UnexpectedArgument(token.to_owned()));
        } else {
            path = Some(token.to_owned());
            i += 1;
        }
    }
    Ok(Command::List { path, level, show_notes })
}

/// Copies the arguments from `from` on.
fn rest_of(args: &[&str], from: usize) -> (out: Vec<String>)
    requires
        from <= args.len(),
    ensures
        text_views(out@) == argument_views(args@).skip(from as int),
{
    let mut out: Vec<String> = Vec::new();
    let mut i: usize = from;
    while i < args.len()
        invariant
            from <= i <= args.len(),
            text_views(out@) == argument_views(args@).subrange(from as int, i as int),
        decreases args.len() - i,
    {
        let ghost before = text_views(out@);
        out.push(args[i].to_owned());
        assert(text_views(out@) == before.push(args@[i as int]@));
        i += 1;
    }
    out
}

impl Cli {
    /// Reads the arguments of a call; the first is the program's name and
    /// is passed over.
    ///
    /// A first argument `list`, `init` or `git` is a command. `list` takes
    /// a path, a number of levels behind `-L`, `--level` or `--depth`, and
    /// `--show-notes`; `init` takes nothing; `git` takes all that follows
    /// as it is. Anything else asks for a note: a path, `-p` or `--print`,
    /// and a text behind `-a` or `--append`, which may begin with `-`.
    pub fn parse_from(args: &[&str]) -> (r: Result<Cli, CliError>)
        ensures
            outcome_view(r) == parsed(argument_views(args@)),
    {
        if args.len() == 0 {
            return Ok(Cli { path: None, print: false, append: None, command: None });
        }
        let ghost tokens = argument_views(args@).drop_first();
        if args.len() == 1 {
            return parse_note_call(args, 1);
        }
        let first = args[1];
        proof {
            assert(tokens.drop_first() == argument_views(args@).skip(2));
        }
        if same_text(first, "list") {
            match parse_list_call(args, 2) {
                Ok(command) => Ok(
                    Cli { path: None, print: false, append: None, command: Some(command) },
                ),
                Err(e) => Err(e),
            }
        } else if same_text(first, "init") {
            if args.len() > 2 {
                Err(CliError::UnexpectedArgument(args[2].to_owned()))
            } else {
                Ok(Cli { path: None, print: false, append: None, command: Some(Command::Init) })
            }
        } else if same_text(first, "git") {
            let rest = rest_of(args, 2);
            Ok(
                Cli {
                    path: None,
                    print: false,
                    append: None,
                    command: Some(Command::Git { args: rest }),
                },
            )
        } else {
            parse_note_call(args, 1)
        }
    }
}

/// Turns the number of levels that was asked for into a depth limit: one
/// level where none was given, and no limit for 0.
pub fn max_depth_of(level: Option<usize>) -> (limit: Option<usize>)
    ensures
        limit == depth_limit(level),
{
    match level {
        None => Some(1),
        Some(n) => if n == 0 {
            None
        } else {
            Some(n)
        },
    }
}

/// Tells whether git may be run with `args`: always in a notes directory
/// that is a repository, and else only to make it one with `init`.
pub fn git_may_run(args: &Vec<String>, is_repository: bool) -> (r: bool)
    ensures
        r == git_allowed(text_views(args@), is_repository),
{
    if is_repository {
        true
    } else if args.len() > 0 {
        same_text(args[0].as_str(), "init")
    } else {
        false
    }
}

impl Cli {
    /// Decides what the call does.
    pub fn action(self) -> (action: Action)
        ensures
            action@ == action_for(self@),
    {
        match self.command {
            Some(Command::Init) => Action::Init,
            Some(Command::Git { args }) => Action::Git { args },
            Some(Command::List { path, level, show_notes }) => Action::List {
                path,
                max_depth: max_depth_of(level),
                show_notes,
            },
            None => {
                let purpose = if self.print {
                    NoteUse::Print
                } else {
                    match self.append {
                        Some(text) => NoteUse::Append { text },
                        None => NoteUse::Edit,
                    }
                };
                Action::Open { path: self.path, purpose }
            },
        }
    }
}

} // verus!
