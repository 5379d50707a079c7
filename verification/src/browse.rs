//! Command interpretation for the filesystem browser shell.
//!
//! The shell reads one line per turn, lexes it with shell quoting rules
//! (behind a trusted wrapper), and interprets the tokens as one of the
//! fixed commands. Directory changes and walks are I/O and happen
//! outside the library; classifying what the walk found, and normalizing
//! its paths, is verified here.

use vstd::prelude::*;
use crate::blocksettings::AppString;
use crate::strutil::norm_sep;
use crate::strutil::normalize_separators;
use crate::strutil::str_eq;

verus! {

/// What `shlex::split` returns for a line: its shell-lexed tokens, or
/// nothing for erroneous input; a function of the line alone.
pub uninterp spec fn shlex_split_of(line: Seq<char>) -> Option<Seq<Seq<char>>>;

/// Relies on `shlex::split`: POSIX-style shell lexing of one command
/// line; `None` exactly on erroneous input (an unclosed quote or a
/// trailing backslash).
#[verifier::external_body]
fn split_line(line: &str) -> (r: Option<Vec<String>>)
    ensures
        match r {
            Some(tokens) => shlex_split_of(line@) == Some(tokens@.map_values(|t: String| t@)),
            None => shlex_split_of(line@) is None,
        },
{
    shlex::split(line)
}

/// One turn of the browser shell.
#[derive(Debug, Clone, PartialEq, Eq)]
pub enum BrowseCommand {
    /// `cd <path>`; any other arity resets to the default directory.
    Cd(Option<String>),
    /// `ls`: list and choose among the current directory's entries.
    Ls,
    /// `search <keyword>`: fuzzy-search the subtree.
    Search(String),
    /// `done`, `quit` or `q`: end the browsing session.
    Done,
    /// A well-lexed line that is no command of the shell.
    Invalid,
    /// A line the shell lexer rejects.
    Unparseable,
}

/// How a token list reads as a command.
pub open spec fn spec_command_shape(toks: Seq<Seq<char>>, c: BrowseCommand) -> bool {
    if toks.len() == 0 {
        c == BrowseCommand::Invalid
    } else if toks[0] == "cd"@ {
        if toks.len() == 2 {
            c matches BrowseCommand::Cd(Some(p)) && p@ == toks[1]
        } else {
            c == BrowseCommand::Cd(None::<String>)
        }
    } else if toks[0] == "ls"@ {
        c == BrowseCommand::Ls
    } else if toks[0] == "search"@ {
        if toks.len() == 2 {
            c matches BrowseCommand::Search(k) && k@ == toks[1]
        } else {
            c == BrowseCommand::Invalid
        }
    } else if toks[0] == "done"@ || toks[0] == "quit"@ || toks[0] == "q"@ {
        c == BrowseCommand::Done
    } else {
        c == BrowseCommand::Invalid
    }
}

/// Reads a lexed token list as a shell command.
pub fn parse_browse_command(tokens: &Vec<String>) -> (c: BrowseCommand)
    ensures
        spec_command_shape(tokens@.map_values(|t: String| t@), c),
        !(c is Unparseable),
{
    let n = tokens.len();
    if n == 0 {
        return BrowseCommand::Invalid;
    }
    let head = tokens[0].as_str();
    if str_eq(head, "cd") {
        if n == 2 {
            BrowseCommand::Cd(Some(tokens[1].clone()))
        } else {
            BrowseCommand::Cd(None)
        }
    } else if str_eq(head, "ls") {
        BrowseCommand::Ls
    } else if str_eq(head, "search") {
        if n == 2 {
            BrowseCommand::Search(tokens[1].clone())
        } else {
            BrowseCommand::Invalid
        }
    } else if str_eq(head, "done") || str_eq(head, "quit") || str_eq(head, "q") {
        BrowseCommand::Done
    } else {
        BrowseCommand::Invalid
    }
}

/// Lexes and interprets one input line of the shell.
pub fn interpret_command_line(line: &str) -> (c: BrowseCommand)
    ensures
        match shlex_split_of(line@) {
            Some(toks) => spec_command_shape(toks, c) && !(c is Unparseable),
            None => c == BrowseCommand::Unparseable,
        },
{
    match split_line(line) {
        Some(tokens) => parse_browse_command(&tokens),
        None => BrowseCommand::Unparseable,
    }
}

/// Classifies one chosen entry by the filesystem kind the caller
/// observed, normalizing its separators; entries that are neither
/// directory nor regular file are dropped.
pub fn classify_path(path: &str, is_dir: bool, is_file: bool) -> (r: Option<AppString>)
    ensures
        match r {
            Some(a) => if is_dir {
                a matches AppString::Folder(p) && p@ == norm_sep(path@)
            } else {
                is_file && (a matches AppString::File(p) && p@ == norm_sep(path@))
            },
            None => !is_dir && !is_file,
        },
{
    let normalized = normalize_separators(path);
    if is_dir {
        Some(AppString::Folder(normalized))
    } else if is_file {
        Some(AppString::File(normalized))
    } else {
        None
    }
}

/// Whether `c` separates path components.
pub open spec fn is_sep(c: char) -> bool {
    c == '/' || c == '\\'
}

/// The final path component: everything after the last separator.
pub open spec fn spec_base_name(s: Seq<char>) -> Seq<char>
    decreases s.len(),
{
    if s.len() == 0 {
        s
    } else if is_sep(s.last()) {
        Seq::<char>::empty()
    } else {
        spec_base_name(s.drop_last()).push(s.last())
    }
}

/// Whether the final path component names an executable: it ends in
/// `.exe` with a non-empty stem.
pub open spec fn spec_is_exe_path(s: Seq<char>) -> bool {
    let b = spec_base_name(s);
    b.len() > 4 && b.skip(b.len() - 4) == ".exe"@
}

/// The final component is the unbroken run of non-separators at the end.
proof fn lemma_base_name_suffix(s: Seq<char>, k: int)
    requires
        0 <= k <= s.len(),
        forall|j: int| k <= j < s.len() ==> !is_sep(#[trigger] s[j]),
        k > 0 ==> is_sep(s[k - 1]),
    ensures
        spec_base_name(s) == s.skip(k),
    decreases s.len(),
{
    if k == s.len() {
        if s.len() == 0 {
            assert(spec_base_name(s) =~= s.skip(k));
        } else {
            assert(is_sep(s.last()));
            assert(spec_base_name(s) =~= s.skip(k));
        }
    } else {
        assert(!is_sep(s.last()));
        lemma_base_name_suffix(s.drop_last(), k);
        assert(spec_base_name(s) =~= s.drop_last().skip(k).push(s.last()));
        assert(s.drop_last().skip(k).push(s.last()) =~= s.skip(k));
    }
}

/// Whether this path points at an executable by name.
pub fn is_exe_path(path: &str) -> (r: bool)
    ensures
        r == spec_is_exe_path(path@),
{
    let n = path.unicode_len();
    let mut base_start: usize = 0;
    let mut i: usize = 0;
    while i < n
        invariant
            i <= n,
            n == path@.len(),
            base_start <= i,
            forall|j: int| base_start <= j < i ==> !is_sep(#[trigger] path@[j]),
            base_start > 0 ==> is_sep(path@[base_start - 1]),
        decreases n - i,
    {
        let c = path.get_char(i);
        if c == '/' || c == '\\' {
            base_start = i + 1;
        }
        i = i + 1;
    }
    proof {
        lemma_base_name_suffix(path@, base_start as int);
    }
    if n - base_start <= 4 {
        return false;
    }
    let tail = path.substring_char(n - 4, n);
    proof {
        assert(tail@ =~= path@.skip(n - 4));
        assert(spec_base_name(path@).skip(spec_base_name(path@).len() - 4) =~= path@.skip(n - 4));
    }
    str_eq(tail, ".exe")
}

/// The directory listing keeps directories and executables.
pub fn is_exe_or_dir_candidate(path: &str, is_dir: bool) -> (r: bool)
    ensures
        r == (is_dir || spec_is_exe_path(path@)),
{
    if is_dir {
        true
    } else {
        is_exe_path(path)
    }
}

} // verus!
