//! One-shot terminal command handling.
//!
//! A full command line is split into blank-separated parts. The first part
//! selects a built-in (`help`, `clear`, `echo`), answered directly;
//! anything else is handed to the platform shell, as one line with the
//! parts joined by single spaces. Running the shell is OS work done by the
//! host; everything decided here — the parsing, the built-ins, the shell
//! invocation, and how the captured output becomes the caller's result —
//! is verified.
//!
//! Parts are separated by ASCII blanks (space, tab, line and carriage
//! ends, vertical tab, form feed).

use vstd::prelude::*;

use vstd::string::StrSliceExecFns;
use vstd::string::StringExecFns;

use crate::streamer::lossy_utf8_of;

verus! {

/// The ASCII blanks that separate the parts of a command line.
pub open spec fn is_blank(c: char) -> bool {
    c == ' ' || c == '\t' || c == '\n' || c == '\r' || c == '\x0b' || c == '\x0c'
}

fn is_blank_char(c: char) -> (r: bool)
    ensures
        r == is_blank(c),
{
    c == ' ' || c == '\t' || c == '\n' || c == '\r' || c == '\x0b' || c == '\x0c'
}

/// The views of a list of owned strings.
pub open spec fn views_of(ws: Seq<String>) -> Seq<Seq<char>> {
    ws.map_values(|w: String| w@)
}

/// The blank-separated parts of `s`, in order, each non-empty: the last
/// character either closes off nothing (a blank), extends the still-open
/// last part (a non-blank after a non-blank), or opens a new part.
pub open spec fn split_blanks(s: Seq<char>) -> Seq<Seq<char>>
    decreases s.len(),
{
    if s.len() == 0 {
        Seq::empty()
    } else {
        let prev = split_blanks(s.drop_last());
        let c = s.last();
        if is_blank(c) {
            prev
        } else if s.len() >= 2 && !is_blank(s[s.len() - 2]) {
            prev.update(prev.len() - 1, prev.last().push(c))
        } else {
            prev.push(seq![c])
        }
    }
}

/// Splits a command line into its blank-separated parts.
pub fn split_command(s: &str) -> (r: Vec<String>)
    ensures
        views_of(r@) == split_blanks(s@),
{
    let n = s.unicode_len();
    let mut words: Vec<String> = Vec::new();
    let mut start: usize = 0;
    let mut i: usize = 0;
    while i < n
        invariant
            n == s@.len(),
            i <= n,
            start <= i,
            forall|k: int| start <= k < i ==> !is_blank(s@[k]),
            start < i ==> (start == 0 || is_blank(s@[start - 1])),
            start == i ==> (i == 0 || is_blank(s@[i - 1])),
            start < i ==> views_of(words@).push(s@.subrange(start as int, i as int))
                == split_blanks(s@.take(i as int)),
            start == i ==> views_of(words@) == split_blanks(s@.take(i as int)),
        decreases n - i,
    {
        let c = s.get_char(i);
        proof {
            assert(s@.take(i + 1).drop_last() =~= s@.take(i as int));
            assert(s@.take(i + 1).last() == s@[i as int]);
        }
        if is_blank_char(c) {
            if start < i {
                let w = s.substring_char(start, i);
                let ghost old_words = words@;
                words.push(String::from_str(w));
                proof {
                    assert(views_of(words@) =~= views_of(old_words).push(w@));
                }
            }
            i = i + 1;
            start = i;
        } else {
            proof {
                let t = s@.take(i + 1);
                let prev = split_blanks(s@.take(i as int));
                if start < i {
                    assert(!is_blank(s@[i - 1]));
                    assert(t.len() >= 2 && !is_blank(t[t.len() - 2]));
                    assert(split_blanks(t) == prev.update(
                        prev.len() - 1,
                        prev.last().push(s@[i as int]),
                    ));
                    let ws = views_of(words@);
                    assert(prev == ws.push(s@.subrange(start as int, i as int)));
                    assert(prev.last() == s@.subrange(start as int, i as int));
                    assert(s@.subrange(start as int, i as int).push(s@[i as int]) =~= s@.subrange(
                        start as int,
                        i + 1,
                    ));
                    assert(prev.update(prev.len() - 1, prev.last().push(s@[i as int])) =~= ws.push(
                        s@.subrange(start as int, i + 1),
                    ));
                } else {
                    assert(t.len() < 2 || is_blank(t[t.len() - 2]));
                    assert(split_blanks(t) == prev.push(seq![s@[i as int]]));
                    assert(s@.subrange(start as int, i + 1) =~= seq![s@[i as int]]);
                }
            }
            i = i + 1;
        }
    }
    proof {
        assert(s@.take(n as int) =~= s@);
    }
    if start < n {
        let w = s.substring_char(start, n);
        let ghost old_words = words@;
        words.push(String::from_str(w));
        proof {
            assert(views_of(words@) =~= views_of(old_words).push(w@));
        }
    }
    words
}

/// The parts joined back into one line, one space between any two.
pub open spec fn join_spaces(ws: Seq<Seq<char>>) -> Seq<char>
    decreases ws.len(),
{
    if ws.len() == 0 {
        Seq::empty()
    } else if ws.len() == 1 {
        ws[0]
    } else {
        join_spaces(ws.drop_last()) + seq![' '] + ws.last()
    }
}

/// Joins `words[from..]` with single spaces.
pub fn join_with_spaces(words: &Vec<String>, from: usize) -> (r: String)
    requires
        from <= words@.len(),
    ensures
        r@ == join_spaces(views_of(words@).skip(from as int)),
{
    let ghost ws = views_of(words@).skip(from as int);
    let mut out = String::new();
    let mut i: usize = from;
    while i < words.len()
        invariant
            from <= i <= words@.len(),
            ws == views_of(words@).skip(from as int),
            out@ == join_spaces(ws.take(i - from)),
        decreases words@.len() - i,
    {
        proof {
            let t = ws.take(i - from + 1);
            assert(t.drop_last() =~= ws.take(i - from));
            assert(t.last() == words@[i as int]@);
            if i == from {
                assert(t =~= seq![words@[i as int]@]);
                assert(join_spaces(t) == words@[i as int]@);
            }
        }
        if i > from {
            out.append(" ");
            proof {
                reveal_strlit(" ");
                assert((" ")@ =~= seq![' ']);
            }
        }
        out.append(words[i].as_str());
        i = i + 1;
    }
    proof {
        assert(ws.take(words@.len() - from) =~= ws);
    }
    out
}

/// Character-for-character string equality.
pub fn str_eq(a: &str, b: &str) -> (r: bool)
    ensures
        r == (a@ == b@),
{
    let na = a.unicode_len();
    let nb = b.unicode_len();
    if na != nb {
        return false;
    }
    let mut i: usize = 0;
    while i < na
        invariant
            na == a@.len(),
            na == b@.len(),
            i <= na,
            forall|k: int| 0 <= k < i ==> a@[k] == b@[k],
        decreases na - i,
    {
        if a.get_char(i) != b.get_char(i) {
            return false;
        }
        i = i + 1;
    }
    proof {
        assert(a@ =~= b@);
    }
    true
}

/// The text that the `help` built-in prints.
pub open spec fn help_text() -> Seq<char> {
    r#"POLARIS Terminal - Available Commands:

Built-in Commands:
  help        Show this help message
  clear       Clear the terminal
  echo        Echo text to terminal

You can also run any system command available in your PATH.

Examples:
  ls          List directory contents (Unix)
  dir         List directory contents (Windows)
  pwd         Print working directory (Unix)
  cd          Change directory
  cargo       Rust package manager commands
  npm         Node package manager commands

Press Ctrl+` to toggle terminal visibility.
"#@
}

/// The help message of the built-in `help` command.
pub fn get_help_text() -> (r: String)
    ensures
        r@ == help_text(),
{
    String::from_str(
        r#"POLARIS Terminal - Available Commands:

Built-in Commands:
  help        Show this help message
  clear       Clear the terminal
  echo        Echo text to terminal

You can also run any system command available in your PATH.

Examples:
  ls          List directory contents (Unix)
  dir         List directory contents (Windows)
  pwd         Print working directory (Unix)
  cd          Change directory
  cargo       Rust package manager commands
  npm         Node package manager commands

Press Ctrl+` to toggle terminal visibility.
"#,
    )
}

/// The control sequence that the `clear` built-in answers: erase the
/// screen, cursor home.
pub open spec fn clear_sequence() -> Seq<char> {
    "\x1b[2J\x1b[H"@
}

/// What a command line resolves to before any OS work: a built-in's
/// direct reply, or one normalized line (parts joined by single spaces)
/// for the platform shell to run.
#[derive(Debug)]
pub enum CommandPlan {
    Reply(String),
    RunShell(String),
}

/// The built-in reply to a command, if its first part names a built-in:
/// an empty line is answered with the empty string, `help` with the help
/// text, `clear` with the clear control sequence, and `echo` with its
/// remaining parts rejoined.
pub open spec fn builtin_reply(parts: Seq<Seq<char>>) -> Option<Seq<char>> {
    if parts.len() == 0 {
        Option::Some(Seq::empty())
    } else if parts[0] == "help"@ {
        Option::Some(help_text())
    } else if parts[0] == "clear"@ {
        Option::Some(clear_sequence())
    } else if parts[0] == "echo"@ {
        Option::Some(join_spaces(parts.drop_first()))
    } else {
        Option::None
    }
}

/// Resolves one command line: built-ins are answered directly, anything
/// else becomes the line the platform shell must run.
pub fn execute_command(command: &str) -> (r: CommandPlan)
    ensures
        builtin_reply(split_blanks(command@)) matches Some(t) ==> (r matches CommandPlan::Reply(s)
            && s@ == t),
        builtin_reply(split_blanks(command@)) is None ==> (r matches CommandPlan::RunShell(line)
            && line@ == join_spaces(split_blanks(command@))),
{
    let parts = split_command(command);
    if parts.len() == 0 {
        return CommandPlan::Reply(String::new());
    }
    let ghost ps = split_blanks(command@);
    proof {
        assert(ps[0] == parts@[0]@);
    }
    if str_eq(parts[0].as_str(), "help") {
        return CommandPlan::Reply(get_help_text());
    }
    if str_eq(parts[0].as_str(), "clear") {
        return CommandPlan::Reply(String::from_str("\x1b[2J\x1b[H"));
    }
    if str_eq(parts[0].as_str(), "echo") {
        let joined = join_with_spaces(&parts, 1);
        proof {
            assert(views_of(parts@).skip(1) =~= ps.drop_first());
        }
        return CommandPlan::Reply(joined);
    }
    let joined = join_with_spaces(&parts, 0);
    proof {
        assert(views_of(parts@).skip(0) =~= ps);
    }
    CommandPlan::RunShell(joined)
}

/// The platform the backend runs on: one with `cmd`-style shells, or a
/// POSIX-like one.
#[derive(Clone, Copy, Debug, PartialEq, Eq, Structural)]
pub enum Platform {
    Windows,
    Posix,
}

/// A fixed short identifier for the platform.
pub fn platform_name(platform: Platform) -> (r: String)
    ensures
        platform is Windows ==> r@ == "windows"@,
        platform is Posix ==> r@ == "posix"@,
{
    match platform {
        Platform::Windows => String::from_str("windows"),
        Platform::Posix => String::from_str("posix"),
    }
}

/// How the host must invoke the platform shell for one command line.
#[derive(Debug)]
pub struct ShellInvocation {
    pub program: String,
    pub flag: String,
    pub command_line: String,
}

/// The shell invocation for one normalized command line: `cmd /C` on
/// Windows, `sh -c` elsewhere, the line passed through unchanged.
pub fn shell_invocation(platform: Platform, command_line: String) -> (r: ShellInvocation)
    ensures
        platform is Windows ==> r.program@ == "cmd"@ && r.flag@ == "/C"@,
        platform is Posix ==> r.program@ == "sh"@ && r.flag@ == "-c"@,
        r.command_line == command_line,
{
    match platform {
        Platform::Windows => ShellInvocation {
            program: String::from_str("cmd"),
            flag: String::from_str("/C"),
            command_line,
        },
        Platform::Posix => ShellInvocation {
            program: String::from_str("sh"),
            flag: String::from_str("-c"),
            command_line,
        },
    }
}

/// Turns a finished shell command's captured output into the caller's
/// result: on success, the standard output lossily decoded; on failure,
/// the decoded standard error as the error message, or a fixed message
/// when the standard error decoded to nothing.
pub fn interpret_command_output(success: bool, stdout: &[u8], stderr: &[u8]) -> (r: Result<
    String,
    String,
>)
    ensures
        success ==> (r matches Ok(out) && out@ == lossy_utf8_of(stdout@)),
        !success ==> (r matches Err(msg) && msg@ == (if lossy_utf8_of(stderr@).len() == 0 {
            "Command failed with no output"@
        } else {
            lossy_utf8_of(stderr@)
        })),
{
    if success {
        Ok(crate::streamer::decode_lossy(stdout))
    } else {
        let err = crate::streamer::decode_lossy(stderr);
        if err.unicode_len() == 0 {
            Err(String::from_str("Command failed with no output"))
        } else {
            Err(err)
        }
    }
}

} // verus!
