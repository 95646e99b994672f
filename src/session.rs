use vstd::prelude::*;
use crate::errors::{ConsulXError, ErrorView};
use crate::parser::{parse, parse_spec, Command, CommandView};
use crate::text::{split_words, views, words};

verus! {

/// The code of `c` in lower case, for ASCII letters; any other character keeps its code.
pub open spec fn ascii_lower(c: char) -> int {
    if 'A' <= c && c <= 'Z' {
        (c as u32) + 32
    } else {
        c as u32 as int
    }
}

/// Whether two texts are equal once ASCII letters are put in lower case.
pub open spec fn same_ignoring_ascii_case(a: Seq<char>, b: Seq<char>) -> bool {
    a.len() == b.len() && forall|i: int| 0 <= i < a.len() ==> ascii_lower(#[trigger] a[i])
        == ascii_lower(b[i])
}

/// Whether a line asks to leave: once trimmed it is `exit` or `quit`, in any ASCII case.
pub open spec fn is_exit_line(line: Seq<char>) -> bool {
    let ws = words(line);
    ws.len() == 1 && (same_ignoring_ascii_case(ws[0], "exit"@) || same_ignoring_ascii_case(
        ws[0],
        "quit"@,
    ))
}

/// The code of `c` with ASCII letters put in lower case.
fn lower_ascii(c: char) -> (r: u32)
    ensures
        r as int == ascii_lower(c),
{
    if 'A' <= c && c <= 'Z' {
        (c as u32) + 32
    } else {
        c as u32
    }
}

/// Compares two texts with ASCII letters put in lower case.
pub fn eq_ignoring_ascii_case(a: &str, b: &str) -> (r: bool)
    ensures
        r == same_ignoring_ascii_case(a@, b@),
{
    let n = a.unicode_len();
    if n != b.unicode_len() {
        return false;
    }
    let mut i: usize = 0;
    while i < n
        invariant
            n == a@.len(),
            n == b@.len(),
            i <= n,
            forall|k: int| 0 <= k < i ==> ascii_lower(#[trigger] a@[k]) == ascii_lower(b@[k]),
        decreases n - i,
    {
        if lower_ascii(a.get_char(i)) != lower_ascii(b.get_char(i)) {
            return false;
        }
        i = i + 1;
    }
    true
}

/// Checks whether a line asks to leave the session.
pub fn exit_requested(line: &str) -> (r: bool)
    ensures
        r == is_exit_line(line@),
{
    let ws = split_words(line);
    if ws.len() != 1 {
        return false;
    }
    proof {
        assert(views(ws@)[0] == ws@[0]@);
    }
    eq_ignoring_ascii_case(ws[0].as_str(), "exit") || eq_ignoring_ascii_case(ws[0].as_str(), "quit")
}

/// What the session does with one line of input.
#[derive(Debug)]
pub enum LineAction {
    /// Leave the session.
    Exit,
    /// Carry out a command.
    Run(Command),
    /// Report an error and read the next line.
    Report(ConsulXError),
}

/// The model of what the session does with a line.
pub open spec fn line_action_spec(line: Seq<char>) -> Option<Result<CommandView, ErrorView>> {
    if is_exit_line(line) {
        None
    } else {
        Some(parse_spec(line))
    }
}

/// Decides what the session does with one line: leaving is decided before the line is parsed.
pub fn decide_line(line: &str) -> (r: LineAction)
    ensures
        match line_action_spec(line@) {
            None => r is Exit,
            Some(p) => match r {
                LineAction::Run(c) => p == Ok::<CommandView, ErrorView>(c@),
                LineAction::Report(e) => p == Err::<CommandView, ErrorView>(e@),
                LineAction::Exit => false,
            },
        },
{
    if exit_requested(line) {
        return LineAction::Exit;
    }
    match parse(line) {
        Ok(c) => LineAction::Run(c),
        Err(e) => LineAction::Report(e),
    }
}

/// `exit` and `quit`, in any ASCII case and with any white space around them, end the
/// session and are never parsed.
pub proof fn lemma_exit_intercepted(line: Seq<char>)
    requires
        is_exit_line(line),
    ensures
        line_action_spec(line) is None,
{
}

} // verus!
