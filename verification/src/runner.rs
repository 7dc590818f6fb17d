//! What a running cargo process reports, and the cleaning of its output lines.

use vstd::prelude::*;
use crate::text::{chars_of, concat, push_char, string_of};

verus! {

/// What a running cargo process reports: an output line, or its exit code.
#[derive(Debug, Clone)]
pub enum RunnerEvent {
    Line(String),
    Exit(i32),
}

/// The escape character that starts a terminal control sequence.
pub open spec fn esc() -> char {
    '\x1b'
}

/// `char::is_ascii_alphabetic`.
pub open spec fn is_ascii_letter(c: char) -> bool {
    ('a' <= c && c <= 'z') || ('A' <= c && c <= 'Z')
}

/// The position just past the first ASCII letter at or after `i` (the letter
/// ends a control sequence), or the end of `s` when there is none.
pub open spec fn csi_end(s: Seq<char>, i: int) -> int
    decreases s.len() - i,
{
    if i >= s.len() {
        s.len() as int
    } else if is_ascii_letter(s[i]) {
        i + 1
    } else {
        csi_end(s, i + 1)
    }
}

pub proof fn lemma_csi_end_bounds(s: Seq<char>, i: int)
    requires
        0 <= i,
    ensures
        i <= csi_end(s, i) || csi_end(s, i) == s.len(),
        csi_end(s, i) <= s.len() || i > s.len(),
        i <= s.len() ==> i <= csi_end(s, i) <= s.len(),
    decreases s.len() - i,
{
    if i < s.len() && !is_ascii_letter(s[i]) {
        lemma_csi_end_bounds(s, i + 1);
    }
}

/// `s[i..]` without its ANSI control sequences: each escape character followed
/// by `[` is dropped together with everything up to and including the next
/// ASCII letter (or the rest of the line when there is none).
pub open spec fn stripped_from(s: Seq<char>, i: int) -> Seq<char>
    decreases s.len() - i,
{
    if i < 0 || i >= s.len() {
        Seq::empty()
    } else if s[i] == esc() && i + 1 < s.len() && s[i + 1] == '[' {
        proof {
            lemma_csi_end_bounds(s, i + 2);
        }
        stripped_from(s, csi_end(s, i + 2))
    } else {
        seq![s[i]] + stripped_from(s, i + 1)
    }
}

/// `s` without its ANSI control sequences.
pub open spec fn stripped(s: Seq<char>) -> Seq<char> {
    stripped_from(s, 0)
}

fn is_letter(c: char) -> (res: bool)
    ensures
        res == is_ascii_letter(c),
{
    ('a' <= c && c <= 'z') || ('A' <= c && c <= 'Z')
}

/// What a process stopped on request reports: a `[killed]` line, then exit code 130.
pub fn killed_events() -> (res: Vec<RunnerEvent>)
    ensures
        res@.len() == 2,
        res@[0] matches RunnerEvent::Line(l) && l@ == "[killed]"@,
        res@[1] == RunnerEvent::Exit(130),
{
    let mut res: Vec<RunnerEvent> = Vec::new();
    res.push(RunnerEvent::Line(string_of("[killed]")));
    res.push(RunnerEvent::Exit(130));
    res
}

/// What a process that could not be started reports: an `error: ` line with
/// the reason, then exit code 1.
pub fn start_failed_events(reason: &str) -> (res: Vec<RunnerEvent>)
    ensures
        res@.len() == 2,
        res@[0] matches RunnerEvent::Line(l) && l@ == "error: "@ + reason@,
        res@[1] == RunnerEvent::Exit(1),
{
    let mut res: Vec<RunnerEvent> = Vec::new();
    res.push(RunnerEvent::Line(concat("error: ", reason)));
    res.push(RunnerEvent::Exit(1));
    res
}

/// The exit code reported for a finished process: its own, or -1 when it has
/// none (killed by a signal) or waiting for it failed.
pub fn exit_code(code: Option<i32>) -> (res: i32)
    ensures
        res == match code {
            Some(c) => c,
            None => -1i32,
        },
{
    match code {
        Some(c) => c,
        None => -1,
    }
}

/// Strip ANSI escape sequences from a string.
pub fn strip_ansi(s: &str) -> (res: String)
    ensures
        res@ == stripped(s@),
{
    let cs = chars_of(s);
    let mut out = String::new();
    let mut i: usize = 0;
    while i < cs.len()
        invariant
            0 <= i <= cs@.len(),
            cs@ == s@,
            out@ + stripped_from(cs@, i as int) == stripped(cs@),
        decreases cs.len() - i,
    {
        if cs[i] == '\x1b' && i + 1 < cs.len() && cs[i + 1] == '[' {
            let mut j: usize = i + 2;
            proof {
                lemma_csi_end_bounds(cs@, j as int);
            }
            while j < cs.len() && !is_letter(cs[j])
                invariant
                    i + 2 <= j <= cs@.len(),
                    csi_end(cs@, (i + 2) as int) == csi_end(cs@, j as int),
                decreases cs.len() - j,
            {
                j += 1;
            }
            if j < cs.len() {
                j += 1;
            }
            i = j;
        } else {
            let ghost before = out@;
            push_char(&mut out, cs[i]);
            assert(before + stripped_from(cs@, i as int) =~= out@ + stripped_from(cs@, i + 1));
            i += 1;
        }
    }
    assert(out@ =~= stripped(s@));
    out
}

/// A line without escape characters is left as it is.
pub proof fn lemma_strip_plain(s: Seq<char>)
    requires
        forall|k: int| 0 <= k < s.len() ==> s[k] != esc(),
    ensures
        stripped(s) == s,
{
    lemma_strip_plain_from(s, 0);
    assert(s.skip(0) =~= s);
}

proof fn lemma_strip_plain_from(s: Seq<char>, i: int)
    requires
        0 <= i <= s.len(),
        forall|k: int| 0 <= k < s.len() ==> s[k] != esc(),
    ensures
        stripped_from(s, i) == s.skip(i),
    decreases s.len() - i,
{
    if i < s.len() {
        lemma_strip_plain_from(s, i + 1);
        assert(s.skip(i) =~= seq![s[i]] + s.skip(i + 1));
    } else {
        assert(s.skip(i) =~= Seq::<char>::empty());
    }
}

/// Stripping never lengthens a line.
pub proof fn lemma_strip_shorter(s: Seq<char>)
    ensures
        stripped(s).len() <= s.len(),
{
    lemma_strip_shorter_from(s, 0);
}

proof fn lemma_strip_shorter_from(s: Seq<char>, i: int)
    requires
        0 <= i,
    ensures
        stripped_from(s, i).len() <= if i <= s.len() { s.len() - i } else { 0 },
    decreases s.len() - i,
{
    if i < s.len() {
        if s[i] == esc() && i + 1 < s.len() && s[i + 1] == '[' {
            lemma_csi_end_bounds(s, i + 2);
            lemma_strip_shorter_from(s, csi_end(s, i + 2));
        } else {
            lemma_strip_shorter_from(s, i + 1);
        }
    }
}

} // verus!
