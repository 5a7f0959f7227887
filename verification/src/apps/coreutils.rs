//! The core utilities binary: one program that acts as the utility it is
//! invoked as, by the last part of its path. `grep` is its own; the others
//! are the uutils programs.

use crate::text::{chars_of, copy_str, seq_views, split_char, split_char_exec, string_of, text_lines, text_lines_exec};
use vstd::prelude::*;

verus! {

/// The utilities the binary can act as.
#[derive(Debug, Clone, Copy, PartialEq, Eq, Structural)]
pub enum Applet {
    Ls,
    Cat,
    Echo,
    Mkdir,
    Rm,
    Touch,
    Pwd,
    Wc,
    Sort,
    Head,
    Tail,
    Mv,
    Grep,
    Unknown,
}

/// The name a program was invoked by: the last part of its path.
pub open spec fn program_name(path: Seq<char>) -> Seq<char> {
    split_char(path, '/').last()
}

/// The utility a program name stands for.
pub open spec fn applet_for(name: Seq<char>) -> Applet {
    if name == "ls"@ {
        Applet::Ls
    } else if name == "cat"@ {
        Applet::Cat
    } else if name == "echo"@ {
        Applet::Echo
    } else if name == "mkdir"@ {
        Applet::Mkdir
    } else if name == "rm"@ {
        Applet::Rm
    } else if name == "touch"@ {
        Applet::Touch
    } else if name == "pwd"@ {
        Applet::Pwd
    } else if name == "wc"@ {
        Applet::Wc
    } else if name == "sort"@ {
        Applet::Sort
    } else if name == "head"@ {
        Applet::Head
    } else if name == "tail"@ {
        Applet::Tail
    } else if name == "mv"@ {
        Applet::Mv
    } else if name == "grep"@ {
        Applet::Grep
    } else {
        Applet::Unknown
    }
}

/// The utility that a program path runs, and the name it was invoked by.
pub fn applet_of(program_path: &str) -> (r: (Applet, String))
    ensures
        r.1@ == program_name(program_path@),
        r.0 == applet_for(program_name(program_path@)),
{
    let parts = split_char_exec(chars_of(program_path).as_slice(), '/');
    let last = &parts[parts.len() - 1];
    let name = string_of(last.as_slice());
    let n = name.as_str();
    let a = if crate::text::str_eq(n, "ls") {
        Applet::Ls
    } else if crate::text::str_eq(n, "cat") {
        Applet::Cat
    } else if crate::text::str_eq(n, "echo") {
        Applet::Echo
    } else if crate::text::str_eq(n, "mkdir") {
        Applet::Mkdir
    } else if crate::text::str_eq(n, "rm") {
        Applet::Rm
    } else if crate::text::str_eq(n, "touch") {
        Applet::Touch
    } else if crate::text::str_eq(n, "pwd") {
        Applet::Pwd
    } else if crate::text::str_eq(n, "wc") {
        Applet::Wc
    } else if crate::text::str_eq(n, "sort") {
        Applet::Sort
    } else if crate::text::str_eq(n, "head") {
        Applet::Head
    } else if crate::text::str_eq(n, "tail") {
        Applet::Tail
    } else if crate::text::str_eq(n, "mv") {
        Applet::Mv
    } else if crate::text::str_eq(n, "grep") {
        Applet::Grep
    } else {
        Applet::Unknown
    };
    (a, name)
}

/// What the binary reports when invoked by a name it does not know.
pub fn unknown_applet_message(program: &str) -> (r: String)
    ensures
        r@ == program@ + ": command not found in coreutils multicall binary"@,
{
    let mut m = copy_str(program);
    m.append(": command not found in coreutils multicall binary");
    m
}

/// `p` occurs in `s` as a run of consecutive characters.
pub open spec fn has_sub(s: Seq<char>, p: Seq<char>) -> bool {
    exists|i: int| 0 <= i && i + p.len() <= s.len() && #[trigger] s.subrange(i, i + p.len()) == p
}

/// Whether `p` occurs in `s` at position `i`.
fn matches_at(s: &[char], p: &[char], i: usize) -> (r: bool)
    requires
        i + p.len() <= s.len(),
    ensures
        r == (s@.subrange(i as int, i + p@.len()) == p@),
{
    let mut j: usize = 0;
    while j < p.len()
        invariant
            i + p.len() <= s.len(),
            j <= p@.len(),
            forall|m: int| 0 <= m < j ==> s@[i + m] == p@[m],
        decreases p@.len() - j,
    {
        if s[i + j] != p[j] {
            assert(s@.subrange(i as int, i + p@.len())[j as int] != p@[j as int]);
            return false;
        }
        j = j + 1;
    }
    assert(s@.subrange(i as int, i + p@.len()) =~= p@);
    true
}

/// Whether `p` occurs in `s`.
pub fn contains_exec(s: &[char], p: &[char]) -> (r: bool)
    ensures
        r == has_sub(s@, p@),
{
    if p.len() > s.len() {
        return false;
    }
    let last = s.len() - p.len();
    let mut i: usize = 0;
    while i <= last
        invariant
            last == s@.len() - p@.len(),
            p@.len() <= s@.len(),
            forall|k: int| 0 <= k < i ==> #[trigger] s@.subrange(k, k + p@.len()) != p@,
        ensures
            forall|k: int| 0 <= k <= last ==> #[trigger] s@.subrange(k, k + p@.len()) != p@,
        decreases last + 1 - i,
    {
        if matches_at(s, p, i) {
            return true;
        }
        if i == last {
            break;
        }
        i = i + 1;
    }
    false
}

/// What `grep` is asked: nothing to search without both a pattern and a
/// file.
#[derive(Debug)]
pub enum GrepStart {
    Usage { message: String },
    Search { pattern: String, file: String },
}

/// `grep`'s arguments: the pattern and the file follow the program name;
/// a missing one counts as empty.
pub fn grep_start(args: &Vec<String>) -> (r: GrepStart)
    ensures
        ({
            let pattern = if args@.len() > 1 { args@[1]@ } else { Seq::empty() };
            let file = if args@.len() > 2 { args@[2]@ } else { Seq::empty() };
            if pattern.len() == 0 || file.len() == 0 {
                r matches GrepStart::Usage { message } && message@ == "Usage: grep <pattern> <file>"@
            } else {
                r matches GrepStart::Search { pattern: p, file: f } && p@ == pattern && f@ == file
            }
        }),
{
    let pattern = if args.len() > 1 { args[1].clone() } else { String::new() };
    let file = if args.len() > 2 { args[2].clone() } else { String::new() };
    let pl = chars_of(pattern.as_str()).len();
    let fl = chars_of(file.as_str()).len();
    if pl == 0 || fl == 0 {
        GrepStart::Usage { message: copy_str("Usage: grep <pattern> <file>") }
    } else {
        GrepStart::Search { pattern, file }
    }
}

/// What `grep` reports when the file cannot be read.
pub fn grep_missing_message(file: &str) -> (r: String)
    ensures
        r@ == "grep: "@ + file@ + ": No such file or directory"@,
{
    let mut m = copy_str("grep: ");
    m.append(file);
    m.append(": No such file or directory");
    m
}

/// The lines of `ls` that contain `p`, in order.
pub open spec fn matching(ls: Seq<Seq<char>>, p: Seq<char>) -> Seq<Seq<char>>
    decreases ls.len(),
{
    if ls.len() == 0 {
        Seq::empty()
    } else {
        matching(ls.drop_last(), p) + if has_sub(ls.last(), p) { seq![ls.last()] } else { Seq::empty() }
    }
}

/// The lines of the file's contents that contain the pattern, in order.
pub fn grep_lines(contents: &str, pattern: &str) -> (r: Vec<String>)
    ensures
        r@.map_values(|l: String| l@) == matching(text_lines(contents@), pattern@),
{
    let lines = text_lines_exec(chars_of(contents).as_slice());
    let ghost ls = seq_views(lines@);
    let p = chars_of(pattern);
    let mut out: Vec<String> = Vec::new();
    let mut i: usize = 0;
    while i < lines.len()
        invariant
            i <= lines@.len(),
            ls == seq_views(lines@),
            p@ == pattern@,
            out@.map_values(|l: String| l@) == matching(ls.take(i as int), p@),
        decreases lines@.len() - i,
    {
        let ghost before = out@.map_values(|l: String| l@);
        proof {
            assert(ls.take(i + 1).drop_last() =~= ls.take(i as int));
            assert(ls.take(i + 1).last() == lines@[i as int]@);
        }
        if contains_exec(lines[i].as_slice(), p.as_slice()) {
            let l = string_of(lines[i].as_slice());
            out.push(l);
            assert(out@.map_values(|l: String| l@) =~= before.push(lines@[i as int]@));
        } else {
            assert(out@.map_values(|l: String| l@) =~= before);
        }
        i = i + 1;
    }
    assert(ls.take(lines@.len() as int) =~= ls);
    out
}

} // verus!
