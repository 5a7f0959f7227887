//! The shell: it reads one command line at a time and turns it into the
//! programs to run, with `<` and `>` redirections and `|` pipelines (each
//! stage writes to a file under /tmp that the next one reads, and the files
//! are removed afterwards).

use crate::text::{
    chars_eq_str, chars_of, copy_str, decimal, decimal_u64, push_bytes, seq_views, split_char, split_char_exec, string_of,
    trim, trim_exec, words, words_exec,
};
use vstd::prelude::*;
use vstd::utf8::encode_utf8;

verus! {

/// One program to run: its NUL-terminated arguments (program path first),
/// its working folder and the files for its input and output. When the
/// host cannot run it, `on_failure` is the line to report.
#[derive(Debug)]
pub struct ShellCall {
    pub args: Vec<u8>,
    pub cwd: String,
    pub stdin: Option<String>,
    pub stdout: Option<String>,
    pub on_failure: Option<String>,
}

pub struct CallView {
    pub args: Seq<u8>,
    pub cwd: Seq<char>,
    pub stdin: Option<Seq<char>>,
    pub stdout: Option<Seq<char>>,
    pub on_failure: Option<Seq<char>>,
}

pub open spec fn opt_chars(o: Option<String>) -> Option<Seq<char>> {
    match o {
        Some(s) => Some(s@),
        None => None,
    }
}

pub open spec fn call_view(c: ShellCall) -> CallView {
    CallView { args: c.args@, cwd: c.cwd@, stdin: opt_chars(c.stdin), stdout: opt_chars(c.stdout), on_failure: opt_chars(c.on_failure) }
}

pub open spec fn call_views(cs: Seq<ShellCall>) -> Seq<CallView> {
    cs.map_values(|c: ShellCall| call_view(c))
}

/// `c` with the redirection and pipe signs set apart by spaces.
pub open spec fn spaced_char(c: char) -> Seq<char> {
    if c == '>' || c == '<' || c == '|' {
        seq![' ', c, ' ']
    } else {
        seq![c]
    }
}

pub open spec fn spaced(s: Seq<char>) -> Seq<char>
    decreases s.len(),
{
    if s.len() == 0 {
        Seq::empty()
    } else {
        spaced(s.drop_last()) + spaced_char(s.last())
    }
}

/// The words left after the redirections, and the input and output files:
/// `> f` and `< f` set the output and input (a later one wins); a sign
/// with no word after it stays a word.
pub open spec fn redirect(ps: Seq<Seq<char>>, stdin: Option<Seq<char>>, stdout: Option<Seq<char>>) -> (Seq<Seq<char>>, Option<Seq<char>>, Option<Seq<char>>)
    decreases ps.len(),
{
    if ps.len() == 0 {
        (Seq::empty(), stdin, stdout)
    } else if ps[0] == ">"@ && ps.len() >= 2 {
        redirect(ps.skip(2), stdin, Some(ps[1]))
    } else if ps[0] == "<"@ && ps.len() >= 2 {
        redirect(ps.skip(2), Some(ps[1]), stdout)
    } else {
        let (f, i, o) = redirect(ps.skip(1), stdin, stdout);
        (seq![ps[0]] + f, i, o)
    }
}

/// The words, each encoded in UTF-8 and followed by a NUL byte.
pub open spec fn argv_bytes(ws: Seq<Seq<char>>) -> Seq<u8>
    decreases ws.len(),
{
    if ws.len() == 0 {
        Seq::empty()
    } else {
        argv_bytes(ws.drop_last()) + encode_utf8(ws.last()).push(0u8)
    }
}

/// The program that a command runs, if it names one: the first word left
/// after the redirections, looked up under /bin.
pub open spec fn command_call(cmd: Seq<char>, cwd: Seq<char>, stdin: Option<Seq<char>>, stdout: Option<Seq<char>>) -> Option<CallView> {
    let parts = words(spaced(cmd));
    let (f, i, o) = redirect(parts, stdin, stdout);
    if parts.len() == 0 || f.len() == 0 {
        None
    } else {
        Some(CallView {
            args: argv_bytes(seq!["/bin/"@ + f[0]] + f.skip(1)),
            cwd,
            stdin: i,
            stdout: o,
            on_failure: Some(f[0] + ": command not found"@),
        })
    }
}

pub open spec fn opt_seq(c: Option<CallView>) -> Seq<CallView> {
    match c {
        Some(v) => seq![v],
        None => Seq::empty(),
    }
}

/// The file between stages `i` and `i + 1` of a pipeline.
pub open spec fn pipe_path(i: nat) -> Seq<char> {
    "/tmp/pipe_"@ + decimal(i)
}

/// The programs of the first `k` stages of a pipeline.
pub open spec fn stage_calls(parts: Seq<Seq<char>>, k: int, cwd: Seq<char>) -> Seq<CallView>
    decreases k,
{
    if k <= 0 {
        Seq::empty()
    } else {
        let i = k - 1;
        stage_calls(parts, i, cwd) + opt_seq(command_call(
            parts[i],
            cwd,
            if i > 0 { Some(pipe_path((i - 1) as nat)) } else { None },
            if i < parts.len() - 1 { Some(pipe_path(i as nat)) } else { None },
        ))
    }
}

/// The removal of the first `k` pipe files.
pub open spec fn cleanup_calls(k: int, cwd: Seq<char>) -> Seq<CallView>
    decreases k,
{
    if k <= 0 {
        Seq::empty()
    } else {
        cleanup_calls(k - 1, cwd) + seq![CallView {
            args: encode_utf8("/bin/rm"@).push(0u8) + encode_utf8(pipe_path((k - 1) as nat)).push(0u8),
            cwd,
            stdin: None,
            stdout: None,
            on_failure: None,
        }]
    }
}

/// The programs that a line runs, in order: none for a blank line or a
/// comment; for a pipeline, each stage and then the removal of the pipe
/// files.
pub open spec fn line_calls(line: Seq<char>, cwd: Seq<char>) -> Seq<CallView> {
    let t = trim(line);
    let parts = split_char(t, '|');
    if t.len() == 0 || t[0] == '#' {
        Seq::empty()
    } else if parts.len() > 1 {
        stage_calls(parts, parts.len() as int, cwd) + cleanup_calls(parts.len() - 1, cwd)
    } else {
        opt_seq(command_call(t, cwd, None, None))
    }
}

fn spaced_exec(s: &[char]) -> (r: Vec<char>)
    ensures
        r@ == spaced(s@),
{
    let mut r: Vec<char> = Vec::new();
    let mut i: usize = 0;
    while i < s.len()
        invariant
            i <= s@.len(),
            r@ == spaced(s@.take(i as int)),
        decreases s@.len() - i,
    {
        let c = s[i];
        let ghost before = r@;
        if c == '>' || c == '<' || c == '|' {
            r.push(' ');
            r.push(c);
            r.push(' ');
        } else {
            r.push(c);
        }
        proof {
            assert(s@.take(i + 1).drop_last() =~= s@.take(i as int));
            assert(s@.take(i + 1).last() == c);
            assert(r@ =~= spaced(s@.take(i + 1)));
        }
        i = i + 1;
    }
    assert(s@.take(s@.len() as int) =~= s@);
    r
}

proof fn lemma_skip_skip(ps: Seq<Seq<char>>, i: int, k: int)
    requires
        0 <= i,
        0 <= k,
        i + k <= ps.len(),
    ensures
        ps.skip(i).skip(k) == ps.skip(i + k),
{
    assert(ps.skip(i).skip(k) =~= ps.skip(i + k));
}

/// The program that a command runs (see `command_call`), with the input
/// and output files of its pipeline stage.
pub fn execute_command(cmd_str: &[char], cwd: &str, stdin: Option<String>, stdout: Option<String>) -> (r: Option<ShellCall>)
    ensures
        match r {
            Some(c) => command_call(cmd_str@, cwd@, opt_chars(stdin), opt_chars(stdout)) == Some(call_view(c)),
            None => command_call(cmd_str@, cwd@, opt_chars(stdin), opt_chars(stdout)) is None,
        },
{
    let sp = spaced_exec(cmd_str);
    let parts = words_exec(sp.as_slice());
    let ghost ps = parts@.map_values(|w: Vec<char>| w@);
    if parts.len() == 0 {
        return None;
    }
    let mut cin = stdin;
    let mut cout = stdout;
    let mut filtered: Vec<Vec<char>> = Vec::new();
    let mut i: usize = 0;
    assert(ps.skip(0) =~= ps);
    assert(seq_views(filtered@) =~= Seq::<Seq<char>>::empty());
    assert(redirect(ps, opt_chars(stdin), opt_chars(stdout)).0 =~= seq_views(filtered@) + redirect(ps, opt_chars(stdin), opt_chars(stdout)).0);
    while i < parts.len()
        invariant
            i <= parts@.len(),
            ps == parts@.map_values(|w: Vec<char>| w@),
            ({
                let (f, a, b) = redirect(ps.skip(i as int), opt_chars(cin), opt_chars(cout));
                redirect(ps, opt_chars(stdin), opt_chars(stdout)) == (seq_views(filtered@) + f, a, b)
            }),
        decreases parts@.len() - i,
    {
        let ghost rest = ps.skip(i as int);
        assert(rest[0] == parts@[i as int]@);
        if chars_eq_str(parts[i].as_slice(), ">") && i + 1 < parts.len() {
            assert(rest[1] == parts@[i + 1]@);
            proof { lemma_skip_skip(ps, i as int, 2); }
            cout = Some(string_of(parts[i + 1].as_slice()));
            i = i + 2;
        } else if chars_eq_str(parts[i].as_slice(), "<") && i + 1 < parts.len() {
            assert(rest[1] == parts@[i + 1]@);
            proof { lemma_skip_skip(ps, i as int, 2); }
            cin = Some(string_of(parts[i + 1].as_slice()));
            i = i + 2;
        } else {
            let ghost before = seq_views(filtered@);
            proof { lemma_skip_skip(ps, i as int, 1); }
            filtered.push(crate::text::clone_chars(&parts[i]));
            assert(seq_views(filtered@) =~= before.push(rest[0]));
            proof {
                let (f, a, b) = redirect(rest.skip(1), opt_chars(cin), opt_chars(cout));
                assert(before + (seq![rest[0]] + f) =~= seq_views(filtered@) + f);
            }
            i = i + 1;
        }
    }
    assert(ps.skip(parts@.len() as int) =~= Seq::<Seq<char>>::empty());
    assert(seq_views(filtered@) + Seq::<Seq<char>>::empty() =~= seq_views(filtered@));
    if filtered.len() == 0 {
        return None;
    }
    let ghost fv = seq_views(filtered@);
    let mut args: Vec<u8> = Vec::new();
    assert(args@ =~= Seq::<u8>::empty());
    let mut bin = copy_str("/bin/");
    let program = string_of(filtered[0].as_slice());
    bin.append(program.as_str());
    push_bytes(&mut args, bin.as_str());
    args.push(0u8);
    let ghost ws = seq!["/bin/"@ + fv[0]] + fv.skip(1);
    assert(args@ =~= argv_bytes(ws.take(1))) by {
        assert(ws.take(1).drop_last() =~= Seq::<Seq<char>>::empty());
        assert(ws.take(1).last() == ws[0]);
        assert(program@ == fv[0]);
        assert(ws[0] == bin@);
        assert(argv_bytes(Seq::<Seq<char>>::empty()) =~= Seq::<u8>::empty());
        assert(argv_bytes(ws.take(1)) =~= encode_utf8(bin@).push(0u8));
    }
    let mut k: usize = 1;
    while k < filtered.len()
        invariant
            1 <= k <= filtered@.len(),
            fv == seq_views(filtered@),
            ws == seq!["/bin/"@ + fv[0]] + fv.skip(1),
            args@ == argv_bytes(ws.take(k as int)),
        decreases filtered@.len() - k,
    {
        let a = string_of(filtered[k].as_slice());
        push_bytes(&mut args, a.as_str());
        args.push(0u8);
        proof {
            assert(ws.take(k + 1).drop_last() =~= ws.take(k as int));
            assert(ws.take(k + 1).last() == fv[k as int]);
        }
        k = k + 1;
    }
    assert(ws.take(filtered@.len() as int) =~= ws);
    let mut msg = program.clone();
    msg.append(": command not found");
    Some(ShellCall { args, cwd: copy_str(cwd), stdin: cin, stdout: cout, on_failure: Some(msg) })
}

fn pipe_path_exec(i: usize) -> (r: String)
    ensures
        r@ == pipe_path(i as nat),
{
    let mut p = copy_str("/tmp/pipe_");
    let d = decimal_u64(i as u64);
    p.append(d.as_str());
    p
}

/// The programs that a line runs (see `line_calls`).
pub fn process_line(line: &str, cwd: &str) -> (r: Vec<ShellCall>)
    ensures
        call_views(r@) == line_calls(line@, cwd@),
{
    let chars = chars_of(line);
    let t = trim_exec(chars.as_slice());
    let mut out: Vec<ShellCall> = Vec::new();
    if t.len() == 0 || t[0] == '#' {
        assert(call_views(out@) =~= Seq::<CallView>::empty());
        return out;
    }
    let parts = split_char_exec(t.as_slice(), '|');
    let ghost pv = seq_views(parts@);
    if parts.len() > 1 {
        let n = parts.len();
        let mut i: usize = 0;
        assert(call_views(out@) =~= Seq::<CallView>::empty());
        while i < n
            invariant
                n == parts@.len(),
                n > 1,
                i <= n,
                pv == seq_views(parts@),
                pv == split_char(t@, '|'),
                call_views(out@) == stage_calls(pv, i as int, cwd@),
            decreases n - i,
        {
            let p_in = if i > 0 { Some(pipe_path_exec(i - 1)) } else { None };
            let p_out = if i < n - 1 { Some(pipe_path_exec(i)) } else { None };
            let ghost before = call_views(out@);
            let c = execute_command(parts[i].as_slice(), cwd, p_in, p_out);
            assert(pv[i as int] == parts@[i as int]@);
            match c {
                Some(c) => {
                    out.push(c);
                    assert(call_views(out@) =~= before.push(call_view(c)));
                },
                None => {
                    assert(call_views(out@) =~= before);
                },
            }
            proof {
                assert(call_views(out@) =~= stage_calls(pv, i + 1, cwd@));
            }
            i = i + 1;
        }
        let ghost stages = call_views(out@);
        let mut j: usize = 0;
        while j < n - 1
            invariant
                n == parts@.len(),
                n > 1,
                j <= n - 1,
                call_views(out@) == stages + cleanup_calls(j as int, cwd@),
            decreases n - 1 - j,
        {
            let mut args: Vec<u8> = Vec::new();
            push_bytes(&mut args, "/bin/rm");
            args.push(0u8);
            let pf = pipe_path_exec(j);
            push_bytes(&mut args, pf.as_str());
            args.push(0u8);
            let ghost before = call_views(out@);
            let c = ShellCall { args, cwd: copy_str(cwd), stdin: None, stdout: None, on_failure: None };
            out.push(c);
            proof {
                assert(args@ =~= encode_utf8("/bin/rm"@).push(0u8) + encode_utf8(pipe_path(j as nat)).push(0u8));
                assert(call_views(out@) =~= before.push(call_view(c)));
                assert(call_views(out@) =~= stages + cleanup_calls(j + 1, cwd@));
            }
            j = j + 1;
        }
        out
    } else {
        let ghost tv = t@;
        match execute_command(t.as_slice(), cwd, None, None) {
            Some(c) => {
                out.push(c);
                assert(call_views(out@) =~= seq![call_view(c)]);
            },
            None => {
                assert(call_views(out@) =~= Seq::<CallView>::empty());
            },
        }
        out
    }
}


/// A pipeline stage with no redirection that names a program.
pub open spec fn plain_stage(p: Seq<char>) -> bool {
    !p.contains('<') && !p.contains('>') && words(p).len() > 0
}

proof fn lemma_spaced_plain(s: Seq<char>)
    requires
        !s.contains('<'),
        !s.contains('>'),
        !s.contains('|'),
    ensures
        spaced(s) == s,
    decreases s.len(),
{
    if s.len() > 0 {
        let d = s.drop_last();
        assert(!d.contains('<') && !d.contains('>') && !d.contains('|')) by {
            if d.contains('<') || d.contains('>') || d.contains('|') {
                let j = choose|j: int| 0 <= j < d.len() && (d[j] == '<' || d[j] == '>' || d[j] == '|');
                assert(s[j] == d[j]);
            }
        }
        lemma_spaced_plain(d);
        assert(s[s.len() - 1] == s.last());
        assert(spaced_char(s.last()) =~= seq![s.last()]);
        assert(d.push(s.last()) =~= s);
    }
}

proof fn lemma_split_pieces_lack(s: Seq<char>, c: char)
    ensures
        forall|k: int| 0 <= k < split_char(s, c).len() ==> !(#[trigger] split_char(s, c)[k]).contains(c),
    decreases s.len(),
{
    if s.len() > 0 {
        let d = s.drop_last();
        lemma_split_pieces_lack(d, c);
        crate::text::lemma_split_char_nonempty(d, c);
        let rest = split_char(d, c);
        if s.last() != c {
            let l = rest.last();
            assert(!l.contains(c)) by {
                assert(l == rest[rest.len() - 1]);
            }
            assert(!l.push(s.last()).contains(c)) by {
                if l.push(s.last()).contains(c) {
                    let j = choose|j: int| 0 <= j < l.push(s.last()).len() && l.push(s.last())[j] == c;
                    if j < l.len() {
                        assert(l[j] == c);
                    }
                }
            }
        } else {
            assert(!Seq::<char>::empty().contains(c));
        }
    }
}

/// Every character of a word of `s` occurs in `s`.
proof fn lemma_word_chars(s: Seq<char>, c: char)
    requires
        !s.contains(c),
    ensures
        forall|k: int| 0 <= k < words(s).len() ==> !(#[trigger] words(s)[k]).contains(c),
    decreases s.len(),
{
    if s.len() > 0 {
        if crate::text::is_ws(s[0]) {
            let d = s.drop_first();
            assert(!d.contains(c)) by {
                if d.contains(c) {
                    let j = choose|j: int| 0 <= j < d.len() && d[j] == c;
                    assert(s[j + 1] == c);
                }
            }
            lemma_word_chars(d, c);
            assert(words(s) == words(d));
        } else {
            let w = crate::text::first_word(s);
            crate::text::lemma_first_word_len(s);
            assert(!w.contains(c)) by {
                if w.contains(c) {
                    let j = choose|j: int| 0 <= j < w.len() && w[j] == c;
                    assert(s[j] == w[j]);
                }
            }
            if 1 <= w.len() <= s.len() {
                let r = s.skip(w.len() as int);
                assert(!r.contains(c)) by {
                    if r.contains(c) {
                        let j = choose|j: int| 0 <= j < r.len() && r[j] == c;
                        assert(s[j + w.len()] == c);
                    }
                }
                lemma_word_chars(r, c);
                assert(words(s) == seq![w] + words(r));
                assert forall|k: int| 0 <= k < words(s).len() implies !(#[trigger] words(s)[k]).contains(c) by {
                    if k == 0 {
                        assert(words(s)[0] == w);
                    } else {
                        assert(words(s)[k] == words(r)[k - 1]);
                    }
                }
            }
        }
    }
}

proof fn lemma_redirect_plain(ps: Seq<Seq<char>>, i: Option<Seq<char>>, o: Option<Seq<char>>)
    requires
        forall|k: int| 0 <= k < ps.len() ==> !(#[trigger] ps[k]).contains('>') && !ps[k].contains('<'),
    ensures
        redirect(ps, i, o) == (ps, i, o),
    decreases ps.len(),
{
    reveal_strlit(">");
    reveal_strlit("<");
    if ps.len() > 0 {
        assert(ps[0] != ">"@) by {
            if ps[0] == ">"@ {
                assert(ps[0][0] == '>');
            }
        }
        assert(ps[0] != "<"@) by {
            if ps[0] == "<"@ {
                assert(ps[0][0] == '<');
            }
        }
        let r = ps.skip(1);
        assert forall|k: int| 0 <= k < r.len() implies !(#[trigger] r[k]).contains('>') && !r[k].contains('<') by {
            assert(r[k] == ps[k + 1]);
        }
        lemma_redirect_plain(r, i, o);
        assert(seq![ps[0]] + r =~= ps);
    }
}

/// The program of a plain stage, with the files it is given.
proof fn lemma_plain_call(p: Seq<char>, cwd: Seq<char>, i: Option<Seq<char>>, o: Option<Seq<char>>)
    requires
        plain_stage(p),
        !p.contains('|'),
    ensures
        command_call(p, cwd, i, o) matches Some(c) && c.stdin == i && c.stdout == o,
{
    lemma_spaced_plain(p);
    lemma_word_chars(p, '>');
    lemma_word_chars(p, '<');
    let ps = words(p);
    assert forall|k: int| 0 <= k < ps.len() implies !(#[trigger] ps[k]).contains('>') && !ps[k].contains('<') by {}
    lemma_redirect_plain(ps, i, o);
}

proof fn lemma_stages(parts: Seq<Seq<char>>, k: int, cwd: Seq<char>)
    requires
        0 <= k <= parts.len(),
        forall|j: int| 0 <= j < parts.len() ==> plain_stage(#[trigger] parts[j]) && !parts[j].contains('|'),
    ensures
        stage_calls(parts, k, cwd).len() == k,
        forall|j: int| 0 <= j < k ==> {
            &&& (#[trigger] stage_calls(parts, k, cwd)[j]).stdin == (if j > 0 { Some(pipe_path((j - 1) as nat)) } else { None })
            &&& stage_calls(parts, k, cwd)[j].stdout == (if j < parts.len() - 1 { Some(pipe_path(j as nat)) } else { None })
        },
    decreases k,
{
    if k > 0 {
        lemma_stages(parts, k - 1, cwd);
        let i = k - 1;
        lemma_plain_call(
            parts[i],
            cwd,
            if i > 0 { Some(pipe_path((i - 1) as nat)) } else { None },
            if i < parts.len() - 1 { Some(pipe_path(i as nat)) } else { None },
        );
        let prev = stage_calls(parts, k - 1, cwd);
        assert forall|j: int| 0 <= j < k implies {
            &&& (#[trigger] stage_calls(parts, k, cwd)[j]).stdin == (if j > 0 { Some(pipe_path((j - 1) as nat)) } else { None })
            &&& stage_calls(parts, k, cwd)[j].stdout == (if j < parts.len() - 1 { Some(pipe_path(j as nat)) } else { None })
        } by {
            if j < k - 1 {
                assert(stage_calls(parts, k, cwd)[j] == prev[j]);
            }
        }
    }
}

proof fn lemma_cleanup(k: int, cwd: Seq<char>)
    requires
        0 <= k,
    ensures
        cleanup_calls(k, cwd).len() == k,
        forall|j: int| 0 <= j < k ==> (#[trigger] cleanup_calls(k, cwd)[j]).args
            == encode_utf8("/bin/rm"@).push(0u8) + encode_utf8(pipe_path(j as nat)).push(0u8),
    decreases k,
{
    if k > 0 {
        lemma_cleanup(k - 1, cwd);
        assert forall|j: int| 0 <= j < k implies (#[trigger] cleanup_calls(k, cwd)[j]).args
            == encode_utf8("/bin/rm"@).push(0u8) + encode_utf8(pipe_path(j as nat)).push(0u8) by {
            if j < k - 1 {
                assert(cleanup_calls(k, cwd)[j] == cleanup_calls(k - 1, cwd)[j]);
            }
        }
    }
}

/// In a pipeline whose stages each name a program and redirect nothing,
/// stage `i` writes the file that stage `i + 1` reads, and after every
/// stage has run that file is removed.
pub proof fn law_pipeline_connects(line: Seq<char>, cwd: Seq<char>, i: int)
    requires
        trim(line).len() > 0,
        trim(line)[0] != '#',
        split_char(trim(line), '|').len() > 1,
        forall|k: int| 0 <= k < split_char(trim(line), '|').len() ==> plain_stage(#[trigger] split_char(trim(line), '|')[k]),
        0 <= i < split_char(trim(line), '|').len() - 1,
    ensures
        ({
            let n = split_char(trim(line), '|').len() as int;
            let calls = line_calls(line, cwd);
            &&& calls.len() == 2 * n - 1
            &&& calls[i].stdout == Some(pipe_path(i as nat))
            &&& calls[i + 1].stdin == Some(pipe_path(i as nat))
            &&& calls[n + i].args == encode_utf8("/bin/rm"@).push(0u8) + encode_utf8(pipe_path(i as nat)).push(0u8)
        }),
{
    let parts = split_char(trim(line), '|');
    let n = parts.len() as int;
    lemma_split_pieces_lack(trim(line), '|');
    lemma_stages(parts, n, cwd);
    lemma_cleanup(n - 1, cwd);
    let st = stage_calls(parts, n, cwd);
    let cl = cleanup_calls(n - 1, cwd);
    assert(line_calls(line, cwd) == st + cl);
    assert((st + cl)[i] == st[i]);
    assert((st + cl)[i + 1] == st[i + 1]);
    assert((st + cl)[n + i] == cl[i]);
}

} // verus!
