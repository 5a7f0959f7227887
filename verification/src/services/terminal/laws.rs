//! Properties of the terminal that span more than one message.

use super::model::{prompt_for, term_message, TermModel};
use crate::host::HostView;
use crate::ipc::{MessagePayload, ProcessId};
use crate::paths::{cd_target, path_of, resolve, split_slash, lemma_split_nonempty};
use vstd::prelude::*;

verus! {

/// One component of a normalised path: not empty, no `/`, neither `.` nor
/// `..`.
pub open spec fn normal_part(p: Seq<char>) -> bool {
    &&& p.len() > 0
    &&& forall|j: int| 0 <= j < p.len() ==> p[j] != '/'
    &&& p != seq!['.']
    &&& p != seq!['.', '.']
}

/// A normalised absolute path: `/`, or `/` followed by normalised
/// components separated by single slashes.
pub open spec fn is_normal_path(p: Seq<char>) -> bool {
    exists|parts: Seq<Seq<char>>| (forall|i: int| 0 <= i < parts.len() ==> normal_part(#[trigger] parts[i])) && p == path_of(parts)
}

/// The working directory is normalised and the prompt shows it.
pub open spec fn cwd_ok(t: TermModel) -> bool {
    is_normal_path(t.cwd) && t.prompt == prompt_for(t.cwd)
}

proof fn lemma_split_no_slash(s: Seq<char>)
    ensures
        forall|i: int, j: int| 0 <= i < split_slash(s).len() && 0 <= j < split_slash(s)[i].len() ==> split_slash(s)[i][j] != '/',
    decreases s.len(),
{
    if s.len() > 0 {
        lemma_split_no_slash(s.drop_last());
        lemma_split_nonempty(s.drop_last());
        let rest = split_slash(s.drop_last());
        if s.last() != '/' {
            let u = rest.update(rest.len() - 1, rest.last().push(s.last()));
            assert forall|i: int, j: int| 0 <= i < u.len() && 0 <= j < u[i].len() implies u[i][j] != '/' by {
                if i == rest.len() - 1 && j < rest.last().len() {
                    assert(u[i][j] == rest[i][j]);
                }
            }
        }
    }
}

proof fn lemma_resolve_normal(parts: Seq<Seq<char>>)
    requires
        forall|i: int, j: int| 0 <= i < parts.len() && 0 <= j < parts[i].len() ==> parts[i][j] != '/',
    ensures
        forall|i: int| 0 <= i < resolve(parts).len() ==> normal_part(#[trigger] resolve(parts)[i]),
    decreases parts.len(),
{
    if parts.len() > 0 {
        let d = parts.drop_last();
        assert forall|i: int, j: int| 0 <= i < d.len() && 0 <= j < d[i].len() implies d[i][j] != '/' by {
            assert(d[i] == parts[i]);
        }
        lemma_resolve_normal(d);
        let acc = resolve(d);
        let p = parts.last();
        assert forall|j: int| 0 <= j < p.len() implies p[j] != '/' by {
            assert(p == parts[parts.len() - 1]);
        }
        if !(p.len() == 0 || p == seq!['.']) && p == seq!['.', '.'] && acc.len() > 0 {
            assert forall|i: int| 0 <= i < acc.drop_last().len() implies normal_part(#[trigger] acc.drop_last()[i]) by {
                assert(acc.drop_last()[i] == acc[i]);
            }
        }
    }
}

/// Every place `cd` can lead to is a normalised path.
pub proof fn law_cd_target_normal(cwd: Seq<char>, target: Option<Seq<char>>)
    ensures
        is_normal_path(cd_target(cwd, target)),
        target is None ==> cd_target(cwd, target) == seq!['/'],
        cd_target(seq!['/'], Some(seq!['.', '.'])) == seq!['/'],
{
    let t = match target {
        Some(t) => t,
        None => seq!['/'],
    };
    let abs = crate::paths::absolute(cwd, t);
    lemma_split_no_slash(abs);
    lemma_resolve_normal(split_slash(abs));
    let parts = resolve(split_slash(abs));
    assert((forall|i: int| 0 <= i < parts.len() ==> normal_part(#[trigger] parts[i])) && cd_target(cwd, target) == path_of(parts));
    if target is None {
        assert(abs == seq!['/']);
        assert(seq!['/'].drop_last() =~= Seq::<char>::empty());
        assert(split_slash(Seq::<char>::empty()) =~= seq![Seq::<char>::empty()]);
        assert(seq![Seq::<char>::empty()].push(Seq::<char>::empty()) =~= seq![Seq::<char>::empty(), Seq::<char>::empty()]);
        assert(split_slash(abs) =~= seq![Seq::<char>::empty(), Seq::<char>::empty()]);
        let sp = split_slash(abs);
        assert(sp.drop_last() =~= seq![Seq::<char>::empty()]);
        assert(sp.drop_last().drop_last() =~= Seq::<Seq<char>>::empty());
        assert(resolve(Seq::<Seq<char>>::empty()) == Seq::<Seq<char>>::empty());
        assert(sp.drop_last().last().len() == 0);
        assert(resolve(sp.drop_last()) =~= Seq::<Seq<char>>::empty());
        assert(sp.last().len() == 0);
        assert(resolve(sp) =~= Seq::<Seq<char>>::empty());
    }
    let up = seq!['/', '.', '.'];
    assert(crate::paths::absolute(seq!['/'], seq!['.', '.']) =~= up);
    assert(up.drop_last() =~= seq!['/', '.']);
    assert(up.drop_last().drop_last() =~= seq!['/']);
    assert(seq!['/'].drop_last() =~= Seq::<char>::empty());
    let e = Seq::<char>::empty();
    assert(split_slash(e) =~= seq![e]);
    assert(seq![e].push(e) =~= seq![e, e]);
    assert(split_slash(seq!['/']) =~= seq![e, e]);
    assert(seq![e, e].update(1, e.push('.')) =~= seq![e, seq!['.']]);
    assert(split_slash(seq!['/', '.']) =~= seq![e, seq!['.']]);
    assert(seq!['.'].push('.') =~= seq!['.', '.']);
    assert(seq![e, seq!['.']].update(1, seq!['.'].push('.')) =~= seq![e, seq!['.', '.']]);
    let sp2 = seq![e, seq!['.', '.']];
    assert(split_slash(up) =~= sp2);
    assert(sp2.drop_last() =~= seq![e]);
    assert(seq![e].drop_last() =~= Seq::<Seq<char>>::empty());
    assert(resolve(Seq::<Seq<char>>::empty()) == Seq::<Seq<char>>::empty());
    assert(seq![e].last().len() == 0);
    assert(resolve(seq![e]) =~= Seq::<Seq<char>>::empty());
    assert(seq!['.', '.'] != seq!['.']) by {
        assert(seq!['.', '.'].len() != seq!['.'].len());
    }
    assert(resolve(sp2) =~= Seq::<Seq<char>>::empty());
}

/// Whatever message the terminal handles, its working directory stays a
/// normalised path and its prompt stays the one built from it.
pub proof fn law_cwd_stays_normal(t: TermModel, reg: Map<Seq<char>, ProcessId>, me: ProcessId, p: MessagePayload)
    requires
        cwd_ok(t),
    ensures
        cwd_ok(term_message(t, reg, me, p).model),
{
    let r = term_message(t, reg, me, p).model;
    if r.cwd != t.cwd {
        let cmd = crate::text::trim(t.input);
        let parts = crate::text::words(cmd);
        law_cd_target_normal(t.cwd, if parts.len() > 1 { Some(parts[1]) } else { None });
    }
}

/// In the line editor, typing a printable character and then Backspace
/// leaves the line and the cursor as they were.
pub proof fn law_type_then_backspace(t: TermModel, reg: Map<Seq<char>, ProcessId>, me: ProcessId, key: u32)
    requires
        t.edit_state is None,
        t.cursor <= t.input.len(),
        t.input.len() < usize::MAX,
        32 <= key <= 126,
    ensures
        term_message(
            term_message(t, reg, me, MessagePayload::KeyPress { key_code: key }).model,
            reg,
            me,
            MessagePayload::KeyPress { key_code: 8 },
        ).model == t,
{
    let a = term_message(t, reg, me, MessagePayload::KeyPress { key_code: key }).model;
    let b = term_message(a, reg, me, MessagePayload::KeyPress { key_code: 8 }).model;
    assert(a.input == t.input.insert(t.cursor as int, key as char));
    assert(a.cursor == t.cursor + 1);
    assert(b.input == a.input.remove(t.cursor as int));
    assert(b.input =~= t.input);
}

/// With the whole history behind it, ArrowUp in the line editor brings back
/// the last line run, with the cursor at its end; ArrowDown then returns to
/// an empty line at the end of the history.
pub proof fn law_history_up_then_down(t: TermModel, reg: Map<Seq<char>, ProcessId>, me: ProcessId)
    requires
        t.edit_state is None,
        t.history.len() > 0,
        t.history_index == t.history.len(),
    ensures
        ({
            let a = term_message(t, reg, me, MessagePayload::KeyPress { key_code: 1038 }).model;
            let b = term_message(a, reg, me, MessagePayload::KeyPress { key_code: 1040 }).model;
            &&& a == TermModel {
                input: t.history.last(),
                cursor: t.history.last().len() as usize,
                history_index: (t.history.len() - 1) as usize,
                ..t
            }
            &&& b == TermModel { input: Seq::empty(), cursor: 0, ..t }
        }),
{
}

/// Enter on a `cd` line in the line editor moves to where `cd` leads: a
/// normalised path, shown in the prompt; `cd` alone leads to the root, and
/// `cd ..` at the root stays there.
pub proof fn law_cd_command(t: TermModel, reg: Map<Seq<char>, ProcessId>, me: ProcessId)
    requires
        t.edit_state is None,
        cwd_ok(t),
        crate::text::trim(t.input).len() > 0,
        crate::text::words(crate::text::trim(t.input)).len() >= 1,
        crate::text::words(crate::text::trim(t.input))[0] == "cd"@,
    ensures
        ({
            let parts = crate::text::words(crate::text::trim(t.input));
            let r = term_message(t, reg, me, MessagePayload::KeyPress { key_code: 13 }).model;
            &&& cwd_ok(r)
            &&& r.cwd == cd_target(t.cwd, if parts.len() > 1 { Some(parts[1]) } else { None })
            &&& parts.len() == 1 ==> r.cwd == "/"@
            &&& (t.cwd == "/"@ && parts.len() > 1 && parts[1] == ".."@) ==> r.cwd == "/"@
        }),
{
    reveal_strlit("cd");
    reveal_strlit("help");
    reveal_strlit("clear");
    reveal_strlit("edit");
    reveal_strlit("/");
    reveal_strlit("..");
    let parts = crate::text::words(crate::text::trim(t.input));
    assert("cd"@.len() == 2 && "help"@.len() == 4 && "clear"@.len() == 5 && "edit"@.len() == 4);
    assert("cd"@ != "help"@);
    assert("cd"@ != "clear"@);
    assert("cd"@ != "edit"@);
    assert("/"@ =~= seq!['/']);
    assert(".."@ =~= seq!['.', '.']);
    law_cd_target_normal(t.cwd, if parts.len() > 1 { Some(parts[1]) } else { None });
}

/// Enter on a line in the line editor whose first word is none of the
/// built-in commands runs the trimmed line through `/bin/sh -c` in the
/// terminal's working directory, with its output routed to the terminal's
/// window; the working directory is left as it was.
pub proof fn law_run_in_cwd(t: TermModel, reg: Map<Seq<char>, ProcessId>, me: ProcessId)
    requires
        t.edit_state is None,
        crate::text::trim(t.input).len() > 0,
        ({
            let w = crate::text::words(crate::text::trim(t.input))[0];
            w != "help"@ && w != "clear"@ && w != "edit"@ && w != "cd"@
        }),
    ensures
        ({
            let st = term_message(t, reg, me, MessagePayload::KeyPress { key_code: 13 });
            &&& st.calls.len() >= 1
            &&& st.calls.last() matches HostView::Execve { args, cwd, stdin, stdout, route_output_to, .. }
            &&& cwd == t.cwd
            &&& args == vstd::utf8::encode_utf8("/bin/sh"@) + seq![0u8] + vstd::utf8::encode_utf8("-c"@) + seq![0u8]
                + vstd::utf8::encode_utf8(crate::text::trim(t.input)) + seq![0u8]
            &&& stdin is None
            &&& stdout is None
            &&& route_output_to == t.window_id
            &&& st.model.cwd == t.cwd
            &&& st.model.prompt == t.prompt
        }),
{
}

/// Enter on `edit <file> ...` in the line editor opens the editor on that
/// file, taken from the working directory unless it starts with `/`: the
/// terminal asks the host for the file's contents and starts from an
/// empty text with the cursor at its start.
pub proof fn law_edit_opens_file(t: TermModel, reg: Map<Seq<char>, ProcessId>, me: ProcessId)
    requires
        t.edit_state is None,
        crate::text::trim(t.input).len() > 0,
        crate::text::words(crate::text::trim(t.input)).len() >= 2,
        crate::text::words(crate::text::trim(t.input))[0] == "edit"@,
    ensures
        ({
            let f = crate::text::words(crate::text::trim(t.input))[1];
            let path = if f.len() > 0 && f[0] == '/' {
                f
            } else if t.cwd == seq!['/'] {
                seq!['/'] + f
            } else {
                t.cwd + seq!['/'] + f
            };
            let st = term_message(t, reg, me, MessagePayload::KeyPress { key_code: 13 });
            &&& st.model.edit_state == Some(path)
            &&& st.model.input.len() == 0
            &&& st.model.cursor == 0
            &&& st.model.cwd == t.cwd
            &&& st.calls.len() >= 1
            &&& st.calls.last() == (HostView::ReadFile { requester: me, path })
        }),
{
}

} // verus!
