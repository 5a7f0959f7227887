//! Absolute paths: joining, going up, and resolving `cd` targets.

use vstd::prelude::*;

verus! {

/// `dir/name`, where the root is written `/`.
pub open spec fn child_path(dir: Seq<char>, name: Seq<char>) -> Seq<char> {
    if dir == seq!['/'] {
        seq!['/'] + name
    } else {
        dir + seq!['/'] + name
    }
}

/// `target` as an absolute path, relative ones taken from `cwd`.
pub open spec fn absolute(cwd: Seq<char>, target: Seq<char>) -> Seq<char> {
    if target.len() > 0 && target[0] == '/' {
        target
    } else {
        child_path(cwd, target)
    }
}

/// The pieces of `s` between the `/` characters, empty ones included, as
/// `str::split('/')` gives them.
pub open spec fn split_slash(s: Seq<char>) -> Seq<Seq<char>>
    decreases s.len(),
{
    if s.len() == 0 {
        seq![Seq::empty()]
    } else {
        let rest = split_slash(s.drop_last());
        if s.last() == '/' {
            rest.push(Seq::empty())
        } else {
            rest.update(rest.len() - 1, rest.last().push(s.last()))
        }
    }
}

pub proof fn lemma_split_nonempty(s: Seq<char>)
    ensures
        split_slash(s).len() >= 1,
    decreases s.len(),
{
    if s.len() > 0 {
        lemma_split_nonempty(s.drop_last());
    }
}

/// Resolving `.` and `..` and dropping empty pieces, left to right.
pub open spec fn resolve(parts: Seq<Seq<char>>) -> Seq<Seq<char>>
    decreases parts.len(),
{
    if parts.len() == 0 {
        Seq::empty()
    } else {
        let acc = resolve(parts.drop_last());
        let p = parts.last();
        if p.len() == 0 || p == seq!['.'] {
            acc
        } else if p == seq!['.', '.'] {
            if acc.len() > 0 { acc.drop_last() } else { acc }
        } else {
            acc.push(p)
        }
    }
}

/// The pieces that are not empty.
pub open spec fn nonempty_parts(parts: Seq<Seq<char>>) -> Seq<Seq<char>>
    decreases parts.len(),
{
    if parts.len() == 0 {
        Seq::empty()
    } else if parts.last().len() == 0 {
        nonempty_parts(parts.drop_last())
    } else {
        nonempty_parts(parts.drop_last()).push(parts.last())
    }
}

/// The pieces joined with `/`.
pub open spec fn join_slash(parts: Seq<Seq<char>>) -> Seq<char>
    decreases parts.len(),
{
    if parts.len() == 0 {
        Seq::empty()
    } else if parts.len() == 1 {
        parts[0]
    } else {
        join_slash(parts.drop_last()) + seq!['/'] + parts.last()
    }
}

/// The absolute path made of `parts`; no parts is the root.
pub open spec fn path_of(parts: Seq<Seq<char>>) -> Seq<char> {
    if parts.len() == 0 {
        seq!['/']
    } else {
        seq!['/'] + join_slash(parts)
    }
}

/// Where `cd target` leads from `cwd`; with no target it leads to the root.
pub open spec fn cd_target(cwd: Seq<char>, target: Option<Seq<char>>) -> Seq<char> {
    let t = match target {
        Some(t) => t,
        None => seq!['/'],
    };
    path_of(resolve(split_slash(absolute(cwd, t))))
}

/// The folder above `path`; the root's is the root.
pub open spec fn parent_path(path: Seq<char>) -> Seq<char> {
    let parts = nonempty_parts(split_slash(path));
    path_of(if parts.len() > 0 { parts.drop_last() } else { parts })
}

/// A name usable as one path component.
pub open spec fn is_component(name: Seq<char>) -> bool {
    name.len() > 0 && !name.contains('/')
}

/// A path as the file browsers keep it: the root, or `/` followed by
/// components separated by single slashes.
pub open spec fn is_clean_path(p: Seq<char>) -> bool {
    p == path_of(nonempty_parts(split_slash(p))) && p.len() > 0 && p[0] == '/'
}

proof fn lemma_split_append(a: Seq<char>, b: Seq<char>)
    requires
        !b.contains('/'),
    ensures
        split_slash(a + seq!['/'] + b) == split_slash(a).push(b),
    decreases b.len(),
{
    if b.len() == 0 {
        let s = a + seq!['/'] + b;
        assert(s =~= a.push('/'));
        assert(s.drop_last() =~= a);
        assert(s.last() == '/');
        assert(b =~= Seq::<char>::empty());
        assert(split_slash(s) == split_slash(a).push(Seq::<char>::empty()));
    } else {
        let b0 = b.drop_last();
        assert forall|c: char| b0.contains(c) implies b.contains(c) by {
            let k = choose|k: int| 0 <= k < b0.len() && b0[k] == c;
            assert(b[k] == c);
        }
        lemma_split_append(a, b0);
        let s = a + seq!['/'] + b;
        assert(s.drop_last() =~= a + seq!['/'] + b0);
        assert(s.last() == b.last());
        assert(b.last() != '/') by {
            assert(b[b.len() - 1] == b.last());
        }
        assert(b0.push(b.last()) =~= b);
        assert(split_slash(s) =~= split_slash(a).push(b));
    }
}

/// Opening a folder and then going up returns to where one started, in the
/// file browsers' paths.
pub proof fn law_parent_of_child(dir: Seq<char>, name: Seq<char>)
    requires
        is_clean_path(dir),
        is_component(name),
    ensures
        parent_path(child_path(dir, name)) == dir,
{
    if dir == seq!['/'] {
        assert(child_path(dir, name) =~= Seq::<char>::empty() + seq!['/'] + name);
        lemma_split_append(Seq::<char>::empty(), name);
        assert(split_slash(Seq::<char>::empty()) =~= seq![Seq::<char>::empty()]);
        let parts = seq![Seq::<char>::empty(), name];
        assert(split_slash(child_path(dir, name)) =~= parts);
        assert(parts.drop_last() =~= seq![Seq::<char>::empty()]);
        assert(seq![Seq::<char>::empty()].drop_last() =~= Seq::<Seq<char>>::empty());
        assert(nonempty_parts(seq![Seq::<char>::empty()].drop_last()) == Seq::<Seq<char>>::empty());
        assert(nonempty_parts(seq![Seq::<char>::empty()]) == Seq::<Seq<char>>::empty());
        assert(nonempty_parts(parts) == nonempty_parts(parts.drop_last()).push(name));
        assert(nonempty_parts(parts) =~= seq![name]);
        assert(seq![name].drop_last() =~= Seq::<Seq<char>>::empty());
    } else {
        lemma_split_append(dir, name);
        let p = split_slash(dir);
        assert(split_slash(dir).push(name).drop_last() =~= p);
        assert(nonempty_parts(p.push(name)) == nonempty_parts(p).push(name));
        assert(nonempty_parts(p).push(name).drop_last() =~= nonempty_parts(p));
    }
}

// ---------------------------------------------------------------------
// Executable forms

fn eq_chars(a: &[char], b: &[char]) -> (r: bool)
    ensures
        r == (a@ == b@),
{
    if a.len() != b.len() {
        return false;
    }
    let mut i: usize = 0;
    while i < a.len()
        invariant
            a@.len() == b@.len(),
            i <= a@.len(),
            forall|j: int| 0 <= j < i ==> a@[j] == b@[j],
        decreases a@.len() - i,
    {
        if a[i] != b[i] {
            return false;
        }
        i = i + 1;
    }
    assert(a@ =~= b@);
    true
}

fn append_chars(v: &mut Vec<char>, s: &[char])
    ensures
        final(v)@ == old(v)@ + s@,
{
    let mut i: usize = 0;
    let ghost v0 = v@;
    while i < s.len()
        invariant
            i <= s@.len(),
            v@ == v0 + s@.take(i as int),
        decreases s@.len() - i,
    {
        v.push(s[i]);
        i = i + 1;
        assert(v@ =~= v0 + s@.take(i as int));
    }
    assert(s@.take(s@.len() as int) =~= s@);
}

pub fn child_path_exec(dir: &[char], name: &[char]) -> (r: Vec<char>)
    ensures
        r@ == child_path(dir@, name@),
{
    let mut r: Vec<char> = Vec::new();
    if dir.len() == 1 && dir[0] == '/' {
        assert(dir@ =~= seq!['/']);
        r.push('/');
        append_chars(&mut r, name);
    } else {
        assert(dir@ != seq!['/']);
        append_chars(&mut r, dir);
        r.push('/');
        append_chars(&mut r, name);
    }
    r
}

pub fn absolute_exec(cwd: &[char], target: &[char]) -> (r: Vec<char>)
    ensures
        r@ == absolute(cwd@, target@),
{
    if target.len() > 0 && target[0] == '/' {
        let mut r: Vec<char> = Vec::new();
        append_chars(&mut r, target);
        assert(r@ =~= target@);
        r
    } else {
        child_path_exec(cwd, target)
    }
}

pub fn split_slash_exec(s: &[char]) -> (r: Vec<Vec<char>>)
    ensures
        r@.map_values(|p: Vec<char>| p@) == split_slash(s@),
{
    let mut r: Vec<Vec<char>> = Vec::new();
    r.push(Vec::new());
    let mut i: usize = 0;
    assert(s@.take(0) =~= Seq::<char>::empty());
    assert(r@.map_values(|p: Vec<char>| p@) =~= split_slash(s@.take(0)));
    while i < s.len()
        invariant
            i <= s@.len(),
            r@.len() >= 1,
            r@.map_values(|p: Vec<char>| p@) == split_slash(s@.take(i as int)),
        decreases s@.len() - i,
    {
        let ghost before = r@.map_values(|p: Vec<char>| p@);
        assert(s@.take(i + 1).drop_last() =~= s@.take(i as int));
        assert(s@.take(i + 1).last() == s@[i as int]);
        if s[i] == '/' {
            r.push(Vec::new());
            assert(r@.map_values(|p: Vec<char>| p@) =~= before.push(Seq::empty()));
        } else {
            let k = r.len() - 1;
            let mut last = r.remove(k);
            last.push(s[i]);
            r.push(last);
            assert(r@.map_values(|p: Vec<char>| p@) =~= before.update(before.len() - 1, before.last().push(s@[i as int])));
        }
        i = i + 1;
    }
    assert(s@.take(s@.len() as int) =~= s@);
    r
}

pub fn resolve_exec(parts: &Vec<Vec<char>>) -> (r: Vec<Vec<char>>)
    ensures
        r@.map_values(|p: Vec<char>| p@) == resolve(parts@.map_values(|p: Vec<char>| p@)),
{
    let ghost ps = parts@.map_values(|p: Vec<char>| p@);
    let mut r: Vec<Vec<char>> = Vec::new();
    let mut i: usize = 0;
    assert(ps.take(0) =~= Seq::<Seq<char>>::empty());
    assert(r@.map_values(|p: Vec<char>| p@) =~= resolve(ps.take(0)));
    while i < parts.len()
        invariant
            i <= parts@.len(),
            ps == parts@.map_values(|p: Vec<char>| p@),
            r@.map_values(|p: Vec<char>| p@) == resolve(ps.take(i as int)),
        decreases parts@.len() - i,
    {
        let ghost before = r@.map_values(|p: Vec<char>| p@);
        assert(ps.take(i + 1).drop_last() =~= ps.take(i as int));
        assert(ps.take(i + 1).last() == parts@[i as int]@);
        let p = &parts[i];
        let dot: [char; 1] = ['.'];
        let dotdot: [char; 2] = ['.', '.'];
        assert(dot@ =~= seq!['.']);
        assert(dotdot@ =~= seq!['.', '.']);
        if p.len() == 0 || eq_chars(p.as_slice(), dot.as_slice()) {
        } else if eq_chars(p.as_slice(), dotdot.as_slice()) {
            if r.len() > 0 {
                r.pop();
                assert(r@.map_values(|p: Vec<char>| p@) =~= before.drop_last());
            }
        } else {
            r.push(p.clone());
            assert(r@.map_values(|p: Vec<char>| p@) =~= before.push(parts@[i as int]@));
        }
        i = i + 1;
    }
    assert(ps.take(parts@.len() as int) =~= ps);
    r
}

pub fn nonempty_parts_exec(parts: &Vec<Vec<char>>) -> (r: Vec<Vec<char>>)
    ensures
        r@.map_values(|p: Vec<char>| p@) == nonempty_parts(parts@.map_values(|p: Vec<char>| p@)),
{
    let ghost ps = parts@.map_values(|p: Vec<char>| p@);
    let mut r: Vec<Vec<char>> = Vec::new();
    let mut i: usize = 0;
    assert(ps.take(0) =~= Seq::<Seq<char>>::empty());
    assert(r@.map_values(|p: Vec<char>| p@) =~= nonempty_parts(ps.take(0)));
    while i < parts.len()
        invariant
            i <= parts@.len(),
            ps == parts@.map_values(|p: Vec<char>| p@),
            r@.map_values(|p: Vec<char>| p@) == nonempty_parts(ps.take(i as int)),
        decreases parts@.len() - i,
    {
        let ghost before = r@.map_values(|p: Vec<char>| p@);
        assert(ps.take(i + 1).drop_last() =~= ps.take(i as int));
        assert(ps.take(i + 1).last() == parts@[i as int]@);
        if parts[i].len() > 0 {
            r.push(parts[i].clone());
            assert(r@.map_values(|p: Vec<char>| p@) =~= before.push(parts@[i as int]@));
        }
        i = i + 1;
    }
    assert(ps.take(parts@.len() as int) =~= ps);
    r
}

pub fn path_of_exec(parts: &Vec<Vec<char>>) -> (r: Vec<char>)
    ensures
        r@ == path_of(parts@.map_values(|p: Vec<char>| p@)),
{
    let ghost ps = parts@.map_values(|p: Vec<char>| p@);
    let mut r: Vec<char> = Vec::new();
    r.push('/');
    if parts.len() == 0 {
        return r;
    }
    let mut i: usize = 0;
    assert(ps.take(1).drop_last() =~= ps.take(0));
    while i < parts.len()
        invariant
            i <= parts@.len(),
            parts@.len() > 0,
            ps == parts@.map_values(|p: Vec<char>| p@),
            i == 0 ==> r@ == seq!['/'],
            i > 0 ==> r@ == seq!['/'] + join_slash(ps.take(i as int)),
        decreases parts@.len() - i,
    {
        let ghost before = r@;
        if i > 0 {
            r.push('/');
        }
        append_chars(&mut r, parts[i].as_slice());
        proof {
            let t = ps.take(i + 1);
            assert(t.drop_last() =~= ps.take(i as int));
            assert(t.last() == parts@[i as int]@);
            if i == 0 {
                assert(t.len() == 1);
                assert(join_slash(t) == t[0]);
            }
            assert(r@ =~= seq!['/'] + join_slash(t));
        }
        i = i + 1;
    }
    assert(ps.take(parts@.len() as int) =~= ps);
    r
}

/// Where `cd target` leads from `cwd`.
pub fn cd_target_exec(cwd: &[char], target: Option<&[char]>) -> (r: Vec<char>)
    ensures
        r@ == cd_target(cwd@, match target { Some(t) => Some(t@), None => None }),
{
    let root: [char; 1] = ['/'];
    assert(root@ =~= seq!['/']);
    let t: &[char] = match target {
        Some(t) => t,
        None => root.as_slice(),
    };
    let abs = absolute_exec(cwd, t);
    let parts = split_slash_exec(abs.as_slice());
    let resolved = resolve_exec(&parts);
    path_of_exec(&resolved)
}

/// The folder above `path`.
pub fn parent_path_exec(path: &[char]) -> (r: Vec<char>)
    ensures
        r@ == parent_path(path@),
{
    let parts = split_slash_exec(path);
    let mut ne = nonempty_parts_exec(&parts);
    let ghost nv = ne@.map_values(|p: Vec<char>| p@);
    if ne.len() > 0 {
        ne.pop();
        assert(ne@.map_values(|p: Vec<char>| p@) =~= nv.drop_last());
    }
    path_of_exec(&ne)
}

} // verus!
