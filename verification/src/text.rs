//! Character-level helpers for strings.

use vstd::prelude::*;
use vstd::string::*;
use vstd::utf8::{encode_scalar, encode_utf8};

verus! {

/// `String::push` appends one character.
pub assume_specification[ String::push ](s: &mut String, ch: char)
    ensures
        final(s)@ == old(s)@.push(ch),
;

/// The characters of `s`, in order.
pub fn chars_of(s: &str) -> (v: Vec<char>)
    ensures
        v@ == s@,
{
    let mut v: Vec<char> = Vec::new();
    for c in it: s.chars()
        invariant
            v@.len() == it.index(),
            forall|i: int| 0 <= i < v@.len() ==> v@[i] == it.seq()[i],
            it.seq() == s@,
    {
        v.push(c);
    }
    assert(v@ =~= s@);
    v
}

/// A string holding exactly the characters of `v`.
pub fn string_of(v: &[char]) -> (s: String)
    ensures
        s@ == v@,
{
    let mut s = String::new();
    let mut i: usize = 0;
    while i < v.len()
        invariant
            i <= v@.len(),
            s@ == v@.subrange(0, i as int),
        decreases v@.len() - i,
    {
        s.push(v[i]);
        i = i + 1;
        assert(s@ =~= v@.subrange(0, i as int));
    }
    assert(v@.subrange(0, v@.len() as int) =~= v@);
    s
}

/// Whether two strings hold the same characters.
pub fn str_eq(a: &str, b: &str) -> (r: bool)
    ensures
        r == (a@ == b@),
{
    let va = chars_of(a);
    let vb = chars_of(b);
    if va.len() != vb.len() {
        return false;
    }
    let mut i: usize = 0;
    while i < va.len()
        invariant
            va@ == a@,
            vb@ == b@,
            va@.len() == vb@.len(),
            i <= va@.len(),
            forall|j: int| 0 <= j < i ==> va@[j] == vb@[j],
        decreases va@.len() - i,
    {
        if va[i] != vb[i] {
            return false;
        }
        i = i + 1;
    }
    assert(va@ =~= vb@);
    true
}

/// A copy of `s`.
pub fn copy_str(s: &str) -> (r: String)
    ensures
        r@ == s@,
{
    String::from_str(s)
}


/// Unicode white space, as `char::is_whitespace` defines it.
pub open spec fn is_ws(c: char) -> bool {
    let u = c as u32;
    (9 <= u <= 13) || u == 32 || u == 0x85 || u == 0xA0 || u == 0x1680 || (0x2000 <= u <= 0x200A)
        || u == 0x2028 || u == 0x2029 || u == 0x202F || u == 0x205F || u == 0x3000
}

pub fn is_ws_exec(c: char) -> (r: bool)
    ensures
        r == is_ws(c),
{
    let u = c as u32;
    (9 <= u && u <= 13) || u == 32 || u == 0x85 || u == 0xA0 || u == 0x1680 || (0x2000 <= u && u <= 0x200A)
        || u == 0x2028 || u == 0x2029 || u == 0x202F || u == 0x205F || u == 0x3000
}

/// `s` without leading white space.
pub open spec fn trim_start(s: Seq<char>) -> Seq<char>
    decreases s.len(),
{
    if s.len() > 0 && is_ws(s[0]) {
        trim_start(s.drop_first())
    } else {
        s
    }
}

/// `s` without trailing white space.
pub open spec fn trim_end(s: Seq<char>) -> Seq<char>
    decreases s.len(),
{
    if s.len() > 0 && is_ws(s.last()) {
        trim_end(s.drop_last())
    } else {
        s
    }
}

/// `s` without leading and trailing white space.
pub open spec fn trim(s: Seq<char>) -> Seq<char> {
    trim_end(trim_start(s))
}

/// The longest prefix of `s` without white space.
pub open spec fn first_word(s: Seq<char>) -> Seq<char>
    decreases s.len(),
{
    if s.len() == 0 || is_ws(s[0]) {
        Seq::empty()
    } else {
        seq![s[0]] + first_word(s.drop_first())
    }
}

pub proof fn lemma_first_word_len(s: Seq<char>)
    ensures
        first_word(s).len() <= s.len(),
        s.len() > 0 && !is_ws(s[0]) ==> first_word(s).len() >= 1,
        first_word(s) == s.take(first_word(s).len() as int),
    decreases s.len(),
{
    if s.len() > 0 && !is_ws(s[0]) {
        lemma_first_word_len(s.drop_first());
        assert(first_word(s) =~= s.take(first_word(s).len() as int));
    } else {
        assert(first_word(s) =~= s.take(0));
    }
}

/// The white-space separated words of `s`, as `str::split_whitespace` gives them.
pub open spec fn words(s: Seq<char>) -> Seq<Seq<char>>
    decreases s.len(),
{
    if s.len() == 0 {
        Seq::empty()
    } else if is_ws(s[0]) {
        words(s.drop_first())
    } else {
        let w = first_word(s);
        if 1 <= w.len() <= s.len() {
            seq![w] + words(s.skip(w.len() as int))
        } else {
            seq![w]
        }
    }
}

/// The characters of `s` without leading and trailing white space.
pub fn trim_exec(s: &[char]) -> (r: Vec<char>)
    ensures
        r@ == trim(s@),
{
    let mut a: usize = 0;
    assert(s@.skip(0) =~= s@);
    while a < s.len() && is_ws_exec(s[a])
        invariant
            a <= s@.len(),
            trim_start(s@) == trim_start(s@.skip(a as int)),
        decreases s@.len() - a,
    {
        assert(s@.skip(a as int).drop_first() =~= s@.skip(a + 1));
        a = a + 1;
    }
    assert(trim_start(s@) == s@.skip(a as int));
    let mut b: usize = s.len();
    let ghost t = s@.skip(a as int);
    assert(t =~= s@.subrange(a as int, b as int));
    while b > a && is_ws_exec(s[b - 1])
        invariant
            a <= b <= s@.len(),
            t == s@.skip(a as int),
            trim_end(t) == trim_end(s@.subrange(a as int, b as int)),
        decreases b,
    {
        assert(s@.subrange(a as int, b as int).drop_last() =~= s@.subrange(a as int, b - 1));
        b = b - 1;
    }
    assert(trim_end(t) == s@.subrange(a as int, b as int));
    let mut r: Vec<char> = Vec::new();
    let mut i = a;
    assert(r@ =~= s@.subrange(a as int, a as int));
    while i < b
        invariant
            a <= i <= b <= s@.len(),
            r@ == s@.subrange(a as int, i as int),
        decreases b - i,
    {
        r.push(s[i]);
        i = i + 1;
        assert(r@ =~= s@.subrange(a as int, i as int));
    }
    r
}

/// The words of `s`.
pub fn words_exec(s: &[char]) -> (r: Vec<Vec<char>>)
    ensures
        r@.map_values(|w: Vec<char>| w@) == words(s@),
{
    let mut r: Vec<Vec<char>> = Vec::new();
    let mut i: usize = 0;
    assert(s@.skip(0) =~= s@);
    assert(r@.map_values(|w: Vec<char>| w@) + words(s@.skip(0)) =~= words(s@));
    while i < s.len()
        invariant
            i <= s@.len(),
            r@.map_values(|w: Vec<char>| w@) + words(s@.skip(i as int)) == words(s@),
        decreases s@.len() - i,
    {
        let ghost rest = s@.skip(i as int);
        if is_ws_exec(s[i]) {
            assert(rest.drop_first() =~= s@.skip(i + 1));
            i = i + 1;
        } else {
            let mut w: Vec<char> = Vec::new();
            let mut j = i;
            proof { lemma_first_word_len(rest); }
            assert(first_word(rest) =~= w@ + first_word(s@.skip(j as int)));
            while j < s.len() && !is_ws_exec(s[j])
                invariant
                    i <= j <= s@.len(),
                    w@ == s@.subrange(i as int, j as int),
                    first_word(rest) == w@ + first_word(s@.skip(j as int)),
                    rest == s@.skip(i as int),
                decreases s@.len() - j,
            {
                assert(s@.skip(j as int).drop_first() =~= s@.skip(j + 1));
                assert(first_word(s@.skip(j as int)) =~= seq![s[j as int]] + first_word(s@.skip(j + 1)));
                w.push(s[j]);
                j = j + 1;
                assert(w@ =~= s@.subrange(i as int, j as int));
                assert(first_word(rest) =~= w@ + first_word(s@.skip(j as int)));
            }
            assert(first_word(s@.skip(j as int)) =~= Seq::<char>::empty());
            assert(w@ =~= first_word(rest));
            proof {
                lemma_first_word_len(rest);
                assert(rest.skip(w@.len() as int) =~= s@.skip(j as int));
            }
            let ghost r0 = r@.map_values(|v: Vec<char>| v@);
            r.push(w);
            assert(r@.map_values(|v: Vec<char>| v@) =~= r0.push(first_word(rest)));
            assert(r@.map_values(|v: Vec<char>| v@) + words(s@.skip(j as int)) =~= r0 + words(rest));
            i = j;
        }
    }
    assert(words(s@.skip(i as int)) =~= Seq::<Seq<char>>::empty());
    assert(r@.map_values(|w: Vec<char>| w@) =~= words(s@));
    r
}


/// Whether the characters `v` spell `s`.
pub fn chars_eq_str(v: &[char], s: &str) -> (r: bool)
    ensures
        r == (v@ == s@),
{
    let w = chars_of(s);
    if v.len() != w.len() {
        return false;
    }
    let mut i: usize = 0;
    while i < v.len()
        invariant
            w@ == s@,
            v@.len() == w@.len(),
            i <= v@.len(),
            forall|j: int| 0 <= j < i ==> v@[j] == w@[j],
        decreases v@.len() - i,
    {
        if v[i] != w[i] {
            return false;
        }
        i = i + 1;
    }
    assert(v@ =~= w@);
    true
}

proof fn lemma_trim_start_head(s: Seq<char>)
    ensures
        trim_start(s).len() > 0 ==> !is_ws(trim_start(s)[0]),
        trim_start(s).len() <= s.len(),
    decreases s.len(),
{
    if s.len() > 0 && is_ws(s[0]) {
        lemma_trim_start_head(s.drop_first());
    }
}

proof fn lemma_trim_end_keeps_head(s: Seq<char>)
    requires
        s.len() > 0,
        !is_ws(s[0]),
    ensures
        trim_end(s).len() > 0,
        trim_end(s)[0] == s[0],
    decreases s.len(),
{
    if is_ws(s.last()) {
        assert(s.len() > 1);
        lemma_trim_end_keeps_head(s.drop_last());
    }
}

/// A line that is not blank after trimming has at least one word.
pub proof fn lemma_trim_has_word(s: Seq<char>)
    requires
        trim(s).len() > 0,
    ensures
        words(trim(s)).len() > 0,
        !is_ws(trim(s)[0]),
{
    lemma_trim_start_head(s);
    let a = trim_start(s);
    if a.len() == 0 {
        assert(trim_end(a) == a);
    }
    lemma_trim_end_keeps_head(a);
    lemma_first_word_len(trim(s));
}

/// Appends the UTF-8 bytes of `s` to `out`.
pub fn push_bytes(out: &mut Vec<u8>, s: &str)
    ensures
        final(out)@ == old(out)@ + vstd::utf8::encode_utf8(s@),
{
    let b = s.as_bytes();
    let ghost o = out@;
    let mut i: usize = 0;
    while i < b.len()
        invariant
            i <= b@.len(),
            b@ == s.spec_bytes(),
            out@ == o + b@.take(i as int),
        decreases b@.len() - i,
    {
        out.push(b[i]);
        i = i + 1;
        assert(out@ =~= o + b@.take(i as int));
    }
    assert(b@.take(b@.len() as int) =~= b@);
}

/// The character of a decimal digit.
pub open spec fn digit_of(d: int) -> char {
    (48 + d) as char
}

proof fn lemma_digit_of(d: int)
    requires
        0 <= d < 10,
    ensures
        is_digit(digit_of(d)),
        digit_of(d) as int - 48 == d,
        !is_ws(digit_of(d)),
        digit_of(d) != '+',
{
    assert(digit_of(d) as int == 48 + d);
}

proof fn lemma_decimal_digits(n: nat)
    ensures
        decimal(n).len() > 0,
        all_digits(decimal(n)),
        digits_value(decimal(n)) == n,
        !is_ws(decimal(n)[0]),
        !is_ws(decimal(n).last()),
        decimal(n)[0] != '+',
    decreases n,
{
    if n < 10 {
        lemma_digit_of(n as int);
        let s = decimal(n);
        assert(s.drop_last() =~= Seq::<char>::empty());
        assert(s.last() == digit_of(n as int));
        assert(digits_value(s) == digits_value(Seq::<char>::empty()) * 10 + ((digit_of(n as int) as int - 48) as nat));
    } else {
        lemma_decimal_digits(n / 10);
        lemma_digit_of((n % 10) as int);
        let s = decimal(n);
        let p = decimal(n / 10);
        assert(s == p.push(digit_of((n % 10) as int)));
        assert(s.drop_last() =~= p);
        assert(s[0] == p[0]);
        assert forall|i: int| 0 <= i < s.len() implies is_digit(#[trigger] s[i]) by {
            if i < p.len() {
                assert(s[i] == p[i]);
            }
        }
        assert(digits_value(s) == (n / 10) * 10 + n % 10);
        assert((n / 10) * 10 + n % 10 == n) by (nonlinear_arith);
    }
}

/// A number written in decimal reads back, with `str::trim` and
/// `str::parse`, as the same number.
pub proof fn lemma_decimal_parses(n: u32)
    ensures
        parse_u32(trim(decimal(n as nat))) == Some(n),
{
    let s = decimal(n as nat);
    lemma_decimal_digits(n as nat);
    assert(trim_start(s) == s);
    assert(trim_end(s) == s);
    assert(unsigned_part(s) == s);
}

/// `n` written in decimal, without leading zeros.
pub open spec fn decimal(n: nat) -> Seq<char>
    decreases n,
{
    if n < 10 {
        seq![digit_of(n as int)]
    } else {
        decimal(n / 10).push(digit_of((n % 10) as int))
    }
}

fn digit_exec(d: u32) -> (c: char)
    requires
        d < 10,
    ensures
        c == digit_of(d as int),
{
    if d == 0 { '0' } else if d == 1 { '1' } else if d == 2 { '2' } else if d == 3 { '3' } else if d == 4 { '4' }
    else if d == 5 { '5' } else if d == 6 { '6' } else if d == 7 { '7' } else if d == 8 { '8' } else { '9' }
}

fn push_decimal(out: &mut Vec<char>, n: u64)
    ensures
        final(out)@ == old(out)@ + decimal(n as nat),
    decreases n,
{
    if n >= 10 {
        push_decimal(out, n / 10);
    }
    out.push(digit_exec((n % 10) as u32));
    proof {
        if n >= 10 {
            assert(final(out)@ =~= old(out)@ + decimal((n / 10) as nat).push(digit_of((n % 10) as int)));
        } else {
            assert(final(out)@ =~= old(out)@ + seq![digit_of(n as int)]);
        }
    }
}

/// `n` written in decimal.
pub fn decimal_exec(n: u32) -> (s: String)
    ensures
        s@ == decimal(n as nat),
{
    decimal_u64(n as u64)
}

/// `n` written in decimal.
pub fn decimal_u64(n: u64) -> (s: String)
    ensures
        s@ == decimal(n as nat),
{
    let mut v: Vec<char> = Vec::new();
    push_decimal(&mut v, n);
    assert(v@ =~= decimal(n as nat));
    string_of(v.as_slice())
}

pub open spec fn is_digit(c: char) -> bool {
    '0' <= c && c <= '9'
}

/// The value of a string of decimal digits.
pub open spec fn digits_value(s: Seq<char>) -> nat
    decreases s.len(),
{
    if s.len() == 0 {
        0
    } else {
        digits_value(s.drop_last()) * 10 + ((s.last() as int - 48) as nat)
    }
}

/// What `str::parse::<u32>` gives: an optional `+`, then at least one
/// digit and nothing else, with a value that fits in a `u32`.
pub open spec fn parse_u32(s: Seq<char>) -> Option<u32> {
    let d = unsigned_part(s);
    if d.len() > 0 && all_digits(d) && digits_value(d) <= u32::MAX {
        Some(digits_value(d) as u32)
    } else {
        None
    }
}

/// `s` without a leading `+`.
pub open spec fn unsigned_part(s: Seq<char>) -> Seq<char> {
    if s.len() > 0 && s[0] == '+' { s.drop_first() } else { s }
}

pub open spec fn all_digits(d: Seq<char>) -> bool {
    forall|i: int| 0 <= i < d.len() ==> is_digit(#[trigger] d[i])
}

proof fn lemma_digits_value_grows(s: Seq<char>, k: int)
    requires
        0 <= k <= s.len(),
        forall|i: int| 0 <= i < s.len() ==> is_digit(#[trigger] s[i]),
    ensures
        digits_value(s.take(k)) <= digits_value(s),
    decreases s.len() - k,
{
    if k < s.len() {
        lemma_digits_value_grows(s, k + 1);
        assert(s.take(k + 1).drop_last() =~= s.take(k));
    } else {
        assert(s.take(k) =~= s);
    }
}

/// Parses a decimal `u32` as `str::parse` does.
pub fn parse_u32_exec(s: &[char]) -> (r: Option<u32>)
    ensures
        r == parse_u32(s@),
{
    let start: usize = if s.len() > 0 && s[0] == '+' { 1 } else { 0 };
    let ghost d = unsigned_part(s@);
    assert(d =~= s@.skip(start as int));
    if start >= s.len() {
        return None;
    }
    let mut v: u64 = 0;
    let mut i: usize = start;
    while i < s.len()
        invariant
            start <= i <= s@.len(),
            d == s@.skip(start as int),
            d == unsigned_part(s@),
            d.len() > 0,
            forall|j: int| 0 <= j < i - start ==> is_digit(#[trigger] d[j]),
            v == digits_value(d.take(i - start)),
            v <= u32::MAX,
        decreases s@.len() - i,
    {
        let c = s[i];
        if !('0' <= c && c <= '9') {
            proof {
                assert(d[i - start] == c);
                assert(!is_digit(d[i - start]));
                assert(!all_digits(d));
            }
            return None;
        }
        let nv: u64 = v * 10 + (c as u64 - 48);
        proof {
            assert(d.take(i + 1 - start).drop_last() =~= d.take(i - start));
            assert(d.take(i + 1 - start).last() == c);
        }
        if nv > 4294967295 {
            proof {
                let k = i + 1 - start;
                if all_digits(d) {
                    lemma_digits_value_grows(d, k);
                    assert(digits_value(d.take(k)) == nv);
                }
            }
            return None;
        }
        v = nv;
        i = i + 1;
    }
    assert(d.take(d.len() as int) =~= d);
    Some(v as u32)
}

/// The pieces of `s` between the occurrences of `c`, empty ones included.
pub open spec fn split_char(s: Seq<char>, c: char) -> Seq<Seq<char>>
    decreases s.len(),
{
    if s.len() == 0 {
        seq![Seq::empty()]
    } else {
        let rest = split_char(s.drop_last(), c);
        if s.last() == c {
            rest.push(Seq::empty())
        } else {
            rest.update(rest.len() - 1, rest.last().push(s.last()))
        }
    }
}

pub proof fn lemma_split_char_nonempty(s: Seq<char>, c: char)
    ensures
        split_char(s, c).len() >= 1,
    decreases s.len(),
{
    if s.len() > 0 {
        lemma_split_char_nonempty(s.drop_last(), c);
    }
}

/// Splitting `a` followed by a piece without `c` only extends the last
/// piece of `a`.
pub proof fn lemma_split_append_plain(a: Seq<char>, b: Seq<char>, c: char)
    requires
        !b.contains(c),
    ensures
        split_char(a + b, c) == split_char(a, c).update(split_char(a, c).len() - 1, split_char(a, c).last() + b),
    decreases b.len(),
{
    lemma_split_char_nonempty(a, c);
    if b.len() == 0 {
        assert(a + b =~= a);
        assert(split_char(a, c).last() + b =~= split_char(a, c).last());
        assert(split_char(a, c).update(split_char(a, c).len() - 1, split_char(a, c).last()) =~= split_char(a, c));
    } else {
        let b1 = b.drop_last();
        assert(!b1.contains(c)) by {
            if b1.contains(c) {
                let j = choose|j: int| 0 <= j < b1.len() && b1[j] == c;
                assert(b[j] == c);
            }
        }
        assert(b.last() != c) by {
            assert(b[b.len() - 1] == b.last());
        }
        lemma_split_append_plain(a, b1, c);
        assert((a + b).drop_last() =~= a + b1);
        assert((a + b).last() == b.last());
        let r = split_char(a, c);
        let rest = split_char(a + b1, c);
        assert(rest == r.update(r.len() - 1, r.last() + b1));
        assert(rest.len() == r.len());
        assert(rest.last() == r.last() + b1);
        assert(split_char(a + b, c) == rest.update(rest.len() - 1, rest.last().push(b.last())));
        assert((r.last() + b1).push(b.last()) =~= r.last() + b);
        assert(split_char(a + b, c) =~= r.update(r.len() - 1, r.last() + b));
    }
}

/// Splitting pieces joined with `c` at `c` gives them back, when no piece
/// holds `c`.
pub proof fn lemma_split_join(parts: Seq<Seq<char>>, c: char)
    requires
        parts.len() >= 1,
        forall|i: int| 0 <= i < parts.len() ==> !(#[trigger] parts[i]).contains(c),
    ensures
        split_char(join_char(parts, c), c) == parts,
    decreases parts.len(),
{
    if parts.len() == 1 {
        lemma_split_append_plain(Seq::empty(), parts[0], c);
        assert(Seq::<char>::empty() + parts[0] =~= parts[0]);
        assert(split_char(Seq::<char>::empty(), c) =~= seq![Seq::<char>::empty()]);
        assert(Seq::<char>::empty() + parts[0] =~= parts[0]);
        assert(split_char(parts[0], c) =~= parts);
    } else {
        let init = parts.drop_last();
        assert(forall|i: int| 0 <= i < init.len() ==> !(#[trigger] init[i]).contains(c)) by {
            assert forall|i: int| 0 <= i < init.len() implies !(#[trigger] init[i]).contains(c) by {
                assert(init[i] == parts[i]);
            }
        }
        lemma_split_join(init, c);
        let j = join_char(init, c);
        let jc = j + seq![c];
        assert(jc.drop_last() =~= j);
        assert(jc.last() == c);
        assert(split_char(jc, c) == split_char(j, c).push(Seq::empty()));
        assert(parts.last() == parts[parts.len() - 1]);
        lemma_split_append_plain(jc, parts.last(), c);
        assert(Seq::<char>::empty() + parts.last() =~= parts.last());
        assert(join_char(parts, c) == jc + parts.last());
        assert(split_char(join_char(parts, c), c) =~= parts);
    }
}

pub open spec fn seq_views(v: Seq<Vec<char>>) -> Seq<Seq<char>> {
    v.map_values(|p: Vec<char>| p@)
}

pub fn split_char_exec(s: &[char], c: char) -> (r: Vec<Vec<char>>)
    ensures
        seq_views(r@) == split_char(s@, c),
        r@.len() >= 1,
{
    let mut r: Vec<Vec<char>> = Vec::new();
    r.push(Vec::new());
    let mut i: usize = 0;
    assert(s@.take(0) =~= Seq::<char>::empty());
    assert(seq_views(r@) =~= split_char(s@.take(0), c));
    while i < s.len()
        invariant
            i <= s@.len(),
            r@.len() >= 1,
            seq_views(r@) == split_char(s@.take(i as int), c),
        decreases s@.len() - i,
    {
        let ghost before = seq_views(r@);
        assert(s@.take(i + 1).drop_last() =~= s@.take(i as int));
        assert(s@.take(i + 1).last() == s@[i as int]);
        if s[i] == c {
            r.push(Vec::new());
            assert(seq_views(r@) =~= before.push(Seq::empty()));
        } else {
            let k = r.len() - 1;
            let mut last = r.remove(k);
            last.push(s[i]);
            r.push(last);
            assert(seq_views(r@) =~= before.update(before.len() - 1, before.last().push(s@[i as int])));
        }
        i = i + 1;
    }
    assert(s@.take(s@.len() as int) =~= s@);
    r
}

/// The pieces joined with `c` between them.
pub open spec fn join_char(parts: Seq<Seq<char>>, c: char) -> Seq<char>
    decreases parts.len(),
{
    if parts.len() == 0 {
        Seq::empty()
    } else if parts.len() == 1 {
        parts[0]
    } else {
        join_char(parts.drop_last(), c) + seq![c] + parts.last()
    }
}

pub fn join_char_exec(parts: &Vec<Vec<char>>, c: char) -> (r: Vec<char>)
    ensures
        r@ == join_char(seq_views(parts@), c),
{
    let ghost ps = seq_views(parts@);
    let mut r: Vec<char> = Vec::new();
    let mut i: usize = 0;
    assert(ps.take(0) =~= Seq::<Seq<char>>::empty());
    while i < parts.len()
        invariant
            i <= parts@.len(),
            ps == seq_views(parts@),
            r@ == join_char(ps.take(i as int), c),
        decreases parts@.len() - i,
    {
        let ghost before = r@;
        if i > 0 {
            r.push(c);
        }
        let p = &parts[i];
        let mut k: usize = 0;
        let ghost mid = r@;
        while k < p.len()
            invariant
                k <= p@.len(),
                r@ == mid + p@.take(k as int),
            decreases p@.len() - k,
        {
            r.push(p[k]);
            k = k + 1;
            assert(r@ =~= mid + p@.take(k as int));
        }
        proof {
            assert(p@.take(p@.len() as int) =~= p@);
            let t = ps.take(i + 1);
            assert(t.drop_last() =~= ps.take(i as int));
            assert(t.last() == p@);
            if i == 0 {
                assert(t =~= seq![p@]);
                assert(r@ =~= join_char(t, c));
            } else {
                assert(r@ =~= join_char(t, c));
            }
        }
        i = i + 1;
    }
    assert(ps.take(parts@.len() as int) =~= ps);
    r
}

/// The lines of a file's text, as `str::lines` gives them: split at `\n`,
/// a `\r` before the `\n` dropped, and no empty line after a final `\n`.
pub open spec fn text_lines(s: Seq<char>) -> Seq<Seq<char>> {
    let p = split_char(s, '\n');
    let init = p.take(p.len() - 1).map_values(|l: Seq<char>| strip_cr(l));
    if p.last().len() > 0 { init.push(p.last()) } else { init }
}

pub open spec fn strip_cr(l: Seq<char>) -> Seq<char> {
    if l.len() > 0 && l.last() == '\r' { l.drop_last() } else { l }
}

/// The lines of `s` (see `text_lines`).
pub fn text_lines_exec(s: &[char]) -> (r: Vec<Vec<char>>)
    ensures
        seq_views(r@) == text_lines(s@),
{
    let parts = split_char_exec(s, '\n');
    let mut lines: Vec<Vec<char>> = Vec::new();
    let n = parts.len();
    let mut k: usize = 0;
    while k + 1 < n
        invariant
            n == parts@.len(),
            n >= 1,
            k + 1 <= n,
            seq_views(lines@) == seq_views(parts@).take(k as int).map_values(|l: Seq<char>| strip_cr(l)),
        decreases n - k,
    {
        let mut l = clone_chars(&parts[k]);
        let ll = l.len();
        if ll > 0 && l[ll - 1] == '\r' {
            l.pop();
        }
        assert(l@ == strip_cr(seq_views(parts@)[k as int]));
        let ghost before = seq_views(lines@);
        let ghost lv = l@;
        lines.push(l);
        assert(seq_views(lines@) =~= before.push(lv));
        assert(seq_views(parts@).take(k + 1).map_values(|l: Seq<char>| strip_cr(l)) =~= seq_views(parts@).take(
            k as int,
        ).map_values(|l: Seq<char>| strip_cr(l)).push(strip_cr(seq_views(parts@)[k as int])));
        k = k + 1;
    }
    let last = clone_chars(&parts[n - 1]);
    if last.len() > 0 {
        lines.push(last);
    }
    assert(seq_views(lines@) =~= text_lines(s@));
    lines
}

/// A copy of `v`.
pub fn clone_chars(v: &Vec<char>) -> (r: Vec<char>)
    ensures
        r@ == v@,
{
    let mut r: Vec<char> = Vec::new();
    let mut i: usize = 0;
    while i < v.len()
        invariant
            i <= v@.len(),
            r@ == v@.take(i as int),
        decreases v@.len() - i,
    {
        r.push(v[i]);
        i = i + 1;
        assert(r@ =~= v@.take(i as int));
    }
    assert(v@.take(v@.len() as int) =~= v@);
    r
}


// ---------------------------------------------------------------------
// Byte offsets in UTF-8

/// The number of bytes of `c` in UTF-8.
pub open spec fn width(c: char) -> nat {
    encode_scalar(c as u32).len()
}

/// How many leading characters of `line` fit in `cpl` bytes of UTF-8.
pub open spec fn fit(line: Seq<char>, cpl: nat) -> nat
    decreases line.len(),
{
    if line.len() == 0 {
        0
    } else if width(line[0]) <= cpl {
        1 + fit(line.drop_first(), (cpl - width(line[0])) as nat)
    } else {
        0
    }
}

pub proof fn lemma_fit_le(line: Seq<char>, cpl: nat)
    ensures
        fit(line, cpl) <= line.len(),
    decreases line.len(),
{
    if line.len() > 0 && width(line[0]) <= cpl {
        lemma_fit_le(line.drop_first(), (cpl - width(line[0])) as nat);
    }
}

/// All of `line` fits in `cpl` bytes exactly when its UTF-8 encoding is at
/// most `cpl` bytes long.
pub proof fn lemma_fit_all(line: Seq<char>, cpl: nat)
    ensures
        (fit(line, cpl) == line.len()) == (encode_utf8(line).len() <= cpl),
    decreases line.len(),
{
    lemma_fit_le(line, cpl);
    if line.len() > 0 {
        let w = width(line[0]);
        assert(encode_utf8(line).len() == w + encode_utf8(line.drop_first()).len());
        if w <= cpl {
            lemma_fit_all(line.drop_first(), (cpl - w) as nat);
        }
    }
}

/// When the first `j` characters of `line` take exactly `cpl` bytes, they
/// are the characters that fit: the cut falls where `split_at(cpl)` makes
/// it.
pub proof fn lemma_fit_at_boundary(line: Seq<char>, cpl: nat, j: int)
    requires
        0 <= j <= line.len(),
        encode_utf8(line.take(j)).len() == cpl,
    ensures
        fit(line, cpl) == j,
    decreases line.len(),
{
    if line.len() > 0 {
        let w = width(line[0]);
        if j == 0 {
            assert(line.take(0) =~= Seq::<char>::empty());
            vstd::utf8::char_is_scalar(line[0]);
            assert(w >= 1);
        } else {
            let t = line.take(j);
            assert(t[0] == line[0]);
            assert(t.drop_first() =~= line.drop_first().take(j - 1));
            assert(encode_utf8(t).len() == w + encode_utf8(t.drop_first()).len());
            lemma_fit_at_boundary(line.drop_first(), (cpl - w) as nat, j - 1);
        }
    }
}

/// The length of `s` in bytes of UTF-8.
pub open spec fn blen(s: Seq<char>) -> nat {
    encode_utf8(s).len()
}

/// Byte `b` of the UTF-8 encoding of `s` is where a character starts, or
/// the end: the characters that fit in `b` bytes take exactly `b` bytes.
pub open spec fn is_boundary(s: Seq<char>, b: int) -> bool {
    b >= 0 && blen(s.take(fit(s, b as nat) as int)) == b
}

pub proof fn lemma_width(c: char)
    ensures
        1 <= width(c) <= 4,
        blen(seq![c]) == width(c),
{
    vstd::utf8::char_is_scalar(c);
    let e = Seq::<char>::empty();
    assert(seq![c].drop_first() =~= e);
    assert(encode_utf8(e) =~= Seq::<u8>::empty());
    assert(encode_utf8(seq![c]) =~= encode_scalar(c as u32) + encode_utf8(e));
}

pub proof fn lemma_blen_concat(a: Seq<char>, b: Seq<char>)
    ensures
        blen(a + b) == blen(a) + blen(b),
    decreases a.len(),
{
    if a.len() == 0 {
        assert(a + b =~= b);
    } else {
        assert((a + b).drop_first() =~= a.drop_first() + b);
        assert((a + b)[0] == a[0]);
        lemma_blen_concat(a.drop_first(), b);
    }
}

/// One more character adds its width.
pub proof fn lemma_blen_take_step(s: Seq<char>, i: int)
    requires
        0 <= i < s.len(),
    ensures
        blen(s.take(i + 1)) == blen(s.take(i)) + width(s[i]),
{
    assert(s.take(i + 1) =~= s.take(i) + seq![s[i]]);
    lemma_blen_concat(s.take(i), seq![s[i]]);
    lemma_width(s[i]);
}

/// A prefix takes no more bytes than the whole, and at least one byte
/// per character.
pub proof fn lemma_blen_take_le(s: Seq<char>, i: int)
    requires
        0 <= i <= s.len(),
    ensures
        blen(s.take(i)) <= blen(s),
        i <= blen(s.take(i)),
    decreases i,
{
    assert(s =~= s.take(i) + s.skip(i));
    lemma_blen_concat(s.take(i), s.skip(i));
    if i > 0 {
        lemma_blen_take_le(s, i - 1);
        lemma_blen_take_step(s, i - 1);
    }
}

/// Inserting a character adds its width; removing one takes it away.
pub proof fn lemma_blen_insert_remove(s: Seq<char>, k: int, c: char)
    requires
        0 <= k <= s.len(),
    ensures
        blen(s.insert(k, c)) == blen(s) + width(c),
        k < s.len() ==> blen(s.remove(k)) + width(s[k]) == blen(s),
        k < s.len() ==> blen(s.remove(k).take(k)) == blen(s.take(k)),
{
    assert(s.insert(k, c) =~= s.take(k) + (seq![c] + s.skip(k)));
    assert(s =~= s.take(k) + s.skip(k));
    lemma_blen_concat(s.take(k), seq![c] + s.skip(k));
    lemma_blen_concat(seq![c], s.skip(k));
    lemma_blen_concat(s.take(k), s.skip(k));
    lemma_width(c);
    if k < s.len() {
        assert(s.skip(k) =~= seq![s[k]] + s.skip(k + 1));
        assert(s.remove(k) =~= s.take(k) + s.skip(k + 1));
        assert(s.remove(k).take(k) =~= s.take(k));
        lemma_blen_concat(seq![s[k]], s.skip(k + 1));
        lemma_blen_concat(s.take(k), s.skip(k + 1));
        lemma_width(s[k]);
    }
}

/// The characters that fit in `cpl` bytes take at most `cpl` bytes.
pub proof fn lemma_fit_used(line: Seq<char>, cpl: nat)
    ensures
        blen(line.take(fit(line, cpl) as int)) <= cpl,
    decreases line.len(),
{
    lemma_fit_le(line, cpl);
    if line.len() > 0 && width(line[0]) <= cpl {
        let w = width(line[0]);
        let k = fit(line, cpl) as int;
        lemma_fit_used(line.drop_first(), (cpl - w) as nat);
        assert(line.take(k) =~= seq![line[0]] + line.drop_first().take(k - 1));
        lemma_blen_concat(seq![line[0]], line.drop_first().take(k - 1));
        lemma_width(line[0]);
    } else {
        assert(line.take(fit(line, cpl) as int) =~= Seq::<char>::empty());
    }
}

/// The byte where a character starts is a boundary of the text.
pub proof fn lemma_boundary_at(s: Seq<char>, k: int)
    requires
        0 <= k <= s.len(),
    ensures
        is_boundary(s, blen(s.take(k)) as int),
        fit(s, blen(s.take(k))) == k,
{
    lemma_fit_at_boundary(s, blen(s.take(k)), k);
}

/// The number of bytes of `c` in UTF-8.
pub fn width_exec(c: char) -> (r: usize)
    ensures
        r == width(c),
        1 <= r <= 4,
{
    proof {
        vstd::utf8::char_is_scalar(c);
    }
    let u = c as u32;
    if u <= 0x7F {
        1
    } else if u <= 0x7FF {
        2
    } else if u <= 0xFFFF {
        3
    } else {
        4
    }
}

/// How many leading characters of `line` fit in `cpl` bytes, and how many
/// of the `cpl` bytes they leave over.
pub fn fit_exec(line: &[char], cpl: usize) -> (r: (usize, usize))
    ensures
        r.0 == fit(line@, cpl as nat),
        r.1 + blen(line@.take(r.0 as int)) == cpl,
{
    let mut k: usize = 0;
    let mut budget = cpl;
    assert(line@.skip(0) =~= line@);
    assert(line@.take(0) =~= Seq::<char>::empty());
    while k < line.len()
        invariant
            k <= line@.len(),
            fit(line@, cpl as nat) == k + fit(line@.skip(k as int), budget as nat),
            budget + blen(line@.take(k as int)) == cpl,
        decreases line@.len() - k,
    {
        let w = width_exec(line[k]);
        let ghost rest = line@.skip(k as int);
        assert(rest[0] == line@[k as int]);
        assert(rest.drop_first() =~= line@.skip(k + 1));
        if w > budget {
            return (k, budget);
        }
        proof {
            lemma_blen_take_step(line@, k as int);
        }
        budget = budget - w;
        k = k + 1;
    }
    assert(line@.skip(k as int) =~= Seq::<char>::empty());
    (k, budget)
}

/// The bytes of the first `j` characters of `s`, counted on from `start`,
/// the bytes of the first `i`.
pub fn prefix_bytes(s: &[char], i: usize, j: usize, start: usize) -> (r: usize)
    requires
        i <= j <= s@.len(),
        start == blen(s@.take(i as int)),
        blen(s@) <= usize::MAX,
    ensures
        r == blen(s@.take(j as int)),
        r >= start,
{
    let mut b = start;
    let mut k = i;
    while k < j
        invariant
            i <= k <= j,
            j <= s@.len(),
            b == blen(s@.take(k as int)),
            b >= start,
            blen(s@) <= usize::MAX,
        decreases j - k,
    {
        proof {
            lemma_blen_take_step(s@, k as int);
            lemma_blen_take_le(s@, k + 1);
        }
        b = b + width_exec(s[k]);
        k = k + 1;
    }
    b
}

} // verus!
