//! The calculator: a keypad, a display, and one pending operation.
//!
//! The display and the remembered operand are kept as the text they were
//! typed or shown as; the host does the floating-point arithmetic of `=`
//! and hands back the result's text.

use crate::ipc::Rgba;
use crate::services::wm::arith::{add_w, wadd};
use crate::text::{chars_of, clone_chars, seq_views, string_of};
use crate::ui::list::{append_cmds, list_views, new_button, ListButton};
use crate::ui::panel::{clicked, panel_draw, panel_press, panel_move, panel_release, Panel};
use crate::ui::{button_view, draw_views, push_text, rect_v, text_v, Button, ButtonView, DrawCmd, DrawView, Window};
use vstd::prelude::*;

verus! {

pub open spec fn is_digit(c: char) -> bool {
    '0' <= c && c <= '9'
}

pub open spec fn lower(c: char) -> char {
    if 'A' <= c && c <= 'Z' { ((c as int) + 32) as char } else { c }
}

/// `s` equals `word` ignoring the case of ASCII letters.
pub open spec fn eq_ignore_case(s: Seq<char>, word: Seq<char>) -> bool {
    s.len() == word.len() && forall|i: int| 0 <= i < s.len() ==> lower(#[trigger] s[i]) == word[i]
}

pub open spec fn all_digits(s: Seq<char>) -> bool {
    forall|i: int| 0 <= i < s.len() ==> is_digit(#[trigger] s[i])
}

/// The index of the first `c` in `s` (its length when there is none).
pub open spec fn index_of(s: Seq<char>, c: char) -> int
    decreases s.len(),
{
    if s.len() == 0 {
        0
    } else if lower(s[0]) == c {
        0
    } else {
        1 + index_of(s.drop_first(), c)
    }
}

/// An exponent: `e` or `E`, an optional sign, digits.
pub open spec fn is_exponent(s: Seq<char>) -> bool {
    s.len() >= 2 && lower(s[0]) == 'e' && {
        let r = s.drop_first();
        let d = if r[0] == '+' || r[0] == '-' { r.drop_first() } else { r };
        d.len() > 0 && all_digits(d)
    }
}

/// Digits with at most one `.` and at least one digit.
pub open spec fn is_mantissa(s: Seq<char>) -> bool {
    let k = index_of(s, '.');
    if k >= s.len() {
        s.len() > 0 && all_digits(s)
    } else {
        s.len() >= 2 && all_digits(s.take(k)) && all_digits(s.skip(k + 1))
    }
}

/// A mantissa, then an optional exponent.
pub open spec fn is_number(s: Seq<char>) -> bool {
    let m = index_of(s, 'e');
    is_mantissa(s.take(m)) && (m >= s.len() || is_exponent(s.skip(m)))
}

/// What `str::parse::<f64>` accepts: an optional sign, then `inf`,
/// `infinity`, `nan` (in any case) or a decimal number. This is std's
/// documented grammar for `f64::from_str`, written out over characters
/// because the library holds no floating-point values: it decides whether
/// an entry is a number, and the host computes its value.
pub open spec fn is_float(s: Seq<char>) -> bool {
    let r = if s.len() > 0 && (s[0] == '+' || s[0] == '-') { s.drop_first() } else { s };
    eq_ignore_case(r, "inf"@) || eq_ignore_case(r, "infinity"@) || eq_ignore_case(r, "nan"@) || is_number(r)
}

proof fn lemma_index_of(s: Seq<char>, c: char)
    ensures
        0 <= index_of(s, c) <= s.len(),
        forall|i: int| 0 <= i < index_of(s, c) ==> lower(#[trigger] s[i]) != c,
        index_of(s, c) < s.len() ==> lower(s[index_of(s, c)]) == c,
    decreases s.len(),
{
    if s.len() > 0 && lower(s[0]) != c {
        lemma_index_of(s.drop_first(), c);
        assert forall|i: int| 0 <= i < index_of(s, c) implies lower(#[trigger] s[i]) != c by {
            if i > 0 {
                assert(s[i] == s.drop_first()[i - 1]);
            }
        }
    }
}

fn lower_exec(c: char) -> (r: char)
    ensures
        r == lower(c),
{
    if 'A' <= c && c <= 'Z' {
        let u = c as u32 + 32;
        let b = u as u8;
        assert((b as char) == ((c as int) + 32) as char);
        b as char
    } else {
        c
    }
}

fn index_of_exec(s: &[char], c: char) -> (r: usize)
    ensures
        r == index_of(s@, c),
{
    proof { lemma_index_of(s@, c); }
    let mut i: usize = 0;
    while i < s.len()
        invariant
            i <= s@.len(),
            forall|j: int| 0 <= j < i ==> lower(#[trigger] s@[j]) != c,
            0 <= index_of(s@, c) <= s@.len(),
            forall|j: int| 0 <= j < index_of(s@, c) ==> lower(#[trigger] s@[j]) != c,
            index_of(s@, c) < s@.len() ==> lower(s@[index_of(s@, c)]) == c,
        decreases s@.len() - i,
    {
        if lower_exec(s[i]) == c {
            return i;
        }
        i = i + 1;
    }
    i
}

fn all_digits_exec(s: &[char], from: usize, to: usize) -> (r: bool)
    requires
        from <= to <= s@.len(),
    ensures
        r == all_digits(s@.subrange(from as int, to as int)),
{
    let mut i = from;
    while i < to
        invariant
            from <= i <= to,
            to <= s@.len(),
            forall|j: int| from <= j < i ==> is_digit(#[trigger] s@[j]),
        decreases to - i,
    {
        if !('0' <= s[i] && s[i] <= '9') {
            assert(s@.subrange(from as int, to as int)[i - from] == s@[i as int]);
            return false;
        }
        i = i + 1;
    }
    assert forall|j: int| 0 <= j < to - from implies is_digit(#[trigger] s@.subrange(from as int, to as int)[j]) by {
        assert(s@.subrange(from as int, to as int)[j] == s@[from + j]);
    }
    true
}

fn eq_ignore_case_exec(s: &[char], from: usize, word: &str) -> (r: bool)
    requires
        from <= s@.len(),
    ensures
        r == eq_ignore_case(s@.skip(from as int), word@),
{
    let w = chars_of(word);
    let n = s.len();
    if n - from != w.len() {
        return false;
    }
    let mut i: usize = 0;
    while i < w.len()
        invariant
            n == s@.len(),
            i <= w@.len(),
            w@ == word@,
            from <= s@.len(),
            s@.len() - from == w@.len(),
            forall|j: int| 0 <= j < i ==> lower(#[trigger] s@.skip(from as int)[j]) == w@[j],
        decreases w@.len() - i,
    {
        assert(s@.skip(from as int)[i as int] == s@[from + i]);
        if lower_exec(s[from + i]) != w[i] {
            return false;
        }
        i = i + 1;
    }
    true
}

fn take_chars(v: &Vec<char>, n: usize) -> (r: Vec<char>)
    requires
        n <= v@.len(),
    ensures
        r@ == v@.take(n as int),
{
    let mut r: Vec<char> = Vec::new();
    let mut i: usize = 0;
    while i < n
        invariant
            i <= n,
            n <= v@.len(),
            r@ == v@.take(i as int),
        decreases n - i,
    {
        r.push(v[i]);
        i = i + 1;
        assert(r@ =~= v@.take(i as int));
    }
    r
}

/// Whether `str::parse::<f64>` accepts `s`.
pub fn is_float_exec(s: &[char]) -> (r: bool)
    ensures
        r == is_float(s@),
{
    let start: usize = if s.len() > 0 && (s[0] == '+' || s[0] == '-') { 1 } else { 0 };
    let ghost rr = if s@.len() > 0 && (s@[0] == '+' || s@[0] == '-') { s@.drop_first() } else { s@ };
    assert(rr =~= s@.skip(start as int));
    if eq_ignore_case_exec(s, start, "inf") || eq_ignore_case_exec(s, start, "infinity") || eq_ignore_case_exec(s, start, "nan") {
        return true;
    }
    let mut r: Vec<char> = Vec::new();
    let mut i = start;
    while i < s.len()
        invariant
            start <= i <= s@.len(),
            r@ == s@.subrange(start as int, i as int),
        decreases s@.len() - i,
    {
        r.push(s[i]);
        i = i + 1;
        assert(r@ =~= s@.subrange(start as int, i as int));
    }
    assert(r@ =~= rr);
    let m = index_of_exec(r.as_slice(), 'e');
    proof { lemma_index_of(r@, 'e'); }
    let mant_v = take_chars(&r, m);
    let k = index_of_exec(mant_v.as_slice(), '.');
    let ghost mant = r@.take(m as int);
    proof { lemma_index_of(mant, '.'); }
    let mant_ok = if k >= m {
        m > 0 && all_digits_exec(r.as_slice(), 0, m)
    } else {
        m >= 2 && all_digits_exec(r.as_slice(), 0, k) && all_digits_exec(r.as_slice(), k + 1, m)
    };
    proof {
        assert(r@.subrange(0, m as int) =~= mant);
        if k < m {
            assert(r@.subrange(0, k as int) =~= mant.take(k as int));
            assert(r@.subrange(k + 1, m as int) =~= mant.skip(k + 1));
        }
    }
    if !mant_ok {
        return false;
    }
    if m >= r.len() {
        return true;
    }
    // an exponent
    if r.len() - m < 2 {
        return false;
    }
    let sign = r[m + 1] == '+' || r[m + 1] == '-';
    let d0 = if sign { m + 2 } else { m + 1 };
    let ok = d0 < r.len() && all_digits_exec(r.as_slice(), d0, r.len());
    proof {
        let e = r@.skip(m as int);
        let rest = e.drop_first();
        let d = if rest[0] == '+' || rest[0] == '-' { rest.drop_first() } else { rest };
        assert(d =~= r@.subrange(d0 as int, r@.len() as int));
        assert(lower(e[0]) == 'e');
    }
    ok
}

/// The calculator as a mathematical value. `pending` holds an `=` that
/// waits for the host's arithmetic: left operand, operator, right operand.
pub struct CalcView {
    pub win: Window,
    pub display: Seq<char>,
    pub previous: Seq<char>,
    pub op: Option<char>,
    pub buttons: Seq<(ButtonView, i32, i32)>,
    pub pending: Option<(Seq<char>, char, Seq<char>)>,
}

pub open spec fn is_operator(t: Seq<char>) -> bool {
    t == "+"@ || t == "-"@ || t == "*"@ || t == "/"@
}

/// A click on the key labelled `t`.
pub open spec fn calc_click(c: CalcView, t: Seq<char>) -> CalcView {
    if t == "C"@ {
        CalcView { display: "0"@, previous: "0"@, op: None, ..c }
    } else if is_operator(t) {
        CalcView {
            previous: if is_float(c.display) { c.display } else { c.previous },
            op: Some(t[0]),
            display: "0"@,
            ..c
        }
    } else if t == "="@ {
        match c.op {
            Some(o) => if is_float(c.display) { CalcView { pending: Some((c.previous, o, c.display)), ..c } } else { c },
            None => c,
        }
    } else if c.display == "0"@ {
        CalcView { display: t, ..c }
    } else {
        CalcView { display: c.display + t, ..c }
    }
}

pub open spec fn calc_clicks(c: CalcView, ts: Seq<Seq<char>>) -> CalcView
    decreases ts.len(),
{
    if ts.len() == 0 {
        c
    } else {
        calc_click(calc_clicks(c, ts.drop_last()), ts.last())
    }
}

/// The keys, in the order they are laid out.
pub open spec fn layout() -> Seq<(Seq<char>, i32, i32)> {
    seq![
        ("7"@, 10i32, 70i32), ("8"@, 65i32, 70i32), ("9"@, 120i32, 70i32), ("/"@, 175i32, 70i32),
        ("4"@, 10i32, 125i32), ("5"@, 65i32, 125i32), ("6"@, 120i32, 125i32), ("*"@, 175i32, 125i32),
        ("1"@, 10i32, 180i32), ("2"@, 65i32, 180i32), ("3"@, 120i32, 180i32), ("-"@, 175i32, 180i32),
        ("C"@, 10i32, 235i32), ("0"@, 65i32, 235i32), ("="@, 120i32, 235i32), ("+"@, 175i32, 235i32),
    ]
}

/// An `=` for the host to work out.
pub struct Compute {
    pub lhs: String,
    pub op: char,
    pub rhs: String,
}

/// The calculator.
pub struct Calculator {
    win: Window,
    display: Vec<char>,
    previous: Vec<char>,
    op: Option<char>,
    panel: Panel,
    pending: Option<(Vec<char>, char, Vec<char>)>,
}

impl Calculator {
    pub closed spec fn view(&self) -> CalcView {
        CalcView {
            win: self.win,
            display: self.display@,
            previous: self.previous@,
            op: self.op,
            buttons: self.panel.view(),
            pending: match self.pending {
                Some((a, o, b)) => Some((a@, o, b@)),
                None => None,
            },
        }
    }

    /// A calculator in window `win` showing 0.
    pub fn new(win: Window) -> (c: Self)
        ensures
            c.view().win == win,
            c.view().display == "0"@,
            c.view().previous == "0"@,
            c.view().op is None,
            c.view().pending is None,
            c.view().buttons == layout().map_values(|l: (Seq<char>, i32, i32)| (new_button(l.0, 45, 45), l.1, l.2)),
    {
        let mut bs: Vec<ListButton> = Vec::new();
        bs.push(ListButton { button: Button::new("7", 45, 45), rel_x: 10, rel_y: 70 });
        bs.push(ListButton { button: Button::new("8", 45, 45), rel_x: 65, rel_y: 70 });
        bs.push(ListButton { button: Button::new("9", 45, 45), rel_x: 120, rel_y: 70 });
        bs.push(ListButton { button: Button::new("/", 45, 45), rel_x: 175, rel_y: 70 });
        bs.push(ListButton { button: Button::new("4", 45, 45), rel_x: 10, rel_y: 125 });
        bs.push(ListButton { button: Button::new("5", 45, 45), rel_x: 65, rel_y: 125 });
        bs.push(ListButton { button: Button::new("6", 45, 45), rel_x: 120, rel_y: 125 });
        bs.push(ListButton { button: Button::new("*", 45, 45), rel_x: 175, rel_y: 125 });
        bs.push(ListButton { button: Button::new("1", 45, 45), rel_x: 10, rel_y: 180 });
        bs.push(ListButton { button: Button::new("2", 45, 45), rel_x: 65, rel_y: 180 });
        bs.push(ListButton { button: Button::new("3", 45, 45), rel_x: 120, rel_y: 180 });
        bs.push(ListButton { button: Button::new("-", 45, 45), rel_x: 175, rel_y: 180 });
        bs.push(ListButton { button: Button::new("C", 45, 45), rel_x: 10, rel_y: 235 });
        bs.push(ListButton { button: Button::new("0", 45, 45), rel_x: 65, rel_y: 235 });
        bs.push(ListButton { button: Button::new("=", 45, 45), rel_x: 120, rel_y: 235 });
        bs.push(ListButton { button: Button::new("+", 45, 45), rel_x: 175, rel_y: 235 });
        let c = Self { win, display: chars_of("0"), previous: chars_of("0"), op: None, panel: Panel { buttons: bs }, pending: None };
        assert(c.view().buttons =~= layout().map_values(|l: (Seq<char>, i32, i32)| (new_button(l.0, 45, 45), l.1, l.2)));
        c
    }

    fn click(&mut self, t: &Vec<char>)
        ensures
            final(self).view() == calc_click(old(self).view(), t@),
    {
        proof {
            reveal_strlit("C");
            reveal_strlit("+");
            reveal_strlit("-");
            reveal_strlit("*");
            reveal_strlit("/");
            reveal_strlit("=");
            reveal_strlit("0");
        }
        let one = t.len() == 1;
        if one && t[0] == 'C' {
            assert(t@ =~= "C"@);
            self.display = chars_of("0");
            self.previous = chars_of("0");
            self.op = None;
        } else if one && (t[0] == '+' || t[0] == '-' || t[0] == '*' || t[0] == '/') {
            assert(is_operator(t@)) by {
                if t@[0] == '+' { assert(t@ =~= "+"@); }
                if t@[0] == '-' { assert(t@ =~= "-"@); }
                if t@[0] == '*' { assert(t@ =~= "*"@); }
                if t@[0] == '/' { assert(t@ =~= "/"@); }
            }
            assert(!(t@ =~= "C"@));
            if is_float_exec(self.display.as_slice()) {
                self.previous = clone_chars(&self.display);
            }
            self.op = Some(t[0]);
            self.display = chars_of("0");
        } else if one && t[0] == '=' {
            assert(t@ =~= "="@);
            match self.op {
                Some(o) => {
                    if is_float_exec(self.display.as_slice()) {
                        self.pending = Some((clone_chars(&self.previous), o, clone_chars(&self.display)));
                    }
                },
                None => {},
            }
        } else {
            proof {
                assert(t@ != "C"@);
                assert(!is_operator(t@));
                assert(t@ != "="@);
            }
            if self.display.len() == 1 && self.display[0] == '0' {
                assert(self.display@ =~= "0"@);
                self.display = clone_chars(t);
            } else {
                assert(self.display@ != "0"@);
                let mut k: usize = 0;
                let ghost d0 = self.display@;
                while k < t.len()
                    invariant
                        k <= t@.len(),
                        self.display@ == d0 + t@.take(k as int),
                        self.win == old(self).win,
                        self.previous == old(self).previous,
                        self.op == old(self).op,
                        self.panel == old(self).panel,
                        self.pending == old(self).pending,
                    decreases t@.len() - k,
                {
                    self.display.push(t[k]);
                    k = k + 1;
                    assert(self.display@ =~= d0 + t@.take(k as int));
                }
                assert(t@.take(t@.len() as int) =~= t@);
            }
        }
    }

    /// Takes the `=` that waits for the host's arithmetic, if any.
    pub fn take_compute(&mut self) -> (r: Option<Compute>)
        ensures
            match old(self).view().pending {
                Some((a, o, b)) => r is Some && r->0.lhs@ == a && r->0.op == o && r->0.rhs@ == b,
                None => r is None,
            },
            final(self).view() == (CalcView { pending: None, ..old(self).view() }),
    {
        match self.pending.take() {
            Some((a, o, b)) => Some(Compute { lhs: string_of(a.as_slice()), op: o, rhs: string_of(b.as_slice()) }),
            None => None,
        }
    }

    /// The result of the `=`, as text, becomes the display.
    pub fn set_result(&mut self, text: &str)
        ensures
            final(self).view() == (CalcView { display: text@, op: None, ..old(self).view() }),
    {
        self.display = chars_of(text);
        self.op = None;
    }

    /// What the display shows.
    pub fn display(&self) -> (r: String)
        ensures
            r@ == self.view().display,
    {
        string_of(self.display.as_slice())
    }

    /// Moves the window and draws a frame.
    pub fn tick(&mut self, x: i32, y: i32, w: i32, h: i32) -> (cmds: Vec<DrawCmd>)
        ensures
            final(self).view() == (CalcView { win: Window { x, y, w, h, ..old(self).view().win }, ..old(self).view() }),
            draw_views(cmds@) == seq![
                rect_v(x, y, w, h, Rgba { r: 20, g: 20, b: 25, a: 100 }),
                text_v(wadd(x, 20), wadd(y, 30), old(self).view().display, 24, Rgba { r: 100, g: 100, b: 100, a: 100 }),
            ] + panel_draw(old(self).view().buttons, old(self).view().buttons.len() as int, x, y),
    {
        self.win.x = x;
        self.win.y = y;
        self.win.w = w;
        self.win.h = h;
        let mut cmds = self.win.draw_background(Rgba { r: 20, g: 20, b: 25, a: 100 });
        push_text(&mut cmds, add_w(x, 20), add_w(y, 30), string_of(self.display.as_slice()), 24, Rgba { r: 100, g: 100, b: 100, a: 100 });
        let p = self.panel.draw(x, y);
        append_cmds(&mut cmds, p);
        cmds
    }

    /// The keys track the pointer; 1 when a hover changed.
    pub fn handle_mouse_move(&mut self, mx: i32, my: i32) -> (redraw: i32)
        ensures
            final(self).view() == (CalcView { buttons: panel_move(old(self).view().buttons, mx, my, old(self).view().win.x, old(self).view().win.y), ..old(self).view() }),
            redraw == (if exists|j: int| 0 <= j < old(self).view().buttons.len() && #[trigger] crate::ui::panel::hover_changes(old(self).view().buttons, j, mx, my, old(self).view().win.x, old(self).view().win.y) { 1i32 } else { 0i32 }),
    {
        if self.panel.mouse_move(mx, my, self.win.x, self.win.y) { 1 } else { 0 }
    }

    /// A press presses the key under the pointer; 1 when one was hit.
    pub fn handle_mouse_down(&mut self, mx: i32, my: i32) -> (redraw: i32)
        ensures
            final(self).view() == (CalcView { buttons: panel_press(old(self).view().buttons, mx, my, old(self).view().win.x, old(self).view().win.y), ..old(self).view() }),
            redraw == (if exists|j: int| 0 <= j < old(self).view().buttons.len() && #[trigger] crate::ui::panel::press_lands(old(self).view().buttons, j, mx, my, old(self).view().win.x, old(self).view().win.y) { 1i32 } else { 0i32 }),
    {
        if self.panel.mouse_down(mx, my, self.win.x, self.win.y) { 1 } else { 0 }
    }

    /// A release clicks the pressed key under the pointer; 1 when a key was
    /// let go.
    pub fn handle_mouse_up(&mut self, mx: i32, my: i32) -> (redraw: i32)
        ensures
            ({
                let c = old(self).view();
                let ts = clicked(c.buttons, c.buttons.len() as int, mx, my, c.win.x, c.win.y);
                final(self).view() == calc_clicks(CalcView { buttons: panel_release(c.buttons), ..c }, ts)
            }),
            redraw == (if exists|j: int| 0 <= j < old(self).view().buttons.len() && #[trigger] crate::ui::panel::is_pressed(old(self).view().buttons, j) { 1i32 } else { 0i32 }),
    {
        let (redraw, clicks) = self.panel.mouse_up(mx, my, self.win.x, self.win.y);
        let ghost c1 = self.view();
        let ghost ts = clicks@.map_values(|t: Vec<char>| t@);
        let mut i: usize = 0;
        assert(ts.take(0) =~= Seq::<Seq<char>>::empty());
        while i < clicks.len()
            invariant
                i <= clicks@.len(),
                ts == clicks@.map_values(|t: Vec<char>| t@),
                self.view() == calc_clicks(c1, ts.take(i as int)),
            decreases clicks@.len() - i,
        {
            self.click(&clicks[i]);
            proof {
                assert(ts.take(i + 1).drop_last() =~= ts.take(i as int));
                assert(ts.take(i + 1).last() == clicks@[i as int]@);
            }
            i = i + 1;
        }
        assert(ts.take(clicks@.len() as int) =~= ts);
        if redraw { 1 } else { 0 }
    }
}

/// Clicking an operator key makes that operator the pending one and
/// starts a fresh entry; a later `=` on a valid entry hands exactly that
/// operator, with the kept and the current entry, to the computation.
pub proof fn law_operator_then_equals(c: CalcView, o: char)
    requires
        o == '+' || o == '-' || o == '*' || o == '/',
    ensures
        calc_click(c, seq![o]).op == Some(o),
        calc_click(c, seq![o]).display == seq!['0'],
        forall|d: CalcView| d.op == Some(o) && is_float(d.display) ==> (#[trigger] calc_click(d, "="@)).pending
            == Some((d.previous, o, d.display)),
{
    reveal_strlit("+");
    reveal_strlit("-");
    reveal_strlit("*");
    reveal_strlit("/");
    reveal_strlit("C");
    reveal_strlit("=");
    reveal_strlit("0");
    assert(seq![o][0] == o);
    assert("0"@ =~= seq!['0']);
    if o == '+' { assert(seq![o] =~= "+"@); }
    if o == '-' { assert(seq![o] =~= "-"@); }
    if o == '*' { assert(seq![o] =~= "*"@); }
    if o == '/' { assert(seq![o] =~= "/"@); }
    assert(seq![o] != "C"@) by {
        assert(seq![o][0] != "C"@[0]);
    }
    assert forall|d: CalcView| d.op == Some(o) && is_float(d.display) implies (#[trigger] calc_click(d, "="@)).pending
        == Some((d.previous, o, d.display)) by {
        assert("="@ != "C"@) by {
            assert("="@[0] != "C"@[0]);
        }
        assert(!is_operator("="@)) by {
            assert("="@[0] != "+"@[0] && "="@[0] != "-"@[0] && "="@[0] != "*"@[0] && "="@[0] != "/"@[0]);
        }
    }
}

/// A digit key appends its digit to the entry (replacing a lone `0`) and
/// leaves the kept value, the pending operator and the computation alone;
/// `C` clears the entry and the kept value and forgets the operator.
pub proof fn law_digits_and_clear(c: CalcView, d: char)
    requires
        '0' <= d <= '9',
    ensures
        calc_click(c, seq![d]).display == (if c.display == seq!['0'] { seq![d] } else { c.display.push(d) }),
        calc_click(c, seq![d]).previous == c.previous,
        calc_click(c, seq![d]).op == c.op,
        calc_click(c, seq![d]).pending == c.pending,
        calc_click(c, seq!['C']).display == seq!['0'],
        calc_click(c, seq!['C']).previous == seq!['0'],
        calc_click(c, seq!['C']).op is None,
{
    reveal_strlit("+");
    reveal_strlit("-");
    reveal_strlit("*");
    reveal_strlit("/");
    reveal_strlit("C");
    reveal_strlit("=");
    reveal_strlit("0");
    let t = seq![d];
    assert("0"@ =~= seq!['0']);
    assert("C"@ =~= seq!['C']);
    assert(t != "C"@ && t != "="@ && !is_operator(t)) by {
        assert(t[0] != "C"@[0] && t[0] != "="@[0]);
        assert(t[0] != "+"@[0] && t[0] != "-"@[0] && t[0] != "*"@[0] && t[0] != "/"@[0]);
    }
    assert(c.display + t =~= c.display.push(d));
}

} // verus!
