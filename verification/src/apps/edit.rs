//! The line editor: it shows a file, then appends the lines typed until
//! `.exit` and saves the file.

use crate::text::{chars_of, copy_str, decimal, decimal_u64};
use vstd::prelude::*;
use vstd::utf8::encode_utf8;

verus! {

/// What the editor prints before reading: the file name, the existing
/// content between rules (with a line break added when it lacks a final
/// one), and how to finish.
pub open spec fn banner(filename: Seq<char>, content: Seq<char>) -> Seq<char> {
    "Editing: "@ + filename + "\n"@
        + (if content.len() == 0 {
            Seq::empty()
        } else {
            "--- Existing Content ---\n"@ + content + (if content.last() != '\n' { "\n"@ } else { Seq::empty() })
                + "------------------------\n"@
        })
        + "Type your text below. Type '.exit' on a new line to save and quit.\n"@
}

/// The banner for `filename` with its current `content`.
pub fn edit_banner(filename: &str, content: &str) -> (r: String)
    ensures
        r@ == banner(filename@, content@),
{
    let mut out = copy_str("Editing: ");
    out.append(filename);
    out.append("\n");
    let c = chars_of(content);
    if c.len() > 0 {
        out.append("--- Existing Content ---\n");
        out.append(content);
        if c[c.len() - 1] != '\n' {
            out.append("\n");
        }
        out.append("------------------------\n");
    }
    out.append("Type your text below. Type '.exit' on a new line to save and quit.\n");
    proof {
        reveal_strlit("\n");
    }
    assert(out@ =~= banner(filename@, content@));
    out
}

/// An editing session: the file's content and the lines typed so far.
pub struct EditSession {
    content: String,
    typed: String,
    finished: bool,
}

impl EditSession {
    pub closed spec fn text(&self) -> (Seq<char>, Seq<char>, bool) {
        (self.content@, self.typed@, self.finished)
    }

    /// A session on a file with `content` (empty for a new file).
    pub fn new(content: String) -> (s: Self)
        ensures
            s.text() == (content@, Seq::<char>::empty(), false),
    {
        EditSession { content, typed: String::new(), finished: false }
    }

    /// Takes one line typed: `.exit` ends the session, any other line is
    /// added. Gives back whether to read on.
    pub fn feed_line(&mut self, line: &str) -> (more: bool)
        requires
            !old(self).text().2,
        ensures
            more == (line@ != ".exit"@),
            more ==> final(self).text() == (old(self).text().0, old(self).text().1 + line@ + "\n"@, false),
            !more ==> final(self).text() == (old(self).text().0, old(self).text().1, true),
    {
        if crate::text::str_eq(line, ".exit") {
            self.finished = true;
            false
        } else {
            self.typed.append(line);
            self.typed.append("\n");
            true
        }
    }

    /// The text to save: the old content followed by the lines typed.
    pub fn final_content(&self) -> (r: String)
        ensures
            r@ == self.text().0 + self.text().1,
    {
        let mut r = self.content.clone();
        r.append(self.typed.as_str());
        r
    }
}

/// The number of bytes of `s` in UTF-8.
pub fn byte_len(s: &str) -> (n: usize)
    ensures
        n == encode_utf8(s@).len(),
{
    let mut v: Vec<u8> = Vec::new();
    crate::text::push_bytes(&mut v, s);
    assert(v@ =~= encode_utf8(s@));
    v.len()
}

/// What the editor reports after saving `content` to `filename`.
pub fn saved_message(content: &str, filename: &str) -> (r: String)
    ensures
        r@ == "Saved "@ + decimal(encode_utf8(content@).len()) + " bytes to "@ + filename@,
{
    let n = byte_len(content);
    let mut m = copy_str("Saved ");
    let d = decimal_u64(n as u64);
    m.append(d.as_str());
    m.append(" bytes to ");
    m.append(filename);
    m
}

} // verus!
