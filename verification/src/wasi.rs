//! The one WASI call that programs make of the kernel: writing to standard
//! output or standard error, which shows in the active terminal.

use vstd::prelude::*;
use vstd::utf8::{
    codepoint_width_1, codepoint_width_2, codepoint_width_3, codepoint_width_4, decode_first_codepoint,
    length_of_first_codepoint, pop_first_scalar, valid_first_scalar, valid_leading_and_continuation_bytes_first_codepoint,
    valid_utf8,
};

verus! {

/// Whether `bytes` are well-formed UTF-8, as `std::str::from_utf8`
/// decides it: each scalar a leading byte with the right number of
/// continuation bytes, not overlong and not a surrogate.
pub fn is_utf8(bytes: &[u8]) -> (r: bool)
    ensures
        r == valid_utf8(bytes@),
{
    let n = bytes.len();
    let mut i: usize = 0;
    assert(bytes@.skip(0) =~= bytes@);
    while i < n
        invariant
            i <= n,
            n == bytes@.len(),
            valid_utf8(bytes@) == valid_utf8(bytes@.skip(i as int)),
        decreases n - i,
    {
        let ghost rest = bytes@.skip(i as int);
        let b0 = bytes[i];
        assert(rest[0] == b0);
        let len: usize;
        let cp: u32;
        if b0 <= 0x7f {
            len = 1;
            cp = (b0 & 0x7F) as u32;
            assert(cp == codepoint_width_1(b0));
        } else if 0xc0 <= b0 && b0 <= 0xdf {
            if n - i < 2 || !(0x80 <= bytes[i + 1] && bytes[i + 1] <= 0xbf) {
                return false;
            }
            let b1 = bytes[i + 1];
            assert(rest[1] == b1);
            len = 2;
            cp = (((b0 & 0x1F) as u32) << 6) | ((b1 & 0x3f) as u32);
            assert(cp == codepoint_width_2(b0, b1));
        } else if 0xe0 <= b0 && b0 <= 0xef {
            if n - i < 3 || !(0x80 <= bytes[i + 1] && bytes[i + 1] <= 0xbf) || !(0x80 <= bytes[i + 2] && bytes[i + 2] <= 0xbf) {
                return false;
            }
            let b1 = bytes[i + 1];
            let b2 = bytes[i + 2];
            assert(rest[1] == b1 && rest[2] == b2);
            len = 3;
            cp = (((b0 & 0x0F) as u32) << 12) | (((b1 & 0x3f) as u32) << 6) | ((b2 & 0x3f) as u32);
            assert(cp == codepoint_width_3(b0, b1, b2));
        } else if 0xf0 <= b0 && b0 <= 0xf7 {
            if n - i < 4 || !(0x80 <= bytes[i + 1] && bytes[i + 1] <= 0xbf) || !(0x80 <= bytes[i + 2] && bytes[i + 2] <= 0xbf)
                || !(0x80 <= bytes[i + 3] && bytes[i + 3] <= 0xbf) {
                return false;
            }
            let b1 = bytes[i + 1];
            let b2 = bytes[i + 2];
            let b3 = bytes[i + 3];
            assert(rest[1] == b1 && rest[2] == b2 && rest[3] == b3);
            len = 4;
            cp = (((b0 & 0x07) as u32) << 18) | (((b1 & 0x3f) as u32) << 12) | (((b2 & 0x3f) as u32) << 6) | ((b3 & 0x3f) as u32);
            assert(cp == codepoint_width_4(b0, b1, b2, b3));
        } else {
            return false;
        }
        assert(valid_leading_and_continuation_bytes_first_codepoint(rest));
        assert(decode_first_codepoint(rest) == cp);
        assert(length_of_first_codepoint(rest) == len);
        if len == 2 && cp < 0x80 {
            return false;
        }
        if len == 3 && cp < 0x800 {
            return false;
        }
        if len == 4 && (cp < 0x10000 || cp > 0x10ffff) {
            return false;
        }
        if 0xD800 <= cp && cp <= 0xDFFF {
            return false;
        }
        assert(valid_first_scalar(rest));
        assert(pop_first_scalar(rest) =~= bytes@.skip(i + len));
        i = i + len;
    }
    assert(bytes@.skip(n as int) =~= Seq::<u8>::empty());
    true
}

/// The outcome of a write: the WASI error number (0 for success, 8 for a
/// bad descriptor), the pieces to print with the terminal they go to, and
/// the byte count to store for the caller.
#[derive(Debug)]
pub struct FdWrite {
    pub errno: u32,
    pub prints: Vec<(u32, Vec<u8>)>,
    pub nwritten: Option<u32>,
}

/// The total length of the buffers.
pub open spec fn total_len(bufs: Seq<Seq<u8>>) -> nat
    decreases bufs.len(),
{
    if bufs.len() == 0 {
        0
    } else {
        total_len(bufs.drop_last()) + bufs.last().len()
    }
}

/// The buffers that are well-formed UTF-8, each going to terminal `id`.
pub open spec fn printed(bufs: Seq<Seq<u8>>, id: u32) -> Seq<(u32, Seq<u8>)>
    decreases bufs.len(),
{
    if bufs.len() == 0 {
        Seq::empty()
    } else {
        printed(bufs.drop_last(), id) + if valid_utf8(bufs.last()) { seq![(id, bufs.last())] } else { Seq::empty() }
    }
}

pub open spec fn prints_view(ps: Seq<(u32, Vec<u8>)>) -> Seq<(u32, Seq<u8>)> {
    ps.map_values(|p: (u32, Vec<u8>)| (p.0, p.1@))
}

/// A write of the buffers `iovs` to descriptor `fd`, with `terminal` the
/// active terminal (terminal 0 when there is none). Only standard output
/// and standard error can be written; a buffer that is not UTF-8 is
/// skipped but counted as written. The count is stored in 32 bits.
pub fn handle_fd_write(fd: u32, iovs: &Vec<Vec<u8>>, terminal: Option<u32>) -> (r: FdWrite)
    ensures
        ({
            let bufs = iovs@.map_values(|b: Vec<u8>| b@);
            let id = match terminal {
                Some(t) => t,
                None => 0,
            };
            if fd != 1 && fd != 2 {
                r.errno == 8 && r.prints@.len() == 0 && r.nwritten is None
            } else {
                &&& r.errno == 0
                &&& prints_view(r.prints@) == printed(bufs, id)
                &&& r.nwritten == Some((total_len(bufs) % 0x1_0000_0000) as u32)
            }
        }),
{
    let mut prints: Vec<(u32, Vec<u8>)> = Vec::new();
    if fd != 1 && fd != 2 {
        return FdWrite { errno: 8, prints, nwritten: None };
    }
    let id = match terminal {
        Some(t) => t,
        None => 0,
    };
    let ghost bufs = iovs@.map_values(|b: Vec<u8>| b@);
    let mut total: u32 = 0;
    let mut i: usize = 0;
    while i < iovs.len()
        invariant
            i <= iovs@.len(),
            bufs == iovs@.map_values(|b: Vec<u8>| b@),
            prints_view(prints@) == printed(bufs.take(i as int), id),
            total as nat == total_len(bufs.take(i as int)) % 0x1_0000_0000,
        decreases iovs@.len() - i,
    {
        let b = &iovs[i];
        let ghost before = prints_view(prints@);
        let ghost t0 = total_len(bufs.take(i as int));
        proof {
            assert(bufs.take(i + 1).drop_last() =~= bufs.take(i as int));
            assert(bufs.take(i + 1).last() == b@);
        }
        if is_utf8(b.as_slice()) {
            prints.push((id, b.clone()));
            assert(prints_view(prints@) =~= before.push((id, b@)));
        } else {
            assert(prints_view(prints@) =~= before);
        }
        let len32 = ((b.len() as u64) % 0x1_0000_0000u64) as u32;
        proof {
            let l = b@.len() as int;
            assert(total_len(bufs.take(i + 1)) == t0 + l);
            vstd::arithmetic::div_mod::lemma_add_mod_noop(t0 as int, l, 0x1_0000_0000);
        }
        total = total.wrapping_add(len32);
        i = i + 1;
    }
    assert(bufs.take(iovs@.len() as int) =~= bufs);
    FdWrite { errno: 0, prints, nwritten: Some(total) }
}

} // verus!
