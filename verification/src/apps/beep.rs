//! The beep program: a tone of a given pitch, length and wave form.

use crate::text::{chars_of, parse_u32, parse_u32_exec};
use vstd::prelude::*;

verus! {

/// The length in milliseconds and the wave form asked for: the second and
/// third arguments when they read as numbers, else 200 ms of a sine wave
/// (form 0). The pitch, the first argument, is a decimal fraction that the
/// host reads.
pub open spec fn settings(args: Seq<Seq<char>>) -> (u32, u32) {
    let dur = if args.len() > 2 {
        match parse_u32(args[2]) {
            Some(d) => d,
            None => 200,
        }
    } else {
        200
    };
    let wave = if args.len() > 3 {
        match parse_u32(args[3]) {
            Some(w) => w,
            None => 0,
        }
    } else {
        0
    };
    (dur, wave)
}

/// The length and wave form of the tone for the program's arguments
/// (program name first).
pub fn beep_settings(args: &Vec<String>) -> (r: (u32, u32))
    ensures
        r == settings(args@.map_values(|a: String| a@)),
{
    let ghost av = args@.map_values(|a: String| a@);
    let mut dur: u32 = 200;
    let mut wave: u32 = 0;
    if args.len() > 2 {
        assert(av[2] == args@[2]@);
        match parse_u32_exec(chars_of(args[2].as_str()).as_slice()) {
            Some(d) => {
                dur = d;
            },
            None => {},
        }
    }
    if args.len() > 3 {
        assert(av[3] == args@[3]@);
        match parse_u32_exec(chars_of(args[3].as_str()).as_slice()) {
            Some(w) => {
                wave = w;
            },
            None => {},
        }
    }
    (dur, wave)
}

} // verus!
