//! Durations written as `Ns`, `Mm Ns` or `Hh Mm Ns`, optionally followed by `Wms`.
use vstd::prelude::*;
use crate::text::{chars_of, decimal, matches_at, parse_decimal, span, split, split_at_char};

verus! {

/// A duration by components, each as written (no carrying into larger units).
#[derive(Clone, Copy, Debug, PartialEq, Eq, Structural)]
pub struct Duration {
    pub hour: u64,
    pub minute: u64,
    pub second: u64,
    pub millisecond: u64,
}

/// The number of a word made of digits followed by the unit `u`.
pub open spec fn unit_value(w: Seq<char>, u: Seq<char>) -> Option<u64> {
    if w.len() >= u.len() && w.skip(w.len() - u.len()) == u {
        decimal(w.take(w.len() - u.len()))
    } else {
        None
    }
}

/// The duration that the words `ws` write, milliseconds aside.
pub open spec fn clock_of(ws: Seq<Seq<char>>, ms: u64) -> Option<Duration> {
    if ws.len() == 1 {
        match unit_value(ws[0], "s"@) {
            Some(s) => Some(Duration { hour: 0, minute: 0, second: s, millisecond: ms }),
            None => None,
        }
    } else if ws.len() == 2 {
        match (unit_value(ws[0], "m"@), unit_value(ws[1], "s"@)) {
            (Some(m), Some(s)) => Some(Duration { hour: 0, minute: m, second: s, millisecond: ms }),
            _ => None,
        }
    } else if ws.len() == 3 {
        match (unit_value(ws[0], "h"@), unit_value(ws[1], "m"@), unit_value(ws[2], "s"@)) {
            (Some(h), Some(m), Some(s)) => Some(
                Duration { hour: h, minute: m, second: s, millisecond: ms },
            ),
            _ => None,
        }
    } else {
        None
    }
}

/// The duration that `s` writes; `None` where it is malformed.
pub open spec fn duration_of(s: Seq<char>) -> Option<Duration> {
    let ws = split(s, ' ');
    let n = ws.len();
    if n >= 2 && unit_value(ws[n - 1], "ms"@) is Some {
        clock_of(ws.take(n - 1), unit_value(ws[n - 1], "ms"@)->0)
    } else {
        clock_of(ws, 0)
    }
}

/// The number of the word `w`, which must end in `unit`.
fn parse_unit(w: &Vec<char>, unit: &str) -> (r: Option<u64>)
    ensures
        r == unit_value(w@, unit@),
{
    let u = chars_of(unit);
    if w.len() < u.len() {
        return None;
    }
    let k = w.len() - u.len();
    if !matches_at(w, &u, k) {
        assert(w@.skip(k as int) =~= w@.subrange(k as int, w@.len() as int));
        return None;
    }
    assert(w@.skip(k as int) =~= w@.subrange(k as int, w@.len() as int));
    let digits = span(w, 0, k);
    assert(digits@ =~= w@.take(k as int));
    parse_decimal(&digits)
}

fn parse_clock(ws: &Vec<Vec<char>>, n: usize, ms: u64) -> (r: Option<Duration>)
    requires
        n <= ws@.len(),
    ensures
        r == clock_of(ws@.map_values(|v: Vec<char>| v@).take(n as int), ms),
{
    let ghost wv = ws@.map_values(|v: Vec<char>| v@).take(n as int);
    assert(wv.len() == n);
    if n == 1 {
        assert(wv[0] == ws@[0]@);
        match parse_unit(&ws[0], "s") {
            Some(s) => Some(Duration { hour: 0, minute: 0, second: s, millisecond: ms }),
            None => None,
        }
    } else if n == 2 {
        assert(wv[0] == ws@[0]@ && wv[1] == ws@[1]@);
        let m = parse_unit(&ws[0], "m");
        let s = parse_unit(&ws[1], "s");
        match (m, s) {
            (Some(m), Some(s)) => Some(Duration { hour: 0, minute: m, second: s, millisecond: ms }),
            _ => None,
        }
    } else if n == 3 {
        assert(wv[0] == ws@[0]@ && wv[1] == ws@[1]@ && wv[2] == ws@[2]@);
        let h = parse_unit(&ws[0], "h");
        let m = parse_unit(&ws[1], "m");
        let s = parse_unit(&ws[2], "s");
        match (h, m, s) {
            (Some(h), Some(m), Some(s)) => Some(
                Duration { hour: h, minute: m, second: s, millisecond: ms },
            ),
            _ => None,
        }
    } else {
        None
    }
}

impl Duration {
    /// Reads a duration; `None` where a word lacks its unit or holds anything but digits.
    pub fn parse(s: &Vec<char>) -> (r: Option<Duration>)
        ensures
            r == duration_of(s@),
    {
        let ws = split_at_char(s, ' ');
        let ghost wv = ws@.map_values(|v: Vec<char>| v@);
        let n = ws.len();
        assert(wv.len() == n);
        if n >= 2 {
            assert(wv[n - 1] == ws@[n - 1]@);
            match parse_unit(&ws[n - 1], "ms") {
                Some(ms) => {
                    return parse_clock(&ws, n - 1, ms);
                },
                None => {},
            }
        }
        assert(wv.take(n as int) =~= wv);
        parse_clock(&ws, n, 0)
    }
}

} // verus!
