//! Spans of time as texts, as far as the library reads them itself.
//!
//! A span is a row of numbers, each with a unit behind it: `2h 37min`.
//! The library leaves the reading of spans to a parser that it calls. That
//! parser holds seconds and nanoseconds in 64 bits each and stops with an
//! error where a number, a product or a sum leaves that range. One span it
//! cannot take at all: seconds of `u64::MAX` beside one full second of
//! nanoseconds, a second more than the longest span there is. This module
//! follows a text as the parser does, far enough to tell whether it names
//! that span.

use crate::query::is_whitespace;
use vstd::prelude::*;
use vstd::std_specs::iter::IteratorSpec;
use vstd::string::*;

verus! {

/// The nanoseconds of a second.
pub const SECOND: u64 = 1_000_000_000;

/// Whether the character is an ASCII decimal digit.
pub open spec fn is_digit(c: char) -> bool {
    48 <= c as u32 <= 57
}

/// The value of a decimal digit.
pub open spec fn digit(c: char) -> int {
    c as u32 - 48
}

/// Whether the character is an ASCII letter.
pub open spec fn is_letter(c: char) -> bool {
    65 <= c as u32 <= 90 || 97 <= c as u32 <= 122
}

/// Where in a span a reader stands.
#[derive(Debug, Clone, Copy, PartialEq, Eq)]
pub enum Place {
    /// Before a number: at the start, or after the whitespace that
    /// follows a unit.
    Gap,
    /// In a number, or in the whitespace after its digits.
    Number,
    /// In the letters of a unit.
    Unit,
}

/// What a reader holds of a span while it goes through its text.
pub struct Reading {
    /// Whether the text has turned out to be no span.
    pub failed: bool,
    pub place: Place,
    /// The number that was read last.
    pub number: int,
    /// Where the unit that is being read begins.
    pub start: int,
    /// The seconds of the terms read so far.
    pub secs: int,
    /// The nanoseconds of the terms read so far, a second at most.
    pub nanos: int,
}

/// The seconds and the nanoseconds that one of a unit is; `None` where the
/// word is no unit.
pub open spec fn scale(unit: Seq<char>) -> Option<(int, int)> {
    if unit == "nanos"@ || unit == "nsec"@ || unit == "ns"@ {
        Some((0, 1))
    } else if unit == "usec"@ || unit == "us"@ {
        Some((0, 1_000))
    } else if unit == "millis"@ || unit == "msec"@ || unit == "ms"@ {
        Some((0, 1_000_000))
    } else if unit == "seconds"@ || unit == "second"@ || unit == "secs"@ || unit == "sec"@
        || unit == "s"@ {
        Some((1, 0))
    } else if unit == "minutes"@ || unit == "minute"@ || unit == "min"@ || unit == "mins"@
        || unit == "m"@ {
        Some((60, 0))
    } else if unit == "hours"@ || unit == "hour"@ || unit == "hr"@ || unit == "hrs"@ || unit
        == "h"@ {
        Some((3_600, 0))
    } else if unit == "days"@ || unit == "day"@ || unit == "d"@ {
        Some((86_400, 0))
    } else if unit == "weeks"@ || unit == "week"@ || unit == "w"@ {
        Some((604_800, 0))
    } else if unit == "months"@ || unit == "month"@ || unit == "M"@ {
        Some((2_630_016, 0))
    } else if unit == "years"@ || unit == "year"@ || unit == "y"@ {
        Some((31_557_600, 0))
    } else {
        None
    }
}

/// The reading that has failed.
pub open spec fn failing(r: Reading) -> Reading {
    Reading { failed: true, ..r }
}

/// The reading after the number read last has got its unit: the number is
/// taken in that unit and added to what was read before; nanoseconds of
/// more than a second are carried over to the seconds. The reading fails
/// where the word is no unit, or where the number in its unit, the sum of
/// the nanoseconds or the sum of the seconds does not fit in 64 bits.
pub open spec fn added(r: Reading, unit: Seq<char>) -> Reading {
    match scale(unit) {
        None => failing(r),
        Some((seconds, nanoseconds)) => {
            let secs = r.number * seconds;
            let nanos = r.nanos + r.number * nanoseconds;
            if secs > u64::MAX || r.number * nanoseconds > u64::MAX || nanos > u64::MAX {
                failing(r)
            } else {
                let carried = if nanos > SECOND {
                    secs + nanos / (SECOND as int)
                } else {
                    secs
                };
                let left = if nanos > SECOND {
                    nanos % (SECOND as int)
                } else {
                    nanos
                };
                if carried > u64::MAX || r.secs + carried > u64::MAX {
                    failing(r)
                } else {
                    Reading { secs: r.secs + carried, nanos: left, ..r }
                }
            }
        },
    }
}

/// The reading after the character at `i` of the text. A number is made
/// of digits, with whitespace between them where there is any; the letters
/// behind it are its unit; after a unit come whitespace or the next
/// number. Any other character, and a number beyond 64 bits, make the
/// reading fail.
pub open spec fn read(r: Reading, text: Seq<char>, i: int) -> Reading {
    let c = text[i];
    if r.failed {
        r
    } else {
        match r.place {
            Place::Gap => if is_digit(c) {
                Reading { place: Place::Number, number: digit(c), ..r }
            } else if is_whitespace(c) {
                r
            } else {
                failing(r)
            },
            Place::Number => if is_digit(c) {
                if r.number * 10 + digit(c) > u64::MAX {
                    failing(r)
                } else {
                    Reading { number: r.number * 10 + digit(c), ..r }
                }
            } else if is_whitespace(c) {
                r
            } else if is_letter(c) {
                Reading { place: Place::Unit, start: i, ..r }
            } else {
                failing(r)
            },
            Place::Unit => if is_digit(c) {
                let a = added(r, text.subrange(r.start, i));
                if a.failed {
                    a
                } else {
                    Reading { place: Place::Number, number: digit(c), ..a }
                }
            } else if is_whitespace(c) {
                let a = added(r, text.subrange(r.start, i));
                if a.failed {
                    a
                } else {
                    Reading { place: Place::Gap, ..a }
                }
            } else if is_letter(c) {
                r
            } else {
                failing(r)
            },
        }
    }
}

/// The reading before any character.
pub open spec fn fresh() -> Reading {
    Reading { failed: false, place: Place::Gap, number: 0, start: 0, secs: 0, nanos: 0 }
}

/// The reading after the first `upto` characters of the text.
pub open spec fn reading(text: Seq<char>, upto: int) -> Reading
    decreases upto,
{
    if upto <= 0 {
        fresh()
    } else {
        read(reading(text, upto - 1), text, upto - 1)
    }
}

/// The reading at the end of the text: a unit that stands last is added;
/// a number without a unit makes the reading fail.
pub open spec fn ending(text: Seq<char>) -> Reading {
    let r = reading(text, text.len() as int);
    if r.failed {
        r
    } else {
        match r.place {
            Place::Gap => r,
            Place::Number => failing(r),
            Place::Unit => added(r, text.subrange(r.start, text.len() as int)),
        }
    }
}

/// Whether the text names the span that is a second longer than the
/// longest: it reads to its end without failing, as seconds of `u64::MAX`
/// and one full second of nanoseconds.
pub open spec fn overlong(text: Seq<char>) -> bool {
    let e = ending(text);
    !e.failed && e.secs == u64::MAX && e.nanos == SECOND
}

/// A reading in 64 bits.
struct Reader {
    failed: bool,
    place: Place,
    number: u64,
    start: usize,
    secs: u64,
    nanos: u64,
}

impl View for Reader {
    type V = Reading;

    closed spec fn view(&self) -> Reading {
        Reading {
            failed: self.failed,
            place: self.place,
            number: self.number as int,
            start: self.start as int,
            secs: self.secs as int,
            nanos: self.nanos as int,
        }
    }
}

/// Whether `c` is whitespace.
fn whitespace(c: char) -> (b: bool)
    ensures
        b == is_whitespace(c),
{
    let n: u32 = c as u32;
    (0x09 <= n && n <= 0x0D) || n == 0x20 || n == 0x85 || n == 0xA0 || n == 0x1680 || (0x2000
        <= n && n <= 0x200A) || n == 0x2028 || n == 0x2029 || n == 0x202F || n == 0x205F || n
        == 0x3000
}

/// The value of `c` where it is a digit.
fn digit_of(c: char) -> (d: Option<u64>)
    ensures
        d is Some == is_digit(c),
        d matches Some(value) ==> value == digit(c),
{
    let n: u32 = c as u32;
    if 48 <= n && n <= 57 {
        Some((n - 48) as u64)
    } else {
        None
    }
}

/// Whether `c` is a letter.
fn letter(c: char) -> (b: bool)
    ensures
        b == is_letter(c),
{
    let n: u32 = c as u32;
    (65 <= n && n <= 90) || (97 <= n && n <= 122)
}

/// Whether the unit is the word.
fn is(unit: &String, word: &str) -> (b: bool)
    ensures
        b == (unit@ == word@),
{
    *unit == word.to_owned()
}

/// The seconds and the nanoseconds that one of the unit is.
fn scale_of(unit: &str) -> (per: Option<(u64, u64)>)
    ensures
        match per {
            Some((seconds, nanoseconds)) => scale(unit@) == Some(
                (seconds as int, nanoseconds as int),
            ),
            None => scale(unit@) is None,
        },
{
    let unit = unit.to_owned();
    if is(&unit, "nanos") || is(&unit, "nsec") || is(&unit, "ns") {
        Some((0, 1))
    } else if is(&unit, "usec") || is(&unit, "us") {
        Some((0, 1_000))
    } else if is(&unit, "millis") || is(&unit, "msec") || is(&unit, "ms") {
        Some((0, 1_000_000))
    } else if is(&unit, "seconds") || is(&unit, "second") || is(&unit, "secs") || is(
        &unit,
        "sec",
    ) || is(&unit, "s") {
        Some((1, 0))
    } else if is(&unit, "minutes") || is(&unit, "minute") || is(&unit, "min") || is(
        &unit,
        "mins",
    ) || is(&unit, "m") {
        Some((60, 0))
    } else if is(&unit, "hours") || is(&unit, "hour") || is(&unit, "hr") || is(&unit, "hrs")
        || is(&unit, "h") {
        Some((3_600, 0))
    } else if is(&unit, "days") || is(&unit, "day") || is(&unit, "d") {
        Some((86_400, 0))
    } else if is(&unit, "weeks") || is(&unit, "week") || is(&unit, "w") {
        Some((604_800, 0))
    } else if is(&unit, "months") || is(&unit, "month") || is(&unit, "M") {
        Some((2_630_016, 0))
    } else if is(&unit, "years") || is(&unit, "year") || is(&unit, "y") {
        Some((31_557_600, 0))
    } else {
        None
    }
}

impl Reader {
    fn failing(self) -> (r: Reader)
        ensures
            r@ == failing(self@),
    {
        Reader {
            failed: true,
            place: self.place,
            number: self.number,
            start: self.start,
            secs: self.secs,
            nanos: self.nanos,
        }
    }

    fn at(self, place: Place, number: u64, start: usize) -> (r: Reader)
        ensures
            r@ == (Reading { place, number: number as int, start: start as int, ..self@ }),
    {
        Reader {
            failed: self.failed,
            place,
            number,
            start,
            secs: self.secs,
            nanos: self.nanos,
        }
    }

    /// The reader after the number read last has got its unit.
    fn added(self, unit: &str) -> (r: Reader)
        ensures
            r@ == added(self@, unit@),
    {
        let (seconds, nanoseconds) = match scale_of(unit) {
            Some(per) => per,
            None => {
                return self.failing();
            },
        };
        let secs = match self.number.checked_mul(seconds) {
            Some(secs) => secs,
            None => {
                return self.failing();
            },
        };
        let more = match self.number.checked_mul(nanoseconds) {
            Some(more) => more,
            None => {
                return self.failing();
            },
        };
        let nanos = match self.nanos.checked_add(more) {
            Some(nanos) => nanos,
            None => {
                return self.failing();
            },
        };
        let (carried, left) = if nanos > SECOND {
            match secs.checked_add(nanos / SECOND) {
                Some(carried) => (carried, nanos % SECOND),
                None => {
                    return self.failing();
                },
            }
        } else {
            (secs, nanos)
        };
        match self.secs.checked_add(carried) {
            Some(sum) => Reader {
                failed: self.failed,
                place: self.place,
                number: self.number,
                start: self.start,
                secs: sum,
                nanos: left,
            },
            None => self.failing(),
        }
    }

    /// The reader after the character `c` at `i` of `s`.
    fn read(self, s: &str, i: usize, c: char) -> (r: Reader)
        requires
            i < s@.len(),
            c == s@[i as int],
            self.start <= i,
        ensures
            r@ == read(self@, s@, i as int),
            r.start <= i,
    {
        if self.failed {
            return self;
        }
        match self.place {
            Place::Gap => match digit_of(c) {
                Some(d) => {
                    let start = self.start;
                    self.at(Place::Number, d, start)
                },
                None => if whitespace(c) {
                    self
                } else {
                    self.failing()
                },
            },
            Place::Number => match digit_of(c) {
                Some(d) => {
                    let longer = match self.number.checked_mul(10) {
                        Some(tens) => tens.checked_add(d),
                        None => None,
                    };
                    match longer {
                        Some(number) => {
                            let start = self.start;
                            self.at(Place::Number, number, start)
                        },
                        None => self.failing(),
                    }
                },
                None => if whitespace(c) {
                    self
                } else if letter(c) {
                    let number = self.number;
                    self.at(Place::Unit, number, i)
                } else {
                    self.failing()
                },
            },
            Place::Unit => match digit_of(c) {
                Some(d) => {
                    let start = self.start;
                    let a = self.added(s.substring_char(start, i));
                    if a.failed {
                        a
                    } else {
                        let start = a.start;
                        a.at(Place::Number, d, start)
                    }
                },
                None => if whitespace(c) {
                    let start = self.start;
                    let a = self.added(s.substring_char(start, i));
                    if a.failed {
                        a
                    } else {
                        let number = a.number;
                        let start = a.start;
                        a.at(Place::Gap, number, start)
                    }
                } else if letter(c) {
                    self
                } else {
                    self.failing()
                },
            },
        }
    }
}

/// Whether `s` names the span that is a second longer than the longest.
pub fn is_overlong(s: &str) -> (b: bool)
    ensures
        b == overlong(s@),
{
    let len = s.unicode_len();
    let mut rest = s.chars();
    let mut r = Reader { failed: false, place: Place::Gap, number: 0, start: 0, secs: 0, nanos: 0 };
    let mut i: usize = 0;
    proof {
        axiom_spec_iter(s);
    }
    while i < len
        invariant
            i <= len == s@.len(),
            rest.remaining() == s@.skip(i as int),
            r@ == reading(s@, i as int),
            r.start <= i,
        decreases len - i,
    {
        let ghost before = rest;
        let next = rest.next();
        proof {
            next_postcondition(&before, &rest, next);
        }
        assert(next == Some(s@[i as int]));
        match next {
            Some(c) => {
                r = r.read(s, i, c);
            },
            None => {},
        }
        i += 1;
    }
    if r.failed {
        return false;
    }
    let e = match r.place {
        Place::Gap => r,
        Place::Number => r.failing(),
        Place::Unit => {
            let start = r.start;
            r.added(s.substring_char(start, len))
        },
    };
    !e.failed && e.secs == u64::MAX && e.nanos == SECOND
}

} // verus!
