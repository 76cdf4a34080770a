//! What a line typed at the simulator means: a press, a coin, a module
//! dropping out, or quitting.

use vstd::prelude::*;
use vstd::string::*;
use crate::link::ModuleId;
use crate::text::{chars_of, string_of, trim, trim_bounds};

verus! {

/// What a typed line asks the simulator to do.
#[derive(Debug)]
pub enum Keystroke {
    /// `q`: stop.
    Quit,
    /// An empty line: nothing.
    Blank,
    /// `$` or `$n`: post a coin the acceptor reads as `pulses` pulses.
    Coin { pulses: u8 },
    /// `$` followed by something that is not a pulse count.
    BadPulses { text: String },
    /// `-id`: make the module drop out, as if it lost power.
    Drop { id: ModuleId },
    /// `id`: press the module's button.
    Press { id: ModuleId },
}

/// Whether `c` is an ASCII decimal digit.
pub open spec fn is_digit_char(c: char) -> bool {
    '0' <= c && c <= '9'
}

/// The value of a run of decimal digits.
pub open spec fn char_digits_value(ds: Seq<char>) -> int
    decreases ds.len(),
{
    if ds.len() == 0 { 0 } else { char_digits_value(ds.drop_last()) * 10 + (ds.last() as int - '0' as int) }
}

/// What `str::parse::<u8>` makes of `s`: an optional `+`, then at least one
/// digit and nothing else, worth at most 255.
pub open spec fn u8_value(s: Seq<char>) -> Option<u8> {
    if all_digits(unsigned(s)) && char_digits_value(unsigned(s)) <= 255 {
        Some(char_digits_value(unsigned(s)) as u8)
    } else {
        None
    }
}

/// `s` without a leading `+`.
pub open spec fn unsigned(s: Seq<char>) -> Seq<char> {
    if s.len() > 0 && s[0] == '+' { s.drop_first() } else { s }
}

/// At least one character, every one a decimal digit.
pub open spec fn all_digits(ds: Seq<char>) -> bool {
    ds.len() > 0 && forall|i: int| 0 <= i < ds.len() ==> is_digit_char(#[trigger] ds[i])
}

/// A longer run of digits is never worth less than its prefix.
proof fn lemma_value_grows(ds: Seq<char>, n: int)
    requires
        0 <= n <= ds.len(),
        forall|i: int| 0 <= i < ds.len() ==> is_digit_char(#[trigger] ds[i]),
    ensures
        0 <= char_digits_value(ds.take(n)) <= char_digits_value(ds),
    decreases ds.len() - n,
{
    if n < ds.len() {
        lemma_value_grows(ds, n + 1);
        assert(ds.take(n + 1).drop_last() == ds.take(n));
    } else {
        assert(ds.take(n) == ds);
    }
    lemma_value_nonneg(ds.take(n));
}

/// Digits are worth nothing negative.
proof fn lemma_value_nonneg(ds: Seq<char>)
    requires
        forall|i: int| 0 <= i < ds.len() ==> is_digit_char(#[trigger] ds[i]),
    ensures
        char_digits_value(ds) >= 0,
    decreases ds.len(),
{
    if ds.len() > 0 {
        lemma_value_nonneg(ds.drop_last());
    }
}

/// Read `chars[from..to]` as a pulse count, as `str::parse::<u8>` does.
fn parse_u8(chars: &Vec<char>, from: usize, to: usize) -> (value: Option<u8>)
    requires
        from <= to <= chars@.len(),
    ensures
        value == u8_value(chars@.subrange(from as int, to as int)),
{
    let ghost s = chars@.subrange(from as int, to as int);
    let mut start = from;
    if from < to && chars[from] == '+' {
        start = from + 1;
    }
    let ghost ds = chars@.subrange(start as int, to as int);
    assert(ds == unsigned(s));
    if start == to {
        return None;
    }
    let mut value: u32 = 0;
    let mut i = start;
    while i < to
        invariant
            from <= start <= i <= to <= chars@.len(),
            start < to,
            ds == chars@.subrange(start as int, to as int),
            s == chars@.subrange(from as int, to as int),
            ds == unsigned(s),
            forall|k: int| start <= k < i ==> is_digit_char(#[trigger] chars@[k]),
            value == char_digits_value(chars@.subrange(start as int, i as int)),
            value <= 255,
        decreases to - i,
    {
        let c = chars[i];
        assert(chars@.subrange(start as int, i + 1).drop_last() == chars@.subrange(start as int, i as int));
        if !('0' <= c && c <= '9') {
            proof {
                let k = i - start;
                assert(ds[k] == c);
                assert(!is_digit_char(ds[k]));
                assert(!all_digits(ds));
            }
            return None;
        }
        value = value * 10 + (c as u32 - '0' as u32);
        assert(value == char_digits_value(chars@.subrange(start as int, i + 1)));
        if value > 255 {
            proof {
                assert(ds.take(i + 1 - start) == chars@.subrange(start as int, i + 1));
                if all_digits(ds) {
                    lemma_value_grows(ds, i + 1 - start);
                    assert(char_digits_value(ds) > 255);
                }
            }
            return None;
        }
        i += 1;
    }
    proof {
        assert forall|k: int| 0 <= k < ds.len() implies is_digit_char(#[trigger] ds[k]) by {
            assert(ds[k] == chars@[start + k]);
        }
    }
    Some(value as u8)
}

/// How a trimmed line is read: `q` quits, an empty line does nothing, `$`
/// posts a coin (of one pulse, or of the count after it), `-id` drops a
/// module, and anything else presses the module it names.
pub open spec fn keystroke_fits(k: Keystroke, line: Seq<char>) -> bool {
    let t = trim(line);
    if t == "q"@ {
        k is Quit
    } else if t.len() == 0 {
        k is Blank
    } else if t[0] == '$' {
        let n = trim(t.drop_first());
        if n.len() == 0 {
            k == Keystroke::Coin { pulses: 1 }
        } else {
            match u8_value(n) {
                Some(p) => k == Keystroke::Coin { pulses: p },
                None => k matches Keystroke::BadPulses { text } && text@ == n,
            }
        }
    } else if t[0] == '-' {
        k matches Keystroke::Drop { id } && id@ == t.drop_first()
    } else {
        k matches Keystroke::Press { id } && id@ == t
    }
}

/// Read a line typed at the simulator.
pub fn parse_keystroke(line: &str) -> (k: Keystroke)
    ensures
        keystroke_fits(k, line@),
{
    let chars = chars_of(line);
    let (lo, hi) = trim_bounds(&chars, 0, chars.len());
    let ghost t = chars@.subrange(lo as int, hi as int);
    assert(chars@.subrange(0, chars@.len() as int) == line@);
    proof {
        reveal_strlit("q");
        assert("q"@.len() == 1 && "q"@[0] == 'q');
    }
    if hi - lo == 1 && chars[lo] == 'q' {
        assert(t == "q"@);
        return Keystroke::Quit;
    }
    if lo == hi {
        return Keystroke::Blank;
    }
    assert(t != "q"@);
    if chars[lo] == '$' {
        let (a, b) = trim_bounds(&chars, lo + 1, hi);
        assert(chars@.subrange(lo + 1, hi as int) == t.drop_first());
        if a == b {
            return Keystroke::Coin { pulses: 1 };
        }
        return match parse_u8(&chars, a, b) {
            Some(p) => Keystroke::Coin { pulses: p },
            None => Keystroke::BadPulses { text: string_of(&chars, a, b) },
        };
    }
    if chars[lo] == '-' {
        let id = string_of(&chars, lo + 1, hi);
        assert(chars@.subrange(lo + 1, hi as int) == t.drop_first());
        return Keystroke::Drop { id: ModuleId(id) };
    }
    Keystroke::Press { id: ModuleId(string_of(&chars, lo, hi)) }
}

} // verus!
