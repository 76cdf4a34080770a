//! The coin-operated motor: a coin acceptor that reports `COIN:<value>` and a
//! motor that spins for longer the more the coin was worth.

use vstd::prelude::*;
use crate::text::decimal;

verus! {

/// Whether `b` is an ASCII decimal digit.
pub open spec fn is_digit(b: u8) -> bool {
    48 <= b <= 57
}

/// The value of a run of decimal digits.
pub open spec fn digits_value(ds: Seq<u8>) -> int
    decreases ds.len(),
{
    if ds.len() == 0 { 0 } else { digits_value(ds.drop_last()) * 10 + (ds.last() - 48) }
}

/// The prefix of a coin report.
pub open spec fn coin_prefix() -> Seq<u8> {
    seq![67u8, 79u8, 73u8, 78u8, 58u8]
}

/// What follows `COIN:` in a coin report, less an optional `+`.
pub open spec fn coin_digits(bytes: Seq<u8>) -> Seq<u8> {
    let rest = bytes.skip(5);
    if rest.len() > 0 && rest[0] == 43u8 { rest.skip(1) } else { rest }
}

/// The number a coin report carries: `COIN:` followed by a `u32` written in
/// decimal (an optional `+`, then at least one digit, nothing else).
pub open spec fn coin_value(bytes: Seq<u8>) -> Option<u32> {
    if bytes.len() < 5 || bytes.take(5) != coin_prefix() {
        None
    } else {
        let ds = coin_digits(bytes);
        if ds.len() > 0 && (forall|i: int| 0 <= i < ds.len() ==> is_digit(#[trigger] ds[i]))
            && digits_value(ds) <= u32::MAX {
            Some(digits_value(ds) as u32)
        } else {
            None
        }
    }
}

/// Read a coin report: the value after `COIN:`, or `None` for any other
/// notification.
pub fn parse_coin_message(bytes: &[u8]) -> (value: Option<u32>)
    ensures
        value == coin_value(bytes@),
{
    if bytes.len() < 5 || bytes[0] != 67 || bytes[1] != 79 || bytes[2] != 73 || bytes[3] != 78 || bytes[4] != 58 {
        proof {
            if bytes@.len() >= 5 {
                assert(bytes@.take(5) != coin_prefix()) by {
                    if bytes@.take(5) == coin_prefix() {
                        assert(bytes@.take(5)[0] == bytes@[0]);
                        assert(bytes@.take(5)[1] == bytes@[1]);
                        assert(bytes@.take(5)[2] == bytes@[2]);
                        assert(bytes@.take(5)[3] == bytes@[3]);
                        assert(bytes@.take(5)[4] == bytes@[4]);
                    }
                }
            }
        }
        return None;
    }
    assert(bytes@.take(5) =~= coin_prefix());
    let mut start: usize = 5;
    if bytes.len() > 5 && bytes[5] == 43 {
        start = 6;
    }
    let ghost ds = coin_digits(bytes@);
    assert(ds =~= bytes@.skip(start as int));
    if start == bytes.len() {
        return None;
    }
    let mut value: u64 = 0;
    let mut i: usize = start;
    while i < bytes.len()
        invariant
            start <= i <= bytes@.len(),
            bytes@.len() >= 5,
            bytes@.take(5) == coin_prefix(),
            ds == coin_digits(bytes@),
            ds == bytes@.skip(start as int),
            forall|k: int| start <= k < i ==> is_digit(#[trigger] bytes@[k]),
            value == digits_value(bytes@.subrange(start as int, i as int)),
            value <= u32::MAX,
        decreases bytes@.len() - i,
    {
        let b = bytes[i];
        assert(bytes@.subrange(start as int, i + 1).drop_last() == bytes@.subrange(start as int, i as int));
        if b < 48 || b > 57 {
            proof {
                let k = (i - start) as int;
                assert(ds[k] == b);
                assert(!is_digit(ds[k]));
                assert(!(forall|j: int| 0 <= j < ds.len() ==> is_digit(#[trigger] ds[j])));
            }
            return None;
        }
        value = value * 10 + (b - 48) as u64;
        assert(value == digits_value(bytes@.subrange(start as int, i + 1)));
        if value > 0xffff_ffff {
            proof {
                assert(bytes@.subrange(start as int, bytes@.len() as int) == ds);
                assert(ds.take(i + 1 - start) == bytes@.subrange(start as int, i + 1));
                if forall|k: int| 0 <= k < ds.len() ==> is_digit(#[trigger] ds[k]) {
                    lemma_digits_grow(ds, (i + 1 - start) as int);
                    assert(digits_value(ds) > u32::MAX);
                }
            }
            return None;
        }
        i += 1;
    }
    assert(bytes@.subrange(start as int, bytes@.len() as int) == ds);
    Some(value as u32)
}

/// A longer run of digits is never worth less than its prefix.
proof fn lemma_digits_grow(ds: Seq<u8>, n: int)
    requires
        0 <= n <= ds.len(),
        forall|i: int| 0 <= i < ds.len() ==> is_digit(#[trigger] ds[i]),
    ensures
        digits_value(ds.take(n)) <= digits_value(ds),
    decreases ds.len() - n,
{
    if n < ds.len() {
        lemma_digits_grow(ds, n + 1);
        assert(ds.take(n + 1).drop_last() == ds.take(n));
        assert(digits_value(ds.take(n)) >= 0) by { lemma_digits_nonneg(ds.take(n)); }
    } else {
        assert(ds.take(n) == ds);
    }
}

/// Digits are worth nothing negative.
proof fn lemma_digits_nonneg(ds: Seq<u8>)
    requires
        forall|i: int| 0 <= i < ds.len() ==> is_digit(#[trigger] ds[i]),
    ensures
        digits_value(ds) >= 0,
    decreases ds.len(),
{
    if ds.len() > 0 {
        lemma_digits_nonneg(ds.drop_last());
    }
}

/// How long the motor spins for a coin worth `coin`, in milliseconds.
pub open spec fn spin_ms(coin: u32) -> u64 {
    if coin == 100 { 2000 } else if coin == 50 { 1000 } else { 500 }
}

/// Only a coin worth exactly 100 spins the motor for 2 s and only exactly 50
/// for 1 s; every other coin, larger or smaller, spins it half a second.
pub proof fn law_only_exact_coins_spin_longer(coin: u32)
    ensures
        spin_ms(coin) == 2000 <==> coin == 100,
        spin_ms(coin) == 1000 <==> coin == 50,
        coin != 100 && coin != 50 ==> spin_ms(coin) == 500,
{
}

/// How long the motor spins for a coin: 2 s for 100, 1 s for 50, half a
/// second for anything else.
pub fn spin_duration_ms(coin: u32) -> (ms: u64)
    ensures
        ms == spin_ms(coin),
        ms == 2000 <==> coin == 100,
        ms == 1000 <==> coin == 50,
        coin != 100 && coin != 50 ==> ms == 500,
{
    if coin == 100 {
        2000
    } else if coin == 50 {
        1000
    } else {
        500
    }
}

/// The bytes `SPIN:<ms>` that make the motor spin for a coin.
pub fn spin_command(coin: u32) -> (command: Vec<u8>)
    ensures
        command@ == seq![83u8, 80u8, 73u8, 78u8, 58u8] + decimal(spin_ms(coin) as nat).map_values(|c: char| c as u8),
        // `SPIN:2000` for a 100, `SPIN:1000` for a 50, `SPIN:500` for anything else.
        coin == 100 ==> command@ == seq![83u8, 80u8, 73u8, 78u8, 58u8, 50u8, 48u8, 48u8, 48u8],
        coin == 50 ==> command@ == seq![83u8, 80u8, 73u8, 78u8, 58u8, 49u8, 48u8, 48u8, 48u8],
        coin != 100 && coin != 50 ==> command@ == seq![83u8, 80u8, 73u8, 78u8, 58u8, 53u8, 48u8, 48u8],
{
    let ms = spin_duration_ms(coin);
    let mut command: Vec<u8> = vec![83, 80, 73, 78, 58];
    let digits: Vec<u8> = if ms == 2000 {
        vec![50, 48, 48, 48]
    } else if ms == 1000 {
        vec![49, 48, 48, 48]
    } else {
        vec![53, 48, 48]
    };
    proof {
        reveal_with_fuel(decimal, 5);
    }
    let mut i: usize = 0;
    let ghost head = command@;
    while i < digits.len()
        invariant
            i <= digits@.len(),
            command@ == head + digits@.take(i as int),
        decreases digits@.len() - i,
    {
        command.push(digits[i]);
        assert(digits@.take(i + 1) == digits@.take(i as int).push(digits@[i as int]));
        i += 1;
    }
    assert(digits@.take(digits@.len() as int) == digits@);
    assert(digits@ == decimal(ms as nat).map_values(|c: char| c as u8));
    command
}

/// A coin input wired to a motor.
pub struct Brain<R, M> {
    pub coin_input: R,
    pub motor: M,
}

impl<R, M> Brain<R, M> {
    /// Wire a coin input to a motor.
    pub fn new(coin_input: R, motor: M) -> (brain: Self)
        ensures
            brain.coin_input == coin_input,
            brain.motor == motor,
    {
        Brain { coin_input, motor }
    }
}

} // verus!
