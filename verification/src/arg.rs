//! Command arguments: the kinds of value that a command slot accepts, and the
//! bytes that each puts on the wire.

use vstd::prelude::*;
use vstd::string::StringSliceAdditionalSpecFns;

use crate::wire::{cmd_cursor, cmd_slots, push_bytes, push_number, push_text};

verus! {

/// The ASCII code of the decimal digit `d`.
pub open spec fn digit(d: nat) -> u8
    recommends
        d < 10,
{
    (48 + d) as u8
}

/// The decimal digits of `n` as ASCII bytes, most significant first, without
/// leading zeros; zero is the single digit `0`.
pub open spec fn decimal(n: nat) -> Seq<u8>
    decreases n,
{
    if n < 10 {
        seq![digit(n)]
    } else {
        decimal(n / 10).push(digit(n % 10))
    }
}

/// One argument of a command. A value of another kind is handed over as
/// its text or as its bytes.
#[derive(Clone, Copy, Debug)]
pub enum Arg<'a> {
    /// Text, sent as its UTF-8 bytes.
    Text(&'a str),
    /// Bytes, sent as they are.
    Bytes(&'a [u8]),
    /// A number, sent in decimal digits.
    Number(usize),
}

impl<'a> Arg<'a> {
    /// The bytes that this argument puts on the wire.
    pub open spec fn wire(self) -> Seq<u8> {
        match self {
            Arg::Text(text) => text.spec_bytes(),
            Arg::Bytes(bytes) => bytes@,
            Arg::Number(number) => decimal(number as nat),
        }
    }
}

/// Appends one argument to a command: one more slot with the argument's wire
/// bytes. The slots before it and the cursor stay as they were.
pub fn push_arg(cmd: &mut redis::Cmd, arg: Arg<'_>)
    ensures
        cmd_slots(*final(cmd)) == cmd_slots(*old(cmd)).push(Some(arg.wire())),
        cmd_cursor(*final(cmd)) == cmd_cursor(*old(cmd)),
{
    match arg {
        Arg::Text(text) => push_text(cmd, text),
        Arg::Bytes(bytes) => push_bytes(cmd, bytes),
        Arg::Number(number) => push_number(cmd, number),
    }
}

/// Different numbers have different decimal digits: two records whose keys
/// are different numbers never share a key on the wire.
pub proof fn lemma_decimal_injective(a: nat, b: nat)
    requires
        decimal(a) == decimal(b),
    ensures
        a == b,
    decreases a,
{
    lemma_decimal_len(a);
    lemma_decimal_len(b);
    if a < 10 || b < 10 {
        assert(decimal(a).len() == decimal(b).len());
        assert(a < 10 && b < 10);
        assert(decimal(a)[0] == digit(a));
        assert(decimal(b)[0] == digit(b));
    } else {
        assert(decimal(a).drop_last() == decimal(a / 10));
        assert(decimal(b).drop_last() == decimal(b / 10));
        assert(decimal(a).last() == digit(a % 10));
        assert(decimal(b).last() == digit(b % 10));
        lemma_decimal_injective(a / 10, b / 10);
        assert(a % 10 == b % 10);
    }
}

/// A number below ten has one digit and every other number has more.
proof fn lemma_decimal_len(n: nat)
    ensures
        n < 10 <==> decimal(n).len() == 1,
        decimal(n).len() >= 1,
    decreases n,
{
    if n >= 10 {
        lemma_decimal_len(n / 10);
    }
}

} // verus!
