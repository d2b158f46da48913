//! The boundary to code that is not verified here: the two types of the
//! `redis` crate that the library handles, and one thin function per outside
//! call, each with the contract that the rest of the library relies on
//! without proof.

use vstd::prelude::*;
use vstd::string::StringSliceAdditionalSpecFns;
use vstd::utf8::valid_utf8;

use crate::arg::decimal;

verus! {

#[verifier::external_type_specification]
#[verifier::external_body]
pub struct ExCmd(redis::Cmd);

#[verifier::external_type_specification]
#[verifier::external_body]
pub struct ExValue(redis::Value);

/// The argument slots of a command in the order in which they are sent, the
/// verb first. A slot holds its bytes, or `None` where the cursor stands.
pub uninterp spec fn cmd_slots(cmd: redis::Cmd) -> Seq<Option<Seq<u8>>>;

/// The cursor that a command carries, if it has a cursor slot.
pub uninterp spec fn cmd_cursor(cmd: redis::Cmd) -> Option<u64>;

/// The payload of a reply that is a single byte buffer, and `None` for a
/// reply of any other shape.
pub uninterp spec fn value_data(value: redis::Value) -> Option<Seq<u8>>;

/// `redis::cmd`: a fresh command whose only slot is the verb, as the bytes of
/// the given text. It has no cursor slot.
#[verifier::external_body]
pub(crate) fn new_command(verb: &str) -> (cmd: redis::Cmd)
    ensures
        cmd_slots(cmd) == seq![Some(verb.spec_bytes())],
        cmd_cursor(cmd) is None,
{
    redis::cmd(verb)
}

/// `redis::Cmd::arg` on a byte slice: appends one slot that holds exactly
/// these bytes (an empty slice gives an empty slot), and leaves the cursor as
/// it was.
#[verifier::external_body]
pub(crate) fn push_bytes(cmd: &mut redis::Cmd, bytes: &[u8])
    ensures
        cmd_slots(*final(cmd)) == cmd_slots(*old(cmd)).push(Some(bytes@)),
        cmd_cursor(*final(cmd)) == cmd_cursor(*old(cmd)),
{
    cmd.arg(bytes);
}

/// `redis::Cmd::arg` on a string slice: appends one slot that holds the bytes
/// of the text, and leaves the cursor as it was.
#[verifier::external_body]
pub(crate) fn push_text(cmd: &mut redis::Cmd, text: &str)
    ensures
        cmd_slots(*final(cmd)) == cmd_slots(*old(cmd)).push(Some(text.spec_bytes())),
        cmd_cursor(*final(cmd)) == cmd_cursor(*old(cmd)),
{
    cmd.arg(text);
}

/// `redis::Cmd::arg` on a `usize`: appends one slot that holds the number in
/// decimal digits, without sign or leading zeros, and leaves the cursor as it
/// was.
#[verifier::external_body]
pub(crate) fn push_number(cmd: &mut redis::Cmd, number: usize)
    ensures
        cmd_slots(*final(cmd)) == cmd_slots(*old(cmd)).push(Some(decimal(number as nat))),
        cmd_cursor(*final(cmd)) == cmd_cursor(*old(cmd)),
{
    cmd.arg(number);
}

/// `redis::Cmd::cursor_arg`: appends the cursor slot and records the cursor.
/// The outside function panics on a command that already has a cursor slot,
/// so such a command is not admitted.
#[verifier::external_body]
pub(crate) fn push_cursor(cmd: &mut redis::Cmd, cursor: u64)
    requires
        cmd_cursor(*old(cmd)) is None,
    ensures
        cmd_slots(*final(cmd)) == cmd_slots(*old(cmd)).push(None),
        cmd_cursor(*final(cmd)) == Some(cursor),
{
    cmd.cursor_arg(cursor);
}

/// Tells the variants of `redis::Value` apart: hands out the bytes of a
/// `Data` reply, and nothing for any other variant.
#[verifier::external_body]
pub(crate) fn data_of(value: &redis::Value) -> (data: Option<&[u8]>)
    ensures
        match data {
            Some(bytes) => value_data(*value) == Some(bytes@),
            None => value_data(*value) is None,
        },
{
    match value {
        redis::Value::Data(bytes) => Some(bytes.as_slice()),
        redis::Value::Nil => None,
        redis::Value::Int(_) => None,
        redis::Value::Bulk(_) => None,
        redis::Value::Status(_) => None,
        redis::Value::Okay => None,
    }
}

/// `std::str::from_utf8`: the bytes as text where they are valid UTF-8, and
/// nothing where they are not.
#[verifier::external_body]
pub(crate) fn utf8<'a>(bytes: &'a [u8]) -> (text: Option<&'a str>)
    ensures
        match text {
            Some(text) => valid_utf8(bytes@) && text.spec_bytes() == bytes@,
            None => !valid_utf8(bytes@),
        },
{
    std::str::from_utf8(bytes).ok()
}

} // verus!
