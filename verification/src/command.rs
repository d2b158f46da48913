//! The commands: one builder per command, each the single place where the
//! command's verb and the order of its arguments are written down. A builder
//! only builds; sending the command and reading the reply is the caller's
//! business, whether it blocks or suspends while it waits.

use vstd::prelude::*;
use vstd::string::StringSliceAdditionalSpecFns;

use crate::arg::{push_arg, Arg};
use crate::wire::{cmd_cursor, cmd_slots, new_command, push_number, push_text};

verus! {

/// The slot of a fixed word of the protocol.
pub open spec fn word(text: &str) -> Option<Seq<u8>> {
    Some(text.spec_bytes())
}

/// The slot of an argument.
pub open spec fn slot<'a>(arg: Arg<'a>) -> Option<Seq<u8>> {
    Some(arg.wire())
}

/// The slot of a number.
pub open spec fn number(n: usize) -> Option<Seq<u8>> {
    slot(Arg::Number(n))
}

/// The slots of a list of arguments: one slot each, in order.
pub open spec fn list_slots<'a>(args: Seq<Arg<'a>>) -> Seq<Option<Seq<u8>>> {
    Seq::new(args.len(), |i: int| slot(args[i]))
}

/// The slots of a list of pairs: for each pair in order, the slot of its
/// first part and then the slot of its second. Pairs are neither reordered
/// nor deduplicated.
pub open spec fn pair_slots<'a>(pairs: Seq<(Arg<'a>, Arg<'a>)>) -> Seq<Option<Seq<u8>>> {
    Seq::new(
        2 * pairs.len(),
        |i: int|
            if i % 2 == 0 {
                slot(pairs[i / 2].0)
            } else {
                slot(pairs[i / 2].1)
            },
    )
}

/// Appends each argument of a list to a command.
pub fn push_list<'a>(cmd: &mut redis::Cmd, args: &[Arg<'a>])
    ensures
        cmd_slots(*final(cmd)) == cmd_slots(*old(cmd)) + list_slots(args@),
        cmd_cursor(*final(cmd)) == cmd_cursor(*old(cmd)),
{
    let mut i: usize = 0;
    while i < args.len()
        invariant
            i <= args.len(),
            cmd_slots(*cmd) == cmd_slots(*old(cmd)) + list_slots(args@.take(i as int)),
            cmd_cursor(*cmd) == cmd_cursor(*old(cmd)),
        decreases args.len() - i,
    {
        push_arg(cmd, args[i]);
        assert(list_slots(args@.take(i + 1)) == list_slots(args@.take(i as int)).push(
            slot(args@[i as int]),
        ));
        i += 1;
    }
    assert(args@.take(args.len() as int) == args@);
}

/// Appends each pair of a list to a command, first part before second.
pub fn push_pairs<'a>(cmd: &mut redis::Cmd, pairs: &[(Arg<'a>, Arg<'a>)])
    ensures
        cmd_slots(*final(cmd)) == cmd_slots(*old(cmd)) + pair_slots(pairs@),
        cmd_cursor(*final(cmd)) == cmd_cursor(*old(cmd)),
{
    let mut i: usize = 0;
    while i < pairs.len()
        invariant
            i <= pairs.len(),
            cmd_slots(*cmd) == cmd_slots(*old(cmd)) + pair_slots(pairs@.take(i as int)),
            cmd_cursor(*cmd) == cmd_cursor(*old(cmd)),
        decreases pairs.len() - i,
    {
        push_arg(cmd, pairs[i].0);
        push_arg(cmd, pairs[i].1);
        assert(pair_slots(pairs@.take(i + 1)) == pair_slots(pairs@.take(i as int)).push(
            slot(pairs@[i as int].0),
        ).push(slot(pairs@[i as int].1)));
        i += 1;
    }
    assert(pairs@.take(pairs.len() as int) == pairs@);
}

/// `TVS.CREATEINDEX index dim index_type distance_type`
pub fn tvs_create_index<'a>(
    index_name: Arg<'a>,
    dim: Arg<'a>,
    index_type: Arg<'a>,
    distance_type: Arg<'a>,
) -> (cmd: redis::Cmd)
    ensures
        cmd_slots(cmd) == seq![
            word("TVS.CREATEINDEX"),
            slot(index_name),
            slot(dim),
            slot(index_type),
            slot(distance_type),
        ],
        cmd_cursor(cmd) is None,
{
    let mut cmd = new_command("TVS.CREATEINDEX");
    push_arg(&mut cmd, index_name);
    push_arg(&mut cmd, dim);
    push_arg(&mut cmd, index_type);
    push_arg(&mut cmd, distance_type);
    cmd
}

/// `TVS.CREATEINDEX index dim index_type distance_type [key value ...]`
pub fn tvs_create_index_with_params<'a>(
    index_name: Arg<'a>,
    dim: usize,
    index_type: &str,
    distance_type: &str,
    params: &[(Arg<'a>, Arg<'a>)],
) -> (cmd: redis::Cmd)
    ensures
        cmd_slots(cmd) == seq![
            word("TVS.CREATEINDEX"),
            slot(index_name),
            number(dim),
            word(index_type),
            word(distance_type),
        ] + pair_slots(params@),
        cmd_cursor(cmd) is None,
{
    let mut cmd = new_command("TVS.CREATEINDEX");
    push_arg(&mut cmd, index_name);
    push_number(&mut cmd, dim);
    push_text(&mut cmd, index_type);
    push_text(&mut cmd, distance_type);
    push_pairs(&mut cmd, params);
    cmd
}

/// `TVS.GETINDEX index`
pub fn tvs_get_index<'a>(index_name: Arg<'a>) -> (cmd: redis::Cmd)
    ensures
        cmd_slots(cmd) == seq![word("TVS.GETINDEX"), slot(index_name)],
        cmd_cursor(cmd) is None,
{
    let mut cmd = new_command("TVS.GETINDEX");
    push_arg(&mut cmd, index_name);
    cmd
}

/// `TVS.DELINDEX index`
pub fn tvs_del_index<'a>(index_name: Arg<'a>) -> (cmd: redis::Cmd)
    ensures
        cmd_slots(cmd) == seq![word("TVS.DELINDEX"), slot(index_name)],
        cmd_cursor(cmd) is None,
{
    let mut cmd = new_command("TVS.DELINDEX");
    push_arg(&mut cmd, index_name);
    cmd
}

/// `TVS.HSET index key VECTOR vector`
pub fn tvs_hset_vector<'a>(index_name: Arg<'a>, key: Arg<'a>, vector: Arg<'a>) -> (cmd: redis::Cmd)
    ensures
        cmd_slots(cmd) == seq![
            word("TVS.HSET"),
            slot(index_name),
            slot(key),
            word("VECTOR"),
            slot(vector),
        ],
        cmd_cursor(cmd) is None,
{
    let mut cmd = new_command("TVS.HSET");
    push_arg(&mut cmd, index_name);
    push_arg(&mut cmd, key);
    push_text(&mut cmd, "VECTOR");
    push_arg(&mut cmd, vector);
    cmd
}

/// `TVS.HSET index key field value`
pub fn tvs_hset<'a>(index_name: Arg<'a>, key: Arg<'a>, attr: Arg<'a>, value: Arg<'a>) -> (cmd:
    redis::Cmd)
    ensures
        cmd_slots(cmd) == seq![
            word("TVS.HSET"),
            slot(index_name),
            slot(key),
            slot(attr),
            slot(value),
        ],
        cmd_cursor(cmd) is None,
{
    let mut cmd = new_command("TVS.HSET");
    push_arg(&mut cmd, index_name);
    push_arg(&mut cmd, key);
    push_arg(&mut cmd, attr);
    push_arg(&mut cmd, value);
    cmd
}

/// `TVS.HSET index key [field value ...]`
pub fn tvs_hset_multi<'a>(index_name: Arg<'a>, key: Arg<'a>, attrs: &[(Arg<'a>, Arg<'a>)]) -> (cmd:
    redis::Cmd)
    ensures
        cmd_slots(cmd) == seq![word("TVS.HSET"), slot(index_name), slot(key)] + pair_slots(attrs@),
        cmd_cursor(cmd) is None,
{
    let mut cmd = new_command("TVS.HSET");
    push_arg(&mut cmd, index_name);
    push_arg(&mut cmd, key);
    push_pairs(&mut cmd, attrs);
    cmd
}

/// `TVS.HGETALL index key`
pub fn tvs_hgetall<'a>(index_name: Arg<'a>, key: Arg<'a>) -> (cmd: redis::Cmd)
    ensures
        cmd_slots(cmd) == seq![word("TVS.HGETALL"), slot(index_name), slot(key)],
        cmd_cursor(cmd) is None,
{
    let mut cmd = new_command("TVS.HGETALL");
    push_arg(&mut cmd, index_name);
    push_arg(&mut cmd, key);
    cmd
}

/// `TVS.HMGET index key VECTOR`
pub fn tvs_get_vector<'a>(index_name: Arg<'a>, key: Arg<'a>) -> (cmd: redis::Cmd)
    ensures
        cmd_slots(cmd) == seq![word("TVS.HMGET"), slot(index_name), slot(key), word("VECTOR")],
        cmd_cursor(cmd) is None,
{
    let mut cmd = new_command("TVS.HMGET");
    push_arg(&mut cmd, index_name);
    push_arg(&mut cmd, key);
    push_text(&mut cmd, "VECTOR");
    cmd
}

/// `TVS.HMGET index key [field ...]`
pub fn tvs_hmget<'a>(index_name: Arg<'a>, key: Arg<'a>, attrs: &[Arg<'a>]) -> (cmd: redis::Cmd)
    ensures
        cmd_slots(cmd) == seq![word("TVS.HMGET"), slot(index_name), slot(key)] + list_slots(attrs@),
        cmd_cursor(cmd) is None,
{
    let mut cmd = new_command("TVS.HMGET");
    push_arg(&mut cmd, index_name);
    push_arg(&mut cmd, key);
    push_list(&mut cmd, attrs);
    cmd
}

/// `TVS.KNNSEARCH index topk vector`
pub fn tvs_knnsearch<'a>(index_name: Arg<'a>, topk: usize, vector: Arg<'a>) -> (cmd: redis::Cmd)
    ensures
        cmd_slots(cmd) == seq![
            word("TVS.KNNSEARCH"),
            slot(index_name),
            number(topk),
            slot(vector),
        ],
        cmd_cursor(cmd) is None,
{
    let mut cmd = new_command("TVS.KNNSEARCH");
    push_arg(&mut cmd, index_name);
    push_number(&mut cmd, topk);
    push_arg(&mut cmd, vector);
    cmd
}

/// `TVS.KNNSEARCH index topk vector [key value ...]`
pub fn tvs_knnsearch_with_params<'a>(
    index_name: Arg<'a>,
    topk: usize,
    vector: Arg<'a>,
    params: &[(Arg<'a>, Arg<'a>)],
) -> (cmd: redis::Cmd)
    ensures
        cmd_slots(cmd) == seq![
            word("TVS.KNNSEARCH"),
            slot(index_name),
            number(topk),
            slot(vector),
        ] + pair_slots(params@),
        cmd_cursor(cmd) is None,
{
    let mut cmd = new_command("TVS.KNNSEARCH");
    push_arg(&mut cmd, index_name);
    push_number(&mut cmd, topk);
    push_arg(&mut cmd, vector);
    push_pairs(&mut cmd, params);
    cmd
}

} // verus!
