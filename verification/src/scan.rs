//! Cursor scans: what a scan asks for, the command for one page of it, and
//! what the driver of a scan does next.

use vstd::prelude::*;

use crate::arg::{push_arg, Arg};
use crate::command::{slot, word};
use crate::cursor::{ScanCursor, ScanView, Step};
use crate::wire::{cmd_cursor, cmd_slots, new_command, push_cursor, push_text};

verus! {

/// What a scan asks for. Each option is sent where it is present and left
/// out where it is absent, independently of the others.
#[derive(Clone, Copy, Debug)]
pub enum Scan<'a> {
    /// The names of the indexes.
    Indexes {
        /// Only the names that match this pattern.
        pattern: Option<Arg<'a>>,
    },
    /// The keys of one index.
    Keys {
        /// The name of the index.
        index: Arg<'a>,
        /// Only the keys that match this pattern.
        pattern: Option<Arg<'a>>,
        /// Only the keys whose vector is no farther from the given vector
        /// than the given distance.
        proximity: Option<(Arg<'a>, Arg<'a>)>,
        /// Only the keys whose record passes this filter expression.
        filter: Option<Arg<'a>>,
    },
}

/// The slots of a pattern option.
pub open spec fn pattern_slots<'a>(pattern: Option<Arg<'a>>) -> Seq<Option<Seq<u8>>> {
    match pattern {
        Some(pattern) => seq![word("MATCH"), slot(pattern)],
        None => Seq::empty(),
    }
}

/// The slots of a proximity option.
pub open spec fn proximity_slots<'a>(proximity: Option<(Arg<'a>, Arg<'a>)>) -> Seq<
    Option<Seq<u8>>,
> {
    match proximity {
        Some((vector, max_dist)) => seq![
            word("VECTOR"),
            slot(vector),
            word("MAX_DIST"),
            slot(max_dist),
        ],
        None => Seq::empty(),
    }
}

/// The slots of a filter option.
pub open spec fn filter_slots<'a>(filter: Option<Arg<'a>>) -> Seq<Option<Seq<u8>>> {
    match filter {
        Some(filter) => seq![word("FILTER"), slot(filter)],
        None => Seq::empty(),
    }
}

impl<'a> Scan<'a> {
    /// The slots of the command for one page of this scan: the verb, the
    /// index where keys are scanned, the cursor slot, then the options that
    /// are present, in the order pattern, proximity, filter.
    pub open spec fn slots(self) -> Seq<Option<Seq<u8>>> {
        match self {
            Scan::Indexes { pattern } => seq![word("TVS.SCANINDEX"), None] + pattern_slots(
                pattern,
            ),
            Scan::Keys { index, pattern, proximity, filter } => seq![
                word("TVS.SCAN"),
                slot(index),
                None,
            ] + pattern_slots(pattern) + proximity_slots(proximity) + filter_slots(filter),
        }
    }

    /// The command that asks for the page at `cursor`.
    pub fn command(&self, cursor: u64) -> (cmd: redis::Cmd)
        ensures
            cmd_slots(cmd) == self.slots(),
            cmd_cursor(cmd) == Some(cursor),
    {
        match *self {
            Scan::Indexes { pattern } => {
                let mut cmd = new_command("TVS.SCANINDEX");
                push_cursor(&mut cmd, cursor);
                push_pattern(&mut cmd, pattern);
                cmd
            },
            Scan::Keys { index, pattern, proximity, filter } => {
                let mut cmd = new_command("TVS.SCAN");
                push_arg(&mut cmd, index);
                push_cursor(&mut cmd, cursor);
                push_pattern(&mut cmd, pattern);
                push_proximity(&mut cmd, proximity);
                push_filter(&mut cmd, filter);
                cmd
            },
        }
    }
}

/// What the driver of a scan does next.
pub enum Action<T> {
    /// Hand this item to the consumer.
    Yield(T),
    /// Send this command, and hand the reply to the scan's cursor.
    Send(redis::Cmd),
    /// The scan is over.
    Stop,
}

impl<'a> Scan<'a> {
    /// The next action of a scan of this kind whose state is `cursor`. A
    /// pending item is yielded, the oldest first. With nothing pending, an
    /// active scan sends the command for the page at its cursor, with the
    /// same options on every page, and an exhausted scan stops. Only
    /// yielding an item changes the state.
    pub fn advance<T>(&self, cursor: &mut ScanCursor<T>) -> (action: Action<T>)
        ensures
            match action {
                Action::Yield(item) => {
                    &&& old(cursor)@.pending.len() > 0
                    &&& item == old(cursor)@.pending[0]
                    &&& final(cursor)@ == (ScanView {
                        state: old(cursor)@.state,
                        pending: old(cursor)@.pending.drop_first(),
                    })
                },
                Action::Send(cmd) => {
                    &&& old(cursor)@.pending.len() == 0
                    &&& old(cursor)@.state is Active
                    &&& cmd_cursor(cmd) == Some(old(cursor)@.state->Active_0)
                    &&& cmd_slots(cmd) == self.slots()
                    &&& final(cursor)@ == old(cursor)@
                },
                Action::Stop => {
                    &&& old(cursor)@.pending.len() == 0
                    &&& old(cursor)@.state is Exhausted
                    &&& final(cursor)@ == old(cursor)@
                },
            },
    {
        match cursor.step() {
            Step::Item(item) => Action::Yield(item),
            Step::Fetch(page) => Action::Send(self.command(page)),
            Step::Done => Action::Stop,
        }
    }
}

fn push_pattern<'a>(cmd: &mut redis::Cmd, pattern: Option<Arg<'a>>)
    ensures
        cmd_slots(*final(cmd)) == cmd_slots(*old(cmd)) + pattern_slots(pattern),
        cmd_cursor(*final(cmd)) == cmd_cursor(*old(cmd)),
{
    if let Some(pattern) = pattern {
        push_text(cmd, "MATCH");
        push_arg(cmd, pattern);
    }
}

fn push_proximity<'a>(cmd: &mut redis::Cmd, proximity: Option<(Arg<'a>, Arg<'a>)>)
    ensures
        cmd_slots(*final(cmd)) == cmd_slots(*old(cmd)) + proximity_slots(proximity),
        cmd_cursor(*final(cmd)) == cmd_cursor(*old(cmd)),
{
    if let Some((vector, max_dist)) = proximity {
        push_text(cmd, "VECTOR");
        push_arg(cmd, vector);
        push_text(cmd, "MAX_DIST");
        push_arg(cmd, max_dist);
    }
}

fn push_filter<'a>(cmd: &mut redis::Cmd, filter: Option<Arg<'a>>)
    ensures
        cmd_slots(*final(cmd)) == cmd_slots(*old(cmd)) + filter_slots(filter),
        cmd_cursor(*final(cmd)) == cmd_cursor(*old(cmd)),
{
    if let Some(filter) = filter {
        push_text(cmd, "FILTER");
        push_arg(cmd, filter);
    }
}

/// The scan of the index names.
pub fn tvs_scan_index<'a>() -> (scan: Scan<'a>)
    ensures
        scan == (Scan::Indexes { pattern: None }),
        scan.slots() == seq![word("TVS.SCANINDEX"), None],
{
    Scan::Indexes { pattern: None }
}

/// The scan of the index names that match a pattern.
pub fn tvs_scan_index_match<'a>(pattern: Arg<'a>) -> (scan: Scan<'a>)
    ensures
        scan == (Scan::Indexes { pattern: Some(pattern) }),
        scan.slots() == seq![word("TVS.SCANINDEX"), None, word("MATCH"), slot(pattern)],
{
    Scan::Indexes { pattern: Some(pattern) }
}

/// The scan of all keys of an index.
pub fn tvs_scan<'a>(index_name: Arg<'a>) -> (scan: Scan<'a>)
    ensures
        scan == (Scan::Keys { index: index_name, pattern: None, proximity: None, filter: None }),
        scan.slots() == seq![word("TVS.SCAN"), slot(index_name), None],
{
    Scan::Keys { index: index_name, pattern: None, proximity: None, filter: None }
}

/// The scan of the keys of an index that match a pattern.
pub fn tvs_scan_match<'a>(index_name: Arg<'a>, pattern: Arg<'a>) -> (scan: Scan<'a>)
    ensures
        scan == (Scan::Keys {
            index: index_name,
            pattern: Some(pattern),
            proximity: None,
            filter: None,
        }),
        scan.slots() == seq![
            word("TVS.SCAN"),
            slot(index_name),
            None,
            word("MATCH"),
            slot(pattern),
        ],
{
    Scan::Keys { index: index_name, pattern: Some(pattern), proximity: None, filter: None }
}

/// The scan of the keys of an index whose vector is within `max_dist` of
/// `vector`.
pub fn tvs_scan_max_dist<'a>(index_name: Arg<'a>, vector: Arg<'a>, max_dist: Arg<'a>) -> (scan:
    Scan<'a>)
    ensures
        scan == (Scan::Keys {
            index: index_name,
            pattern: None,
            proximity: Some((vector, max_dist)),
            filter: None,
        }),
        scan.slots() == seq![
            word("TVS.SCAN"),
            slot(index_name),
            None,
            word("VECTOR"),
            slot(vector),
            word("MAX_DIST"),
            slot(max_dist),
        ],
{
    Scan::Keys {
        index: index_name,
        pattern: None,
        proximity: Some((vector, max_dist)),
        filter: None,
    }
}

/// The scan of the keys of an index whose record passes a filter.
pub fn tvs_scan_filter<'a>(index_name: Arg<'a>, filter: Arg<'a>) -> (scan: Scan<'a>)
    ensures
        scan == (Scan::Keys {
            index: index_name,
            pattern: None,
            proximity: None,
            filter: Some(filter),
        }),
        scan.slots() == seq![
            word("TVS.SCAN"),
            slot(index_name),
            None,
            word("FILTER"),
            slot(filter),
        ],
{
    Scan::Keys { index: index_name, pattern: None, proximity: None, filter: Some(filter) }
}

/// The scan of the keys of an index under any subset of the three options.
pub fn tvs_scan_full<'a>(
    index_name: Arg<'a>,
    pattern: Option<Arg<'a>>,
    max_dist: Option<(Arg<'a>, Arg<'a>)>,
    filter: Option<Arg<'a>>,
) -> (scan: Scan<'a>)
    ensures
        scan == (Scan::Keys { index: index_name, pattern, proximity: max_dist, filter }),
        scan.slots() == seq![word("TVS.SCAN"), slot(index_name), None] + pattern_slots(pattern)
            + proximity_slots(max_dist) + filter_slots(filter),
{
    Scan::Keys { index: index_name, pattern, proximity: max_dist, filter }
}

} // verus!
