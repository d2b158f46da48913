//! The scan iterator as a state machine. A scan runs over several round
//! trips: each reply carries a batch of items and the cursor for the next
//! request, and the cursor zero says that this batch was the last. The
//! machine decides; its driver performs the round trips.

use std::collections::VecDeque;
use vstd::prelude::*;

use crate::queue::enqueue;

verus! {

/// Where a scan stands.
#[derive(Clone, Copy, Debug, PartialEq, Eq, Structural)]
pub enum Cursor {
    /// More may come: the next request carries this cursor.
    Active(u64),
    /// The store has said that nothing more comes.
    Exhausted,
}

/// What the driver of a scan does next.
#[derive(Debug)]
pub enum Step<T> {
    /// Hand this item to the consumer.
    Item(T),
    /// Ask the store for the page at this cursor, and hand the reply in.
    Fetch(u64),
    /// The scan is over.
    Done,
}

/// A scan as the contracts see it.
pub struct ScanView<T> {
    /// Where the scan stands.
    pub state: Cursor,
    /// The items that were received and not yet handed out, in order.
    pub pending: Seq<T>,
}

/// The state of one scan: non-restartable, and finite where the store ends
/// its scans.
#[derive(Debug)]
pub struct ScanCursor<T> {
    state: Cursor,
    batch: VecDeque<T>,
}

/// A scan before its first request: active at cursor zero, nothing pending.
pub open spec fn fresh<T>() -> ScanView<T> {
    ScanView { state: Cursor::Active(0), pending: Seq::empty() }
}

/// The scan after a reply with the cursor `next` and the batch `items`. An
/// active scan appends the batch to what is pending, and is exhausted if
/// `next` is zero, active at `next` if not. An exhausted scan stays as it is.
pub open spec fn received<T>(scan: ScanView<T>, next: u64, items: Seq<T>) -> ScanView<T> {
    match scan.state {
        Cursor::Exhausted => scan,
        Cursor::Active(_) => ScanView {
            state: if next == 0 {
                Cursor::Exhausted
            } else {
                Cursor::Active(next)
            },
            pending: scan.pending + items,
        },
    }
}

/// What a consumer gets who drains the scan while the store answers the
/// successive requests with `pages`, each a next cursor and a batch: pending
/// items first, then page after page until the scan is exhausted or the
/// pages have run out.
pub open spec fn drain<T>(scan: ScanView<T>, pages: Seq<(u64, Seq<T>)>) -> Seq<T>
    decreases pages.len(), scan.pending.len(),
{
    if scan.pending.len() > 0 {
        seq![scan.pending[0]] + drain(
            ScanView { state: scan.state, pending: scan.pending.drop_first() },
            pages,
        )
    } else if scan.state is Exhausted || pages.len() == 0 {
        Seq::empty()
    } else {
        drain(received(scan, pages[0].0, pages[0].1), pages.drop_first())
    }
}

/// The items of all pages, in order.
pub open spec fn all_items<T>(pages: Seq<(u64, Seq<T>)>) -> Seq<T>
    decreases pages.len(),
{
    if pages.len() == 0 {
        Seq::empty()
    } else {
        pages[0].1 + all_items(pages.drop_first())
    }
}

/// Whether the pages are those of one whole scan: there is a page, the last
/// page carries the cursor zero, and no page before it does.
pub open spec fn complete<T>(pages: Seq<(u64, Seq<T>)>) -> bool {
    &&& pages.len() > 0
    &&& pages.last().0 == 0
    &&& forall|i: int| 0 <= i < pages.len() - 1 ==> (#[trigger] pages[i]).0 != 0
}

/// The pages with each batch as a sequence.
pub open spec fn page_views<T>(pages: Seq<(u64, Vec<T>)>) -> Seq<(u64, Seq<T>)> {
    pages.map_values(|page: (u64, Vec<T>)| (page.0, page.1@))
}

impl<T> View for ScanCursor<T> {
    type V = ScanView<T>;

    closed spec fn view(&self) -> ScanView<T> {
        ScanView { state: self.state, pending: self.batch@ }
    }
}

impl<T> ScanCursor<T> {
    /// A scan before its first request.
    pub fn new() -> (scan: Self)
        ensures
            scan@ == fresh::<T>(),
    {
        ScanCursor { state: Cursor::Active(0), batch: VecDeque::new() }
    }

    /// Where the scan stands.
    pub fn state(&self) -> (state: Cursor)
        ensures
            state == self@.state,
    {
        self.state
    }

    /// What to do next. A pending item is handed out, the oldest first.
    /// With nothing pending, an active scan asks for the page at its cursor
    /// and an exhausted scan is done. Only handing out an item changes the
    /// scan.
    pub fn step(&mut self) -> (step: Step<T>)
        ensures
            match step {
                Step::Item(item) => {
                    &&& old(self)@.pending.len() > 0
                    &&& item == old(self)@.pending[0]
                    &&& final(self)@ == (ScanView {
                        state: old(self)@.state,
                        pending: old(self)@.pending.drop_first(),
                    })
                },
                Step::Fetch(cursor) => {
                    &&& old(self)@.pending.len() == 0
                    &&& old(self)@.state == Cursor::Active(cursor)
                    &&& final(self)@ == old(self)@
                },
                Step::Done => {
                    &&& old(self)@.pending.len() == 0
                    &&& old(self)@.state is Exhausted
                    &&& final(self)@ == old(self)@
                },
            },
    {
        let ghost before = self.batch@;
        match self.batch.pop_front() {
            Some(item) => {
                assert(self.batch@ == before.drop_first());
                Step::Item(item)
            },
            None => match self.state {
                Cursor::Active(cursor) => Step::Fetch(cursor),
                Cursor::Exhausted => Step::Done,
            },
        }
    }

    /// Takes in a reply: the cursor for the next request and a batch of
    /// items.
    pub fn receive(&mut self, next: u64, items: Vec<T>)
        ensures
            final(self)@ == received(old(self)@, next, items@),
    {
        match self.state {
            Cursor::Exhausted => {},
            Cursor::Active(_) => {
                enqueue(&mut self.batch, items);
                self.state = if next == 0 {
                    Cursor::Exhausted
                } else {
                    Cursor::Active(next)
                };
            },
        }
    }

    /// Ends the scan: it is exhausted from now on and nothing is pending.
    pub fn close(&mut self)
        ensures
            final(self)@ == (ScanView { state: Cursor::Exhausted, pending: Seq::<T>::empty() }),
    {
        self.state = Cursor::Exhausted;
        self.batch.clear();
    }
}

/// Runs a scan over pages that are already at hand, as a driver runs it
/// over round trips: every item that the scan hands out is collected, every
/// request is answered with the next page, and the run ends when the scan is
/// done or asks for a page that is not there.
pub fn drain_pages<T>(pages: Vec<(u64, Vec<T>)>) -> (items: Vec<T>)
    ensures
        items@ == drain(fresh::<T>(), page_views(pages@)),
{
    let ghost all = page_views(pages@);
    let mut rest: VecDeque<(u64, Vec<T>)> = VecDeque::new();
    enqueue(&mut rest, pages);
    let mut scan: ScanCursor<T> = ScanCursor::new();
    let mut items: Vec<T> = Vec::new();
    let mut done = false;
    assert(page_views(rest@) == all);
    while !done
        invariant
            !done ==> items@ + drain(scan@, page_views(rest@)) == drain(fresh::<T>(), all),
            done ==> items@ == drain(fresh::<T>(), all),
        decreases !done as int, rest@.len(), scan@.pending.len(),
    {
        let ghost ahead = page_views(rest@);
        let ghost before = scan@;
        match scan.step() {
            Step::Item(item) => {
                items.push(item);
                assert(drain(before, ahead) == seq![item] + drain(scan@, ahead));
            },
            Step::Fetch(_) => {
                match rest.pop_front() {
                    Some(page) => {
                        assert(ahead[0] == (page.0, page.1@));
                        assert(page_views(rest@) == ahead.drop_first());
                        scan.receive(page.0, page.1);
                    },
                    None => {
                        assert(ahead.len() == 0);
                        assert(drain(before, ahead) == Seq::<T>::empty());
                        done = true;
                    },
                }
            },
            Step::Done => {
                assert(drain(before, ahead) == Seq::<T>::empty());
                done = true;
            },
        }
    }
    items
}

/// An exhausted scan hands out what is pending and then nothing, whatever
/// pages are offered to it: a scan cannot be started again.
pub proof fn lemma_drain_exhausted<T>(scan: ScanView<T>, pages: Seq<(u64, Seq<T>)>)
    requires
        scan.state is Exhausted,
    ensures
        drain(scan, pages) == scan.pending,
    decreases scan.pending.len(),
{
    if scan.pending.len() > 0 {
        let rest = ScanView { state: scan.state, pending: scan.pending.drop_first() };
        lemma_drain_exhausted(rest, pages);
        assert(seq![scan.pending[0]] + rest.pending == scan.pending);
    }
}

/// An active scan that is drained over the pages of one whole scan hands out
/// what is pending and then every item of every page, in order.
pub proof fn lemma_drain_complete<T>(scan: ScanView<T>, pages: Seq<(u64, Seq<T>)>)
    requires
        scan.state is Active,
        complete(pages),
    ensures
        drain(scan, pages) == scan.pending + all_items(pages),
    decreases pages.len(), scan.pending.len(),
{
    if scan.pending.len() > 0 {
        let rest = ScanView { state: scan.state, pending: scan.pending.drop_first() };
        lemma_drain_complete(rest, pages);
        assert(seq![scan.pending[0]] + (rest.pending + all_items(pages)) == scan.pending
            + all_items(pages));
    } else {
        let after = received(scan, pages[0].0, pages[0].1);
        let later = pages.drop_first();
        if pages.len() == 1 {
            lemma_drain_exhausted(after, later);
            assert(all_items(later) == Seq::<T>::empty());
        } else {
            assert(pages[0].0 != 0);
            assert(later.last() == pages.last());
            assert forall|i: int| 0 <= i < later.len() - 1 implies (#[trigger] later[i]).0
                != 0 by {
                assert(later[i] == pages[i + 1]);
            }
            lemma_drain_complete(after, later);
        }
        assert(scan.pending + all_items(pages) == pages[0].1 + all_items(later));
    }
}

/// A scan that runs to its end yields each stored item once: where the
/// pages of one whole scan hold the items `keys` between them, in whatever
/// sizes the store chose to cut them, the scan hands out exactly `keys`:
/// as many items as there are keys, none left out, and none twice where no
/// key is there twice.
pub proof fn lemma_scan_yields_all<T>(keys: Seq<T>, pages: Seq<(u64, Seq<T>)>)
    requires
        complete(pages),
        all_items(pages) == keys,
    ensures
        drain(fresh::<T>(), pages) == keys,
        drain(fresh::<T>(), pages).len() == keys.len(),
        keys.no_duplicates() ==> drain(fresh::<T>(), pages).no_duplicates(),
{
    lemma_drain_complete(fresh::<T>(), pages);
    assert(Seq::<T>::empty() + keys == keys);
}

} // verus!
