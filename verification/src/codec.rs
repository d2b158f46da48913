//! The frame of a vector on the wire: a vector travels as the text
//! `[v0,v1,...]`, its components in decimal text, separated by commas,
//! between brackets. Framing and unframing work on bytes and never look
//! inside a component.

use vstd::prelude::*;
use vstd::slice::slice_subrange;

verus! {

/// The byte `[`, which opens a framed vector.
pub const OPEN: u8 = 91;

/// The byte `]`, which closes a framed vector.
pub const CLOSE: u8 = 93;

/// The byte `,`, which separates the components.
pub const COMMA: u8 = 44;

/// The texts one after another with a comma between each two neighbours.
pub open spec fn joined(texts: Seq<Seq<u8>>) -> Seq<u8>
    decreases texts.len(),
{
    if texts.len() == 0 {
        Seq::empty()
    } else if texts.len() == 1 {
        texts[0]
    } else {
        joined(texts.drop_last()) + seq![COMMA] + texts.last()
    }
}

/// The wire text of a vector with the given component texts.
pub open spec fn framed(texts: Seq<Seq<u8>>) -> Seq<u8> {
    seq![OPEN] + joined(texts) + seq![CLOSE]
}

/// The segments between the commas of `bytes`, in order: one more segment
/// than there are commas, so that no bytes give a single empty segment.
pub open spec fn split(bytes: Seq<u8>) -> Seq<Seq<u8>>
    decreases bytes.len(),
{
    if bytes.len() == 0 {
        seq![Seq::empty()]
    } else {
        let before = split(bytes.drop_last());
        if bytes.last() == COMMA {
            before.push(Seq::empty())
        } else {
            before.drop_last().push(before.last().push(bytes.last()))
        }
    }
}

/// What stands between the first and the last byte.
pub open spec fn interior(data: Seq<u8>) -> Seq<u8>
    recommends
        data.len() >= 2,
{
    data.subrange(1, data.len() - 1)
}

/// The values of the outcomes that are `Some`, in their order.
pub open spec fn kept<T>(outcomes: Seq<Option<T>>) -> Seq<T>
    decreases outcomes.len(),
{
    if outcomes.len() == 0 {
        Seq::empty()
    } else {
        match outcomes.last() {
            Some(value) => kept(outcomes.drop_last()).push(value),
            None => kept(outcomes.drop_last()),
        }
    }
}

/// The contents of each buffer of a sequence.
pub open spec fn contents(texts: Seq<Vec<u8>>) -> Seq<Seq<u8>> {
    texts.map_values(|text: Vec<u8>| text@)
}

/// The contents of each slice of a sequence.
pub open spec fn slices(segments: Seq<&[u8]>) -> Seq<Seq<u8>> {
    segments.map_values(|segment: &[u8]| segment@)
}

/// Frames component texts: `[`, the texts with a comma between each two, `]`.
pub fn frame(texts: &[Vec<u8>]) -> (text: Vec<u8>)
    ensures
        text@ == framed(contents(texts@)),
{
    let mut text: Vec<u8> = Vec::new();
    text.push(OPEN);
    let mut i: usize = 0;
    while i < texts.len()
        invariant
            i <= texts.len(),
            text@ == seq![OPEN] + joined(contents(texts@).take(i as int)),
        decreases texts.len() - i,
    {
        let ghost done = contents(texts@).take(i as int);
        let ghost next = contents(texts@).take(i + 1);
        assert(next.drop_last() == done);
        assert(next.last() == texts@[i as int]@);
        if i > 0 {
            text.push(COMMA);
        }
        text.extend_from_slice(texts[i].as_slice());
        assert(text@ == seq![OPEN] + joined(next));
        i += 1;
    }
    assert(contents(texts@).take(texts.len() as int) == contents(texts@));
    text.push(CLOSE);
    text
}

/// Unframes a wire text: drops its first and its last byte and splits what
/// is between them at the commas. The segments borrow from `data`.
pub fn segments<'a>(data: &'a [u8]) -> (segs: Vec<&'a [u8]>)
    requires
        data.len() >= 2,
    ensures
        slices(segs@) == split(interior(data@)),
{
    let end: usize = data.len() - 1;
    let mut segs: Vec<&'a [u8]> = Vec::new();
    let mut start: usize = 1;
    let mut i: usize = 1;
    proof {
        assert(data@.subrange(1, 1) == Seq::<u8>::empty());
        assert(slices(segs@).push(Seq::<u8>::empty()) == seq![Seq::<u8>::empty()]);
    }
    while i < end
        invariant
            end == data.len() - 1,
            1 <= start <= i <= end,
            slices(segs@).push(data@.subrange(start as int, i as int)) == split(
                data@.subrange(1, i as int),
            ),
        decreases end - i,
    {
        let ghost seen = data@.subrange(1, i as int);
        let ghost more = data@.subrange(1, i + 1);
        let ghost open = data@.subrange(start as int, i as int);
        assert(more.drop_last() == seen);
        assert(more.last() == data@[i as int]);
        assert(split(seen).drop_last() == slices(segs@));
        assert(split(seen).last() == open);
        if data[i] == COMMA {
            let ghost before = slices(segs@);
            segs.push(slice_subrange(data, start, i));
            start = i + 1;
            assert(slices(segs@) == before.push(open));
            assert(data@.subrange(start as int, i + 1) == Seq::<u8>::empty());
        } else {
            assert(data@.subrange(start as int, i + 1) == open.push(data@[i as int]));
        }
        i += 1;
    }
    let ghost before = slices(segs@);
    segs.push(slice_subrange(data, start, end));
    assert(slices(segs@) == before.push(data@.subrange(start as int, end as int)));
    segs
}

/// Keeps the values of the outcomes that are `Some`, in their order, and
/// drops the rest.
pub fn retain<T>(outcomes: Vec<Option<T>>) -> (values: Vec<T>)
    ensures
        values@ == kept(outcomes@),
{
    let mut values: Vec<T> = Vec::new();
    for outcome in it: outcomes
        invariant
            it.seq() == outcomes@,
            values@ == kept(it.seq().take(it.index() as int)),
    {
        let ghost done = it.seq().take(it.index() as int);
        let ghost next = it.seq().take(it.index() + 1);
        assert(next.drop_last() == done);
        assert(next.last() == outcome);
        if let Some(value) = outcome {
            values.push(value);
        }
    }
    assert(outcomes@.take(outcomes@.len() as int) == outcomes@);
    values
}

/// Every segment of a split is free of commas, and joining the segments with
/// commas gives the bytes back: the segments are the maximal comma-free runs.
pub proof fn lemma_joined_split(bytes: Seq<u8>)
    ensures
        split(bytes).len() >= 1,
        joined(split(bytes)) == bytes,
        forall|i: int| 0 <= i < split(bytes).len() ==> !(#[trigger] split(bytes)[i]).contains(COMMA),
    decreases bytes.len(),
{
    if bytes.len() > 0 {
        let before = split(bytes.drop_last());
        lemma_joined_split(bytes.drop_last());
        assert(bytes == bytes.drop_last().push(bytes.last()));
        if bytes.last() == COMMA {
            assert(split(bytes).drop_last() == before);
            assert forall|i: int| 0 <= i < split(bytes).len() implies !(#[trigger] split(
                bytes,
            )[i]).contains(COMMA) by {
                if i < before.len() {
                    assert(split(bytes)[i] == before[i]);
                }
            }
        } else {
            let grown = before.last().push(bytes.last());
            if before.len() >= 2 {
                assert(split(bytes).drop_last() == before.drop_last());
            }
            assert forall|i: int| 0 <= i < split(bytes).len() implies !(#[trigger] split(
                bytes,
            )[i]).contains(COMMA) by {
                if i < before.len() - 1 {
                    assert(split(bytes)[i] == before[i]);
                } else {
                    assert(split(bytes)[i] == grown);
                    assert(!before[before.len() - 1].contains(COMMA));
                    if grown.contains(COMMA) {
                        let k = choose|k: int| 0 <= k < grown.len() && grown[k] == COMMA;
                        assert(k < before.last().len());
                        assert(before.last()[k] == COMMA);
                    }
                }
            }
        }
    }
}

/// Splitting after more comma-free bytes were appended: the last segment
/// grows by these bytes and the others stay.
proof fn lemma_split_append(bytes: Seq<u8>, more: Seq<u8>)
    requires
        !more.contains(COMMA),
    ensures
        split(bytes).len() >= 1,
        split(bytes + more) == split(bytes).drop_last().push(split(bytes).last() + more),
    decreases more.len(),
{
    lemma_joined_split(bytes);
    if more.len() == 0 {
        assert(bytes + more == bytes);
        assert(split(bytes).last() + more == split(bytes).last());
        assert(split(bytes).drop_last().push(split(bytes).last()) == split(bytes));
    } else {
        let fewer = more.drop_last();
        assert(more[more.len() - 1] != COMMA);
        assert forall|k: int| 0 <= k < fewer.len() implies fewer[k] != COMMA by {
            assert(more[k] == fewer[k]);
        }
        lemma_split_append(bytes, fewer);
        assert((bytes + more).drop_last() == bytes + fewer);
        assert((split(bytes).last() + fewer).push(more.last()) == split(bytes).last() + more);
    }
}

/// Splitting what was joined: for at least one text, none of which holds a
/// comma, the segments are the texts.
pub proof fn lemma_split_joined(texts: Seq<Seq<u8>>)
    requires
        texts.len() >= 1,
        forall|i: int| 0 <= i < texts.len() ==> !(#[trigger] texts[i]).contains(COMMA),
    ensures
        split(joined(texts)) == texts,
    decreases texts.len(),
{
    let nothing = Seq::<u8>::empty();
    if texts.len() == 1 {
        lemma_split_append(nothing, texts[0]);
        assert(nothing + texts[0] == texts[0]);
        assert(split(nothing).drop_last().push(nothing + texts[0]) == texts);
    } else {
        let front = texts.drop_last();
        assert forall|i: int| 0 <= i < front.len() implies !(#[trigger] front[i]).contains(
            COMMA,
        ) by {
            assert(front[i] == texts[i]);
        }
        lemma_split_joined(front);
        let head = joined(front) + seq![COMMA];
        assert(head.drop_last() == joined(front));
        assert(split(head) == front.push(nothing));
        lemma_split_append(head, texts.last());
        assert(nothing + texts.last() == texts.last());
        assert(front.push(nothing).drop_last() == front);
        assert(front.push(texts.last()) == texts);
    }
}

/// What stands between the brackets of a framed text is the joined texts.
pub proof fn lemma_interior_framed(texts: Seq<Seq<u8>>)
    ensures
        framed(texts).len() >= 2,
        framed(texts)[0] == OPEN,
        framed(texts).last() == CLOSE,
        interior(framed(texts)) == joined(texts),
{
}

/// Where every outcome is `Some` of its item, all of the items are kept.
pub proof fn lemma_kept_some<T>(items: Seq<T>, outcomes: Seq<Option<T>>)
    requires
        outcomes.len() == items.len(),
        forall|i: int| 0 <= i < items.len() ==> #[trigger] outcomes[i] == Some(items[i]),
    ensures
        kept(outcomes) == items,
    decreases items.len(),
{
    if items.len() > 0 {
        lemma_kept_some(items.drop_last(), outcomes.drop_last());
        assert(outcomes[outcomes.len() - 1] == Some(items[items.len() - 1]));
        assert(items.drop_last().push(items.last()) == items);
    }
}

/// The round trip: a vector that is framed and then unframed, split, parsed
/// and filtered comes back as it was, whenever no component text holds a
/// comma and each component text parses back to its component. For the
/// vector without components the empty text must fail to parse.
pub proof fn lemma_round_trip<T>(
    items: Seq<T>,
    texts: Seq<Seq<u8>>,
    parse: spec_fn(Seq<u8>) -> Option<T>,
)
    requires
        texts.len() == items.len(),
        forall|i: int| 0 <= i < items.len() ==> !(#[trigger] texts[i]).contains(COMMA),
        forall|i: int| 0 <= i < items.len() ==> parse(#[trigger] texts[i]) == Some(items[i]),
        items.len() == 0 ==> parse(Seq::empty()) is None,
    ensures
        framed(texts).len() >= 2,
        kept(split(interior(framed(texts))).map_values(parse)) == items,
{
    lemma_interior_framed(texts);
    if items.len() == 0 {
        let outcomes = split(joined(texts)).map_values(parse);
        assert(outcomes.len() == 1);
        assert(outcomes.last() is None);
        assert(kept(outcomes) == kept(outcomes.drop_last()));
        assert(kept(outcomes.drop_last()) == Seq::<T>::empty());
        assert(items == Seq::<T>::empty());
    } else {
        lemma_split_joined(texts);
        lemma_kept_some(items, texts.map_values(parse));
    }
}

} // verus!
