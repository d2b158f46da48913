//! Vectors and their codec. A vector is encoded by rendering each component
//! to text and framing the texts, and decoded by unframing, reading each
//! segment as text and parsing it. How a component is rendered and parsed is
//! the caller's choice, handed in as a function: the codec is the same for
//! every kind of number.

use vstd::prelude::*;
use vstd::slice::slice_to_vec;
use vstd::string::StringSliceAdditionalSpecFns;
use vstd::utf8::{
    char_u32_cast, decode_utf8, encode_scalar, encode_utf8, encode_utf8_decode_utf8,
    encode_utf8_valid_utf8, valid_utf8,
};

use crate::codec::{
    contents, frame, framed, interior, kept, lemma_interior_framed, lemma_kept_some,
    lemma_split_joined, retain, segments, slices, split, COMMA,
};
use crate::wire::{data_of, utf8, value_data};

verus! {

/// The bytes of each text of a sequence.
pub open spec fn wire_texts(texts: Seq<String>) -> Seq<Seq<u8>> {
    texts.map_values(|text: String| encode_utf8(text@))
}

/// Whether `texts` are what `render` gave for the items, one for one.
pub open spec fn rendered<T, R: Fn(&T) -> String>(
    render: R,
    items: Seq<T>,
    texts: Seq<String>,
) -> bool {
    &&& texts.len() == items.len()
    &&& forall|i: int|
        0 <= i < items.len() ==> call_ensures(render, (&items[i],), #[trigger] texts[i])
}

/// Whether `texts` are the segments read as UTF-8, one for one: the text
/// with the bytes of the segment, and none for a segment that is no UTF-8.
pub open spec fn read_as_text(segs: Seq<&[u8]>, texts: Seq<Option<&str>>) -> bool {
    &&& texts.len() == segs.len()
    &&& forall|i: int|
        0 <= i < segs.len() ==> match #[trigger] texts[i] {
            Some(text) => valid_utf8(segs[i]@) && text.spec_bytes() == segs[i]@,
            None => !valid_utf8(segs[i]@),
        }
}

/// Whether `outcomes` are what `parse` gave for the texts, one for one, and
/// none where there is no text.
pub open spec fn parsed<T, P: Fn(&str) -> Option<T>>(
    parse: P,
    texts: Seq<Option<&str>>,
    outcomes: Seq<Option<T>>,
) -> bool {
    &&& outcomes.len() == texts.len()
    &&& forall|i: int|
        0 <= i < texts.len() ==> match texts[i] {
            Some(text) => call_ensures(parse, (text,), #[trigger] outcomes[i]),
            None => outcomes[i] is None,
        }
}

/// Whether `text` is the wire text of the items under `render`: the frame
/// around texts that `render` gave for the items, one for one.
pub open spec fn encoded<T, R: Fn(&T) -> String>(render: R, items: Seq<T>, text: Seq<u8>) -> bool {
    exists|texts: Seq<String>| #[trigger]
        rendered(render, items, texts) && text == framed(wire_texts(texts))
}

/// Whether `items` are what the wire text `data` holds under `parse`: the
/// values that `parse` gave for the segments between the brackets, those
/// segments left out that are no UTF-8 or for which `parse` gave none.
pub open spec fn decoded<T, P: Fn(&str) -> Option<T>>(
    parse: P,
    data: Seq<u8>,
    items: Seq<T>,
) -> bool {
    exists|segs: Seq<&[u8]>, texts: Seq<Option<&str>>, outcomes: Seq<Option<T>>|
        #![trigger read_as_text(segs, texts), parsed(parse, texts, outcomes)]
        slices(segs) == split(interior(data)) && read_as_text(segs, texts) && parsed(
            parse,
            texts,
            outcomes,
        ) && items == kept(outcomes)
}

/// Renders each item to its text.
pub fn render_all<T, R: Fn(&T) -> String>(items: &[T], render: R) -> (texts: Vec<String>)
    requires
        forall|i: int| 0 <= i < items@.len() ==> call_requires(render, (&#[trigger] items@[i],)),
    ensures
        rendered(render, items@, texts@),
{
    let mut texts: Vec<String> = Vec::new();
    let mut i: usize = 0;
    while i < items.len()
        invariant
            i <= items.len(),
            forall|j: int|
                0 <= j < items@.len() ==> call_requires(render, (&#[trigger] items@[j],)),
            rendered(render, items@.take(i as int), texts@),
        decreases items.len() - i,
    {
        let text = render(&items[i]);
        texts.push(text);
        i += 1;
    }
    assert(items@.take(items.len() as int) == items@);
    texts
}

/// Reads each segment as UTF-8; a segment that is no UTF-8 gives `None`.
pub fn texts_of<'a>(segs: &[&'a [u8]]) -> (texts: Vec<Option<&'a str>>)
    ensures
        read_as_text(segs@, texts@),
{
    let mut texts: Vec<Option<&'a str>> = Vec::new();
    let mut i: usize = 0;
    while i < segs.len()
        invariant
            i <= segs.len(),
            read_as_text(segs@.take(i as int), texts@),
        decreases segs.len() - i,
    {
        let text = utf8(segs[i]);
        texts.push(text);
        i += 1;
    }
    assert(segs@.take(segs.len() as int) == segs@);
    texts
}

/// Parses each text; a text that does not parse gives `None`, and so does
/// the place of a segment that was no text.
pub fn parse_all<T, P: Fn(&str) -> Option<T>>(texts: &[Option<&str>], parse: P) -> (outcomes: Vec<
    Option<T>,
>)
    requires
        forall|text: &str| call_requires(parse, (text,)),
    ensures
        parsed(parse, texts@, outcomes@),
{
    let mut outcomes: Vec<Option<T>> = Vec::new();
    let mut i: usize = 0;
    while i < texts.len()
        invariant
            i <= texts.len(),
            forall|text: &str| call_requires(parse, (text,)),
            parsed(parse, texts@.take(i as int), outcomes@),
        decreases texts.len() - i,
    {
        let outcome = match texts[i] {
            Some(text) => parse(text),
            None => None,
        };
        outcomes.push(outcome);
        i += 1;
    }
    assert(texts@.take(texts.len() as int) == texts@);
    outcomes
}

/// The wire text of the items: each rendered by `render`, then framed.
pub fn encode<T, R: Fn(&T) -> String>(items: &[T], render: R) -> (text: Vec<u8>)
    requires
        forall|i: int| 0 <= i < items@.len() ==> call_requires(render, (&#[trigger] items@[i],)),
    ensures
        encoded(render, items@, text@),
{
    let texts = render_all(items, render);
    let mut buffers: Vec<Vec<u8>> = Vec::new();
    let mut i: usize = 0;
    while i < texts.len()
        invariant
            i <= texts.len(),
            contents(buffers@) == wire_texts(texts@.take(i as int)),
        decreases texts.len() - i,
    {
        let buffer = slice_to_vec(texts[i].as_str().as_bytes());
        buffers.push(buffer);
        assert(wire_texts(texts@.take(i + 1)) == wire_texts(texts@.take(i as int)).push(
            encode_utf8(texts@[i as int]@),
        ));
        i += 1;
    }
    assert(texts@.take(texts.len() as int) == texts@);
    frame(buffers.as_slice())
}

/// The items that a wire text holds: the text is unframed and split, each
/// segment is read as UTF-8 and parsed by `parse`, and a segment that is no
/// UTF-8 or does not parse is left out without a word.
///
/// This leniency forgives a stray comma, and it hides a damaged text just as
/// well: `[1,x,2]` reads as a vector of two components. A caller who must
/// tell the two apart compares the number of items with the number of
/// [`segments`].
pub fn decode<T, P: Fn(&str) -> Option<T>>(data: &[u8], parse: P) -> (items: Vec<T>)
    requires
        data.len() >= 2,
        forall|text: &str| call_requires(parse, (text,)),
    ensures
        decoded(parse, data@, items@),
{
    let segs = segments(data);
    let texts = texts_of(segs.as_slice());
    let outcomes = parse_all(texts.as_slice(), parse);
    retain(outcomes)
}

/// A reply that cannot be read as the value that was asked for.
#[derive(Clone, Copy, Debug)]
pub struct TypeError;

/// A vector that owns its components.
#[derive(Debug, PartialEq)]
pub struct Vector<T>(Vec<T>);

impl<T> View for Vector<T> {
    type V = Seq<T>;

    closed spec fn view(&self) -> Seq<T> {
        self.0@
    }
}

impl<T> Vector<T> {
    /// The vector with the given components.
    pub fn new(components: Vec<T>) -> (vector: Self)
        ensures
            vector@ == components@,
    {
        Vector(components)
    }

    /// The components, in order.
    pub fn components(&self) -> (components: &Vec<T>)
        ensures
            components@ == self@,
    {
        &self.0
    }

    /// The wire text of this vector under `render`.
    pub fn encode<R: Fn(&T) -> String>(&self, render: R) -> (text: Vec<u8>)
        requires
            forall|i: int| 0 <= i < self@.len() ==> call_requires(render, (&#[trigger] self@[i],)),
        ensures
            encoded(render, self@, text@),
    {
        proof {
            assert forall|i: int| 0 <= i < self.0@.len() implies call_requires(
                render,
                (&#[trigger] self.0@[i],),
            ) by {
                assert(self.0@[i] == self@[i]);
            }
        }
        encode(self.0.as_slice(), render)
    }

    /// The vector that a wire text holds under `parse`. The text has at
    /// least its two brackets.
    pub fn decode<P: Fn(&str) -> Option<T>>(data: &[u8], parse: P) -> (vector: Self)
        requires
            data.len() >= 2,
            forall|text: &str| call_requires(parse, (text,)),
        ensures
            decoded(parse, data@, vector@),
    {
        Vector(decode(data, parse))
    }

    /// Reads a vector from a reply. A reply that is a single byte buffer
    /// with room for the two brackets is decoded; every other reply is a
    /// type error.
    pub fn from_redis_value<P: Fn(&str) -> Option<T>>(value: &redis::Value, parse: P) -> (result:
        Result<Self, TypeError>)
        requires
            forall|text: &str| call_requires(parse, (text,)),
        ensures
            match value_data(*value) {
                Some(data) => if data.len() >= 2 {
                    result matches Ok(vector) && decoded(parse, data, vector@)
                } else {
                    result is Err
                },
                None => result is Err,
            },
    {
        match data_of(value) {
            Some(data) => {
                if data.len() >= 2 {
                    Ok(Vector::decode(data, parse))
                } else {
                    Err(TypeError)
                }
            },
            None => Err(TypeError),
        }
    }
}

/// A vector viewed in storage that the caller owns: a row of an array, say.
/// Encoding it copies no component.
#[derive(Debug)]
pub struct NdArrayVector<'a, T>(&'a [T]);

impl<'a, T> View for NdArrayVector<'a, T> {
    type V = Seq<T>;

    closed spec fn view(&self) -> Seq<T> {
        self.0@
    }
}

impl<'a, T> NdArrayVector<'a, T> {
    /// The view of the given components.
    pub fn new(components: &'a [T]) -> (vector: Self)
        ensures
            vector@ == components@,
    {
        NdArrayVector(components)
    }

    /// The components, in order.
    pub fn components(&self) -> (components: &'a [T])
        ensures
            components@ == self@,
    {
        self.0
    }

    /// The wire text of this vector under `render`: the same text as for a
    /// vector that owns these components.
    pub fn encode<R: Fn(&T) -> String>(&self, render: R) -> (text: Vec<u8>)
        requires
            forall|i: int| 0 <= i < self@.len() ==> call_requires(render, (&#[trigger] self@[i],)),
        ensures
            encoded(render, self@, text@),
    {
        proof {
            assert forall|i: int| 0 <= i < self.0@.len() implies call_requires(
                render,
                (&#[trigger] self.0@[i],),
            ) by {
                assert(self.0@[i] == self@[i]);
            }
        }
        encode(self.0, render)
    }
}

/// One wire text per vector: where `render` gives but one text for an item,
/// two encodings of the same components are the same text, whether the
/// components were owned or viewed.
pub proof fn lemma_encoded_unique<T, R: Fn(&T) -> String>(
    render: R,
    items: Seq<T>,
    first: Seq<u8>,
    second: Seq<u8>,
)
    requires
        encoded(render, items, first),
        encoded(render, items, second),
        forall|item: T, a: String, b: String|
            #![trigger call_ensures(render, (&item,), a), call_ensures(render, (&item,), b)]
            call_ensures(render, (&item,), a) && call_ensures(render, (&item,), b) ==> a@ == b@,
    ensures
        first == second,
{
    let a = choose|texts: Seq<String>| #[trigger]
        rendered(render, items, texts) && first == framed(wire_texts(texts));
    let b = choose|texts: Seq<String>| #[trigger]
        rendered(render, items, texts) && second == framed(wire_texts(texts));
    assert forall|i: int| 0 <= i < items.len() implies #[trigger] wire_texts(a)[i] == wire_texts(
        b,
    )[i] by {
        assert(call_ensures(render, (&items[i],), a[i]));
        assert(call_ensures(render, (&items[i],), b[i]));
    }
    assert(wire_texts(a) == wire_texts(b));
}

/// The bytes of a scalar other than the comma hold no comma byte.
proof fn lemma_scalar_without_comma(scalar: u32)
    requires
        scalar != 44,
    ensures
        !encode_scalar(scalar).contains(COMMA),
{
    assert(scalar <= 0x7f ==> (scalar & 0x7f) as u8 != 44) by (bit_vector)
        requires
            scalar != 44,
    ;
    assert((0xc0 | ((scalar >> 6) & 0x1f) as u8) != 44) by (bit_vector);
    assert((0xe0 | ((scalar >> 12) & 0x0f) as u8) != 44) by (bit_vector);
    assert((0xf0 | ((scalar >> 18) & 0x7) as u8) != 44) by (bit_vector);
    assert((0x80 | (scalar & 0x3f) as u8) != 44) by (bit_vector);
    assert((0x80 | ((scalar >> 6) & 0x3f) as u8) != 44) by (bit_vector);
    assert((0x80 | ((scalar >> 12) & 0x3f) as u8) != 44) by (bit_vector);
}

/// A text without the comma character has bytes without the comma byte: the
/// bytes of every other character differ from it.
pub proof fn lemma_text_without_comma(text: Seq<char>)
    requires
        !text.contains(','),
    ensures
        !encode_utf8(text).contains(COMMA),
    decreases text.len(),
{
    if text.len() > 0 {
        let first = encode_scalar(text[0] as u32);
        let rest = encode_utf8(text.drop_first());
        assert(text[0] != ',');
        if text[0] as u32 == 44 {
            char_u32_cast(text[0], 44u32);
        }
        lemma_scalar_without_comma(text[0] as u32);
        assert forall|k: int| 0 <= k < text.drop_first().len() implies text.drop_first()[k]
            != ',' by {
            assert(text[k + 1] != ',');
        }
        lemma_text_without_comma(text.drop_first());
        if (first + rest).contains(COMMA) {
            let k = choose|k: int| 0 <= k < (first + rest).len() && (first + rest)[k] == COMMA;
            if k < first.len() {
                assert(first[k] == COMMA);
            } else {
                assert(rest[k - first.len()] == COMMA);
            }
        }
    }
}

/// Whether the number format that `render` and `parse` make up is sound for
/// vectors: a rendered component holds no comma, and a rendered component
/// parses back to the component.
pub open spec fn sound<T, R: Fn(&T) -> String, P: Fn(&str) -> Option<T>>(render: R, parse: P) -> bool {
    &&& forall|item: T, rendering: String| #[trigger]
        call_ensures(render, (&item,), rendering) ==> !rendering@.contains(',')
    &&& forall|item: T, rendering: String, text: &str, outcome: Option<T>|
        #![trigger call_ensures(render, (&item,), rendering), call_ensures(parse, (text,), outcome)]
        call_ensures(render, (&item,), rendering) && text@ == rendering@ && call_ensures(
            parse,
            (text,),
            outcome,
        ) ==> outcome == Some(item)
}

/// Whether `parse` refuses the empty text.
pub open spec fn refuses_nothing<T, P: Fn(&str) -> Option<T>>(parse: P) -> bool {
    forall|text: &str, outcome: Option<T>| #[trigger]
        call_ensures(parse, (text,), outcome) && text@.len() == 0 ==> outcome is None
}

/// Decoding what was encoded gives the vector back, whenever the number
/// format is sound and, for the vector without components, the empty text
/// does not parse. This holds of every source of the components, owned or
/// viewed. The encoded text has room for its two brackets, so that it can be
/// decoded.
pub proof fn lemma_decode_encode<T, R: Fn(&T) -> String, P: Fn(&str) -> Option<T>>(
    render: R,
    parse: P,
    items: Seq<T>,
    text: Seq<u8>,
    back: Seq<T>,
)
    requires
        encoded(render, items, text),
        decoded(parse, text, back),
        sound(render, parse),
        items.len() == 0 ==> refuses_nothing(parse),
    ensures
        text.len() >= 2,
        back == items,
{
    broadcast use {encode_utf8_valid_utf8, encode_utf8_decode_utf8};

    let rendering = choose|texts: Seq<String>| #[trigger]
        rendered(render, items, texts) && text == framed(wire_texts(texts));
    let (segs, texts, outcomes) = choose|
        segs: Seq<&[u8]>,
        texts: Seq<Option<&str>>,
        outcomes: Seq<Option<T>>,
    |
        #![trigger read_as_text(segs, texts), parsed(parse, texts, outcomes)]
        slices(segs) == split(interior(text)) && read_as_text(segs, texts) && parsed(
            parse,
            texts,
            outcomes,
        ) && back == kept(outcomes);
    lemma_interior_framed(wire_texts(rendering));
    if items.len() == 0 {
        assert(wire_texts(rendering) == Seq::<Seq<u8>>::empty());
        assert(slices(segs).len() == 1);
        assert(slices(segs)[0] == Seq::<u8>::empty());
        assert(valid_utf8(segs[0]@));
        let read = texts[0]->Some_0;
        assert(encode_utf8(read@) == encode_utf8(Seq::<char>::empty()));
        assert(decode_utf8(encode_utf8(read@)) == read@);
        assert(decode_utf8(encode_utf8(Seq::<char>::empty())) == Seq::<char>::empty());
        assert(call_ensures(parse, (read,), outcomes[0]));
        assert(outcomes.last() is None);
        assert(kept(outcomes) == kept(outcomes.drop_last()));
        assert(kept(outcomes.drop_last()) == Seq::<T>::empty());
        assert(items == Seq::<T>::empty());
    } else {
        assert forall|i: int| 0 <= i < wire_texts(rendering).len() implies !(#[trigger] wire_texts(
            rendering,
        )[i]).contains(COMMA) by {
            assert(call_ensures(render, (&items[i],), rendering[i]));
            lemma_text_without_comma(rendering[i]@);
        }
        lemma_split_joined(wire_texts(rendering));
        assert forall|i: int| 0 <= i < items.len() implies #[trigger] outcomes[i] == Some(
            items[i],
        ) by {
            assert(call_ensures(render, (&items[i],), rendering[i]));
            assert(slices(segs)[i] == wire_texts(rendering)[i]);
            assert(valid_utf8(segs[i]@));
            let read = texts[i]->Some_0;
            assert(encode_utf8(read@) == encode_utf8(rendering[i]@));
            assert(decode_utf8(encode_utf8(read@)) == read@);
            assert(decode_utf8(encode_utf8(rendering[i]@)) == rendering[i]@);
            assert(call_ensures(parse, (read,), outcomes[i]));
        }
        lemma_kept_some(items, outcomes);
    }
}

/// A stored vector comes back: where the store answers the request for a
/// record's vector with the very text that the upsert carried, the reply is
/// read without a type error and as the vector that was encoded, under the
/// same conditions on the number format as for decoding what was encoded.
pub proof fn lemma_stored_vector_comes_back<T, R: Fn(&T) -> String, P: Fn(&str) -> Option<T>>(
    render: R,
    parse: P,
    items: Seq<T>,
    text: Seq<u8>,
    reply: redis::Value,
)
    requires
        encoded(render, items, text),
        value_data(reply) == Some(text),
        sound(render, parse),
        items.len() == 0 ==> refuses_nothing(parse),
    ensures
        value_data(reply) matches Some(data) && data.len() >= 2,
        forall|back: Seq<T>| #[trigger] decoded(parse, text, back) ==> back == items,
{
    let rendering = choose|texts: Seq<String>| #[trigger]
        rendered(render, items, texts) && text == framed(wire_texts(texts));
    lemma_interior_framed(wire_texts(rendering));
    assert forall|back: Seq<T>| #[trigger] decoded(parse, text, back) implies back == items by {
        lemma_decode_encode(render, parse, items, text, back);
    }
}

} // verus!
