//! The binary form of options, pairs and lists of values that have one.

use vstd::prelude::*;
use crate::bytes::{le_bytes, lemma_pow256_values, lemma_skip_skip, push_le};
use crate::codec::wire::{lemma_parse_uint_sound, lemma_parse_uint_wire, parse_uint, read_uint, Wire};

verus! {

/// The values of a list, one after the other.
pub open spec fn wire_items<T: Wire>(items: Seq<T::Model>) -> Seq<u8>
    decreases items.len(),
{
    if items.len() == 0 {
        Seq::empty()
    } else {
        T::wire(items[0]) + wire_items::<T>(items.drop_first())
    }
}

/// Every item can be written.
pub open spec fn all_fit<T: Wire>(items: Seq<T::Model>) -> bool {
    forall|i: int| 0 <= i < items.len() ==> T::fits(#[trigger] items[i])
}

/// `count` values at the front of `bytes`, one after the other.
pub open spec fn parse_items<T: Wire>(bytes: Seq<u8>, count: nat) -> Option<(Seq<T::Model>, nat)>
    decreases count,
{
    if count == 0 {
        Some((Seq::empty(), 0))
    } else {
        match T::parse(bytes) {
            Some((first, used)) => match parse_items::<T>(bytes.skip(used as int), (count - 1) as nat) {
                Some((rest, more)) => Some((seq![first] + rest, used + more)),
                None => None,
            },
            None => None,
        }
    }
}

/// The models of a list of values.
pub open spec fn models<T: Wire>(items: Seq<T>) -> Seq<T::Model> {
    items.map_values(|x: T| x.model())
}

/// The binary form of a list with one item more.
pub proof fn lemma_wire_items_push<T: Wire>(items: Seq<T::Model>, item: T::Model)
    ensures
        wire_items::<T>(items.push(item)) == wire_items::<T>(items) + T::wire(item),
    decreases items.len(),
{
    let longer = items.push(item);
    if items.len() == 0 {
        assert(longer.drop_first() =~= Seq::<T::Model>::empty());
        assert(wire_items::<T>(longer) == T::wire(item) + wire_items::<T>(Seq::empty()));
    } else {
        lemma_wire_items_push::<T>(items.drop_first(), item);
        assert(longer.drop_first() =~= items.drop_first().push(item));
    }
}

/// Parsing the binary form of items that fit gives the items back.
pub proof fn lemma_parse_items_wire<T: Wire>(items: Seq<T::Model>, rest: Seq<u8>)
    requires
        all_fit::<T>(items),
    ensures
        parse_items::<T>(wire_items::<T>(items) + rest, items.len()) == Some(
            (items, wire_items::<T>(items).len()),
        ),
    decreases items.len(),
{
    if items.len() > 0 {
        let first = items[0];
        let tail = items.drop_first();
        let after = wire_items::<T>(tail) + rest;
        let all = wire_items::<T>(items) + rest;
        assert(all =~= T::wire(first) + after);
        T::lemma_parse_wire(first, after);
        assert(all.skip(T::wire(first).len() as int) =~= after);
        assert(all_fit::<T>(tail)) by {
            assert forall|i: int| 0 <= i < tail.len() implies T::fits(#[trigger] tail[i]) by {
            }
        }
        lemma_parse_items_wire::<T>(tail, rest);
    }
}

/// What `parse_items` accepts is the binary form of what it gives.
pub proof fn lemma_parse_items_sound<T: Wire>(bytes: Seq<u8>, count: nat)
    ensures
        parse_items::<T>(bytes, count) matches Some((items, used)) ==> {
            &&& items.len() == count
            &&& used <= bytes.len()
            &&& all_fit::<T>(items)
            &&& wire_items::<T>(items) == bytes.take(used as int)
        },
    decreases count,
{
    if !(count == 0) {
        T::lemma_wire_parse(bytes);
        if let Some((first, used)) = T::parse(bytes) {
            let after = bytes.skip(used as int);
            lemma_parse_items_sound::<T>(after, (count - 1) as nat);
            if let Some((rest, more)) = parse_items::<T>(after, (count - 1) as nat) {
                let items = seq![first] + rest;
                assert(items.drop_first() =~= rest);
            }
        }
    }
}

/// Reading one more value after `count` values gives `count + 1` values.
pub proof fn lemma_parse_items_next<T: Wire>(bytes: Seq<u8>, count: nat)
    ensures
        parse_items::<T>(bytes, count) matches Some((items, used)) ==> (match T::parse(
            bytes.skip(used as int),
        ) {
            Some((item, more)) => parse_items::<T>(bytes, count + 1) == Some(
                (items.push(item), used + more),
            ),
            None => forall|longer: nat| longer > count ==> parse_items::<T>(bytes, longer) is None,
        }),
    decreases count,
{
    if let Some((items, used)) = parse_items::<T>(bytes, count) {
        if count == 0 {
            assert(bytes.skip(0) =~= bytes);
            match T::parse(bytes) {
                Some((item, more)) => {
                    assert(parse_items::<T>(bytes.skip(more as int), 0) == Some(
                        (Seq::<T::Model>::empty(), 0nat),
                    ));
                },
                None => {},
            }
        } else {
            T::lemma_wire_parse(bytes);
            let (first, step) = T::parse(bytes).unwrap();
            let after = bytes.skip(step as int);
            let (rest, rest_used) = parse_items::<T>(after, (count - 1) as nat).unwrap();
            lemma_parse_items_sound::<T>(after, (count - 1) as nat);
            lemma_parse_items_next::<T>(after, (count - 1) as nat);
            lemma_skip_skip(bytes, step as int, rest_used as int);
            match T::parse(bytes.skip(used as int)) {
                Some((item, more)) => {
                },
                None => {
                    assert forall|longer: nat| longer > count implies parse_items::<T>(
                        bytes,
                        longer,
                    ) is None by {
                        assert(parse_items::<T>(after, (longer - 1) as nat) is None);
                    }
                },
            }
        }
    }
}

/// A list: the number of values as 8 bytes, then the values.
impl<T: Wire> Wire for Vec<T> {
    type Model = Seq<T::Model>;

    open spec fn model(&self) -> Seq<T::Model> {
        models(self@)
    }

    open spec fn fits(m: Seq<T::Model>) -> bool {
        m.len() <= u64::MAX && all_fit::<T>(m)
    }

    open spec fn wire(m: Seq<T::Model>) -> Seq<u8> {
        le_bytes(m.len(), 8) + wire_items::<T>(m)
    }

    open spec fn parse(bytes: Seq<u8>) -> Option<(Seq<T::Model>, nat)> {
        match parse_uint(bytes, 8) {
            Some((count, _)) => match parse_items::<T>(bytes.skip(8), count) {
                Some((items, used)) => Some((items, 8 + used)),
                None => None,
            },
            None => None,
        }
    }

    proof fn lemma_parse_wire(m: Seq<T::Model>, rest: Seq<u8>) {
        lemma_pow256_values();
        let body = wire_items::<T>(m) + rest;
        lemma_parse_uint_wire(m.len(), 8, body);
        let all = Self::wire(m) + rest;
        assert(all =~= le_bytes(m.len(), 8) + body);
        assert(all.skip(8) =~= body);
        lemma_parse_items_wire::<T>(m, rest);
    }

    proof fn lemma_wire_parse(bytes: Seq<u8>) {
        lemma_pow256_values();
        lemma_parse_uint_sound(bytes, 8);
        if let Some((count, _)) = parse_uint(bytes, 8) {
            lemma_parse_items_sound::<T>(bytes.skip(8), count);
        }
    }

    fn write(&self, out: &mut Vec<u8>) {
        push_le(out, self.len() as u64, 8);
        let ghost all = models(self@);
        let mut i: usize = 0;
        while i < self.len()
            invariant
                i <= self@.len(),
                all == models(self@),
                out@ == old(out)@ + le_bytes(self@.len(), 8) + wire_items::<T>(all.take(i as int)),
                all_fit::<T>(all.take(i as int)),
            decreases self@.len() - i,
        {
            self[i].write(out);
            proof {
                let done = all.take(i as int);
                lemma_wire_items_push::<T>(done, all[i as int]);
                assert(done.push(all[i as int]) =~= all.take(i + 1));
                assert forall|k: int| 0 <= k < i + 1 implies T::fits(#[trigger] all.take(i + 1)[k]) by {
                }
            }
            i += 1;
        }
        proof {
            assert(all.take(self@.len() as int) =~= all);
        }
    }

    fn read(bytes: &[u8], pos: usize) -> (found: Option<(Self, usize)>) {
        let count = match read_uint(bytes, pos, 8) {
            Some(count) => count,
            None => {
                return None;
            },
        };
        let start: usize = pos + 8;
        let ghost base = bytes@.skip(start as int);
        let mut items: Vec<T> = Vec::new();
        let mut cur: usize = start;
        let mut i: u64 = 0;
        while i < count
            invariant
                i <= count,
                start <= cur <= bytes@.len(),
                base == bytes@.skip(start as int),
                base == bytes@.skip(pos as int).skip(8),
                parse_uint(bytes@.skip(pos as int), 8) == Some((count as nat, 8nat)),
                parse_items::<T>(base, i as nat) == Some((models(items@), (cur - start) as nat)),
            decreases count - i,
        {
            proof {
                lemma_parse_items_next::<T>(base, i as nat);
                lemma_skip_skip(bytes@, start as int, cur - start);
            }
            match T::read(bytes, cur) {
                Some((item, next)) => {
                    items.push(item);
                    cur = next;
                },
                None => {
                    return None;
                },
            }
            i += 1;
        }
        Some((items, cur))
    }
}

/// An option: a tag byte, 0 for none and 1 for some, then the value.
impl<T: Wire> Wire for Option<T> {
    type Model = Option<T::Model>;

    open spec fn model(&self) -> Option<T::Model> {
        match self {
            Some(value) => Some(value.model()),
            None => None,
        }
    }

    open spec fn fits(m: Option<T::Model>) -> bool {
        match m {
            Some(value) => T::fits(value),
            None => true,
        }
    }

    open spec fn wire(m: Option<T::Model>) -> Seq<u8> {
        match m {
            Some(value) => seq![1u8] + T::wire(value),
            None => seq![0u8],
        }
    }

    open spec fn parse(bytes: Seq<u8>) -> Option<(Option<T::Model>, nat)> {
        if bytes.len() >= 1 && bytes[0] == 0 {
            Some((None, 1))
        } else if bytes.len() >= 1 && bytes[0] == 1 {
            match T::parse(bytes.skip(1)) {
                Some((value, used)) => Some((Some(value), 1 + used)),
                None => None,
            }
        } else {
            None
        }
    }

    proof fn lemma_parse_wire(m: Option<T::Model>, rest: Seq<u8>) {
        match m {
            Some(value) => {
                let all = Self::wire(m) + rest;
                assert(all.skip(1) =~= T::wire(value) + rest);
                T::lemma_parse_wire(value, rest);
            },
            None => {},
        }
    }

    proof fn lemma_wire_parse(bytes: Seq<u8>) {
        if bytes.len() >= 1 && bytes[0] == 1 {
            T::lemma_wire_parse(bytes.skip(1));
        }
    }

    fn write(&self, out: &mut Vec<u8>) {
        match self {
            Some(value) => {
                out.push(1);
                value.write(out);
            },
            None => {
                out.push(0);
            },
        }
    }

    fn read(bytes: &[u8], pos: usize) -> (found: Option<(Self, usize)>) {
        if pos >= bytes.len() {
            return None;
        }
        let tag = bytes[pos];
        if tag == 0 {
            Some((None, pos + 1))
        } else if tag == 1 {
            proof {
                lemma_skip_skip(bytes@, pos as int, 1);
            }
            match T::read(bytes, pos + 1) {
                Some((value, next)) => Some((Some(value), next)),
                None => None,
            }
        } else {
            None
        }
    }
}

/// A pair: the first value, then the second.
impl<A: Wire, B: Wire> Wire for (A, B) {
    type Model = (A::Model, B::Model);

    open spec fn model(&self) -> (A::Model, B::Model) {
        (self.0.model(), self.1.model())
    }

    open spec fn fits(m: (A::Model, B::Model)) -> bool {
        A::fits(m.0) && B::fits(m.1)
    }

    open spec fn wire(m: (A::Model, B::Model)) -> Seq<u8> {
        A::wire(m.0) + B::wire(m.1)
    }

    open spec fn parse(bytes: Seq<u8>) -> Option<((A::Model, B::Model), nat)> {
        match A::parse(bytes) {
            Some((a, used)) => match B::parse(bytes.skip(used as int)) {
                Some((b, more)) => Some(((a, b), used + more)),
                None => None,
            },
            None => None,
        }
    }

    proof fn lemma_parse_wire(m: (A::Model, B::Model), rest: Seq<u8>) {
        let all = Self::wire(m) + rest;
        assert(all =~= A::wire(m.0) + (B::wire(m.1) + rest));
        A::lemma_parse_wire(m.0, B::wire(m.1) + rest);
        assert(all.skip(A::wire(m.0).len() as int) =~= B::wire(m.1) + rest);
        B::lemma_parse_wire(m.1, rest);
    }

    proof fn lemma_wire_parse(bytes: Seq<u8>) {
        A::lemma_wire_parse(bytes);
        if let Some((a, used)) = A::parse(bytes) {
            let after = bytes.skip(used as int);
            B::lemma_wire_parse(after);
        }
    }

    fn write(&self, out: &mut Vec<u8>) {
        self.0.write(out);
        self.1.write(out);
    }

    fn read(bytes: &[u8], pos: usize) -> (found: Option<(Self, usize)>) {
        match A::read(bytes, pos) {
            Some((a, mid)) => {
                proof {
                    lemma_skip_skip(bytes@, pos as int, mid - pos);
                }
                match B::read(bytes, mid) {
                    Some((b, next)) => Some(((a, b), next)),
                    None => None,
                }
            },
            None => None,
        }
    }
}

} // verus!
