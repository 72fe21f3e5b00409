//! Length-prefixed items.
//!
//! Every structured value that this crate sends or stores is cut into items:
//! eight bytes that hold the item's length, big-endian, then the item's
//! bytes. A list is a count of eight bytes followed by that many items.

use crate::bytes::{
    append_bytes, be_bytes, be_value, copy_range, lemma_be_bytes_len, lemma_be_value_of_bytes,
    lemma_pow256_values, push_u64, read_u64,
};
use vstd::prelude::*;

verus! {

/// Why no item can be taken from the front of an input.
#[derive(Clone, Copy, Debug, PartialEq, Eq, Structural)]
pub enum ItemError {
    /// Fewer than eight bytes are left, so there is no length to read.
    NoLength,
    /// The length asks for more bytes than are left.
    Short,
}

/// One item: its length in eight bytes, then its bytes.
pub open spec fn enc_item(body: Seq<u8>) -> Seq<u8> {
    be_bytes(body.len(), 8) + body
}

/// The items of `items`, one after the other.
pub open spec fn enc_items(items: Seq<Seq<u8>>) -> Seq<u8>
    decreases items.len(),
{
    if items.len() == 0 {
        Seq::empty()
    } else {
        enc_item(items.first()) + enc_items(items.drop_first())
    }
}

/// A list: the number of items in eight bytes, then the items.
pub open spec fn enc_list(items: Seq<Seq<u8>>) -> Seq<u8> {
    be_bytes(items.len(), 8) + enc_items(items)
}

/// The length that the first eight bytes of `s` announce.
pub open spec fn announced(s: Seq<u8>) -> nat
    recommends
        s.len() >= 8,
{
    be_value(s.subrange(0, 8))
}

/// The first item of `s` and what follows it.
pub open spec fn take_item(s: Seq<u8>) -> Result<(Seq<u8>, Seq<u8>), ItemError> {
    if s.len() < 8 {
        Err(ItemError::NoLength)
    } else if s.len() - 8 < announced(s) {
        Err(ItemError::Short)
    } else {
        let end = 8 + announced(s) as int;
        Ok((s.subrange(8, end), s.subrange(end, s.len() as int)))
    }
}

/// The first `count` items of `s` and what follows them.
pub open spec fn take_items(s: Seq<u8>, count: nat) -> Option<(Seq<Seq<u8>>, Seq<u8>)>
    decreases count,
{
    if count == 0 {
        Some((Seq::empty(), s))
    } else {
        match take_item(s) {
            Ok((body, rest)) => match take_items(rest, (count - 1) as nat) {
                Some((more, end)) => Some((seq![body] + more, end)),
                None => None,
            },
            Err(_) => None,
        }
    }
}

/// The items of a list that fills `s` exactly.
pub open spec fn dec_list(s: Seq<u8>) -> Option<Seq<Seq<u8>>> {
    if s.len() < 8 {
        None
    } else {
        match take_items(s.subrange(8, s.len() as int), announced(s)) {
            Some((items, rest)) => if rest.len() == 0 {
                Some(items)
            } else {
                None
            },
            None => None,
        }
    }
}

/// Every length in `items`, and their number, fits in eight bytes.
pub open spec fn items_fit(items: Seq<Seq<u8>>) -> bool {
    &&& items.len() <= u64::MAX
    &&& forall|i: int| 0 <= i < items.len() ==> (#[trigger] items[i]).len() <= u64::MAX
}

/// An item that is followed by `rest` is taken whole, and `rest` is left.
pub proof fn lemma_take_item(body: Seq<u8>, rest: Seq<u8>)
    requires
        body.len() <= u64::MAX,
    ensures
        take_item(enc_item(body) + rest) == Ok::<_, ItemError>((body, rest)),
{
    let s = enc_item(body) + rest;
    lemma_be_bytes_len(body.len(), 8);
    lemma_pow256_values();
    lemma_be_value_of_bytes(body.len(), 8);
    assert(s.subrange(0, 8) =~= be_bytes(body.len(), 8));
    assert(s.subrange(8, 8 + body.len() as int) =~= body);
    assert(s.subrange(8 + body.len() as int, s.len() as int) =~= rest);
}

/// Items that are followed by `rest` are taken in order, and `rest` is left.
pub proof fn lemma_take_items(items: Seq<Seq<u8>>, rest: Seq<u8>)
    requires
        items_fit(items),
    ensures
        take_items(enc_items(items) + rest, items.len()) == Some((items, rest)),
    decreases items.len(),
{
    if items.len() == 0 {
        assert(enc_items(items) + rest =~= rest);
        assert(items =~= Seq::empty());
    } else {
        let head = items.first();
        let tail = items.drop_first();
        assert(forall|i: int| 0 <= i < tail.len() ==> tail[i] == items[i + 1]);
        assert(enc_items(items) + rest =~= enc_item(head) + (enc_items(tail) + rest));
        lemma_take_item(head, enc_items(tail) + rest);
        lemma_take_items(tail, rest);
        assert(seq![head] + tail =~= items);
    }
}

/// A list decodes to the items it was made of.
pub proof fn lemma_dec_list(items: Seq<Seq<u8>>)
    requires
        items_fit(items),
    ensures
        dec_list(enc_list(items)) == Some(items),
{
    let s = enc_list(items);
    lemma_be_bytes_len(items.len(), 8);
    lemma_pow256_values();
    lemma_be_value_of_bytes(items.len(), 8);
    assert(s.subrange(0, 8) =~= be_bytes(items.len(), 8));
    assert(s.subrange(8, s.len() as int) =~= enc_items(items) + Seq::<u8>::empty());
    lemma_take_items(items, Seq::empty());
}

/// Appending one more item to the items appends its encoding.
pub proof fn lemma_enc_items_push(items: Seq<Seq<u8>>, body: Seq<u8>)
    ensures
        enc_items(items.push(body)) == enc_items(items) + enc_item(body),
    decreases items.len(),
{
    if items.len() == 0 {
        let one = items.push(body);
        assert(one.first() == body);
        assert(one.drop_first() =~= Seq::<Seq<u8>>::empty());
        assert(enc_items(one.drop_first()) =~= Seq::<u8>::empty());
        assert(enc_items(one) =~= enc_items(items) + enc_item(body));
    } else {
        let tail = items.drop_first();
        assert(items.push(body).drop_first() =~= tail.push(body));
        lemma_enc_items_push(tail, body);
        assert(enc_items(items.push(body)) =~= enc_items(items) + enc_item(body));
    }
}

/// Appends `body` to `out` as one item.
pub fn write_item(out: &mut Vec<u8>, body: &Vec<u8>)
    ensures
        final(out)@ == old(out)@ + enc_item(body@),
{
    let n: usize = body.len();
    push_u64(out, n as u64);
    append_bytes(out, body);
    assert(out@ =~= old(out)@ + enc_item(body@));
}

/// Takes the item that starts at `pos`; on success also gives the position
/// that follows it.
pub fn read_item(data: &Vec<u8>, pos: usize) -> (r: Result<(Vec<u8>, usize), ItemError>)
    requires
        pos <= data.len(),
    ensures
        match take_item(data@.subrange(pos as int, data.len() as int)) {
            Ok((body, rest)) => r matches Ok((b, next)) && b@ == body && next == pos + 8
                + body.len() && next <= data.len() && rest == data@.subrange(
                next as int,
                data.len() as int,
            ),
            Err(e) => r == Err::<(Vec<u8>, usize), _>(e),
        },
{
    let ghost s = data@.subrange(pos as int, data.len() as int);
    if data.len() - pos < 8 {
        return Err(ItemError::NoLength);
    }
    let n: u64 = read_u64(data, pos);
    assert(s.subrange(0, 8) =~= data@.subrange(pos as int, pos + 8));
    let left: usize = data.len() - pos - 8;
    if n > left as u64 {
        return Err(ItemError::Short);
    }
    let from: usize = pos + 8;
    let to: usize = from + n as usize;
    let body = copy_range(data, from, to);
    assert(s.subrange(8, 8 + n) =~= data@.subrange(from as int, to as int));
    assert(s.subrange(8 + n, s.len() as int) =~= data@.subrange(to as int, data.len() as int));
    Ok((body, to))
}

/// The bytes of each vector of `items`.
pub open spec fn bodies(items: Seq<Vec<u8>>) -> Seq<Seq<u8>> {
    Seq::new(items.len(), |i: int| items[i]@)
}

/// The bytes of one more vector come last.
pub proof fn lemma_bodies_push(items: Seq<Vec<u8>>, last: Vec<u8>)
    ensures
        bodies(items.push(last)) == bodies(items).push(last@),
{
    assert(bodies(items.push(last)) =~= bodies(items).push(last@));
}

/// Appends `items` to `out` as a list.
pub fn write_list(out: &mut Vec<u8>, items: &Vec<Vec<u8>>)
    ensures
        final(out)@ == old(out)@ + enc_list(bodies(items@)),
        items_fit(bodies(items@)),
{
    let n: usize = items.len();
    push_u64(out, n as u64);
    let mut i: usize = 0;
    while i < n
        invariant
            i <= n,
            n == items.len(),
            out@ == old(out)@ + be_bytes(n as nat, 8) + enc_items(
                bodies(items@).subrange(0, i as int),
            ),
        decreases n - i,
    {
        let ghost done = bodies(items@).subrange(0, i as int);
        write_item(out, &items[i]);
        proof {
            lemma_enc_items_push(done, items@[i as int]@);
            assert(done.push(items@[i as int]@) =~= bodies(items@).subrange(0, i + 1));
            assert(out@ =~= old(out)@ + be_bytes(n as nat, 8) + enc_items(
                bodies(items@).subrange(0, i + 1),
            ));
        }
        i += 1;
    }
    proof {
        assert(bodies(items@).subrange(0, n as int) =~= bodies(items@));
        assert(out@ =~= old(out)@ + enc_list(bodies(items@)));
        assert forall|k: int| 0 <= k < bodies(items@).len() implies (#[trigger] bodies(
            items@,
        )[k]).len() <= u64::MAX by {
            let v = items@[k];
            assert(v@.len() == v.len());
        }
    }
}

/// The items of the list that fills `data` exactly, if `data` is one.
pub fn read_list(data: &Vec<u8>) -> (r: Option<Vec<Vec<u8>>>)
    ensures
        match dec_list(data@) {
            Some(items) => r matches Some(v) && bodies(v@) == items,
            None => r is None,
        },
{
    if data.len() < 8 {
        return None;
    }
    let count: u64 = read_u64(data, 0);
    let ghost input = data@.subrange(8, data.len() as int);
    let mut items: Vec<Vec<u8>> = Vec::new();
    let mut pos: usize = 8;
    let mut i: u64 = 0;
    while i < count
        invariant
            i <= count,
            8 <= pos <= data.len(),
            count as nat == announced(data@),
            input == data@.subrange(8, data.len() as int),
            take_items(input, count as nat) == match take_items(
                data@.subrange(pos as int, data.len() as int),
                (count - i) as nat,
            ) {
                Some((more, end)) => Some((bodies(items@) + more, end)),
                None => None,
            },
        decreases count - i,
    {
        let ghost here = data@.subrange(pos as int, data.len() as int);
        let ghost before = bodies(items@);
        match read_item(data, pos) {
            Ok((body, next)) => {
                items.push(body);
                proof {
                    assert(bodies(items@) =~= before.push(body@));
                    match take_items(
                        data@.subrange(next as int, data.len() as int),
                        (count - i - 1) as nat,
                    ) {
                        Some((more, end)) => {
                            assert(before + (seq![body@] + more) =~= bodies(items@) + more);
                        },
                        None => {},
                    }
                }
                pos = next;
            },
            Err(_) => {
                assert(take_items(here, (count - i) as nat) is None);
                return None;
            },
        }
        i += 1;
    }
    proof {
        assert(bodies(items@) + Seq::<Seq<u8>>::empty() =~= bodies(items@));
    }
    if pos == data.len() {
        Some(items)
    } else {
        None
    }
}

} // verus!
