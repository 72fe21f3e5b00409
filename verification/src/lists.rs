//! The byte encoding of the lists that messages carry: a list of items,
//! one item per element.

use crate::codec::{
    dec_transaction, enc_transaction, lemma_transaction_round_trip, ticket_of_blob,
    transaction_fits,
};
use crate::fields::{
    get_slot, get_text, lemma_slot_blob, lemma_text_blob, put_slot, put_text, slot_blob,
    slot_of_blob, text_blob, text_of_blob,
};
use crate::message::{
    slot_view, slots_view, texts_view, tickets_view, transactions_view, Ticket, Transaction,
    TransactionView, TICKET_SIZE,
};
use crate::wire::{
    bodies, dec_list, enc_list, items_fit, lemma_bodies_push, lemma_dec_list, read_list,
    write_list,
};
use vstd::prelude::*;

verus! {

/// The items that `write` gives for the elements of `v`, in order.
pub open spec fn each_blob<T>(v: Seq<T>, write: spec_fn(T) -> Seq<u8>) -> Seq<Seq<u8>> {
    Seq::new(v.len(), |i: int| write(v[i]))
}

/// What `read` gives for each of `items`, in order, if it gives something
/// for every one of them.
pub open spec fn each_of<T>(items: Seq<Seq<u8>>, read: spec_fn(Seq<u8>) -> Option<T>) -> Option<
    Seq<T>,
> {
    if forall|i: int| 0 <= i < items.len() ==> (#[trigger] read(items[i])) is Some {
        Some(Seq::new(items.len(), |i: int| read(items[i])->0))
    } else {
        None
    }
}

/// Where `read` undoes `write` on every element, it does so on the whole.
pub proof fn lemma_each<T>(
    v: Seq<T>,
    write: spec_fn(T) -> Seq<u8>,
    read: spec_fn(Seq<u8>) -> Option<T>,
)
    requires
        forall|i: int| 0 <= i < v.len() ==> read(#[trigger] write(v[i])) == Some(v[i]),
    ensures
        each_of(each_blob(v, write), read) == Some(v),
{
    let items = each_blob(v, write);
    assert forall|i: int| 0 <= i < items.len() implies (#[trigger] read(items[i])) is Some by {
        assert(items[i] == write(v[i]));
    }
    assert(Seq::new(items.len(), |i: int| read(items[i])->0) =~= v) by {
        assert forall|i: int| 0 <= i < v.len() implies read(items[i])->0 == v[i] by {
            assert(items[i] == write(v[i]));
        }
    }
}

// ---------------------------------------------------------------------
// Lists of tickets

/// The bytes of a list of tickets.
pub open spec fn enc_tickets(v: Seq<Seq<u8>>) -> Seq<u8> {
    enc_list(v)
}

/// What `b` is the bytes of, if it is the bytes of a list of tickets.
pub open spec fn dec_tickets(b: Seq<u8>) -> Option<Seq<Seq<u8>>> {
    match dec_list(b) {
        Some(items) => each_of(items, |x: Seq<u8>| ticket_of_blob(x)),
        None => None,
    }
}

/// The list is not too long to be counted, and each element is a ticket.
pub open spec fn tickets_fit(v: Seq<Seq<u8>>) -> bool {
    &&& v.len() <= u64::MAX
    &&& forall|i: int| 0 <= i < v.len() ==> (#[trigger] v[i]).len() == TICKET_SIZE
}

/// The bytes of a list of tickets that is valid decode to it.
pub proof fn lemma_tickets_round_trip(v: Seq<Seq<u8>>)
    requires
        tickets_fit(v),
    ensures
        dec_tickets(enc_tickets(v)) == Some(v),
{
    lemma_dec_list(v);
    let read = |x: Seq<u8>| ticket_of_blob(x);
    assert(Seq::new(v.len(), |i: int| read(v[i])->0) =~= v);
}

/// The bytes of a list of tickets.
pub fn encode_tickets(v: &Vec<Ticket>) -> (out: Vec<u8>)
    ensures
        out@ == enc_tickets(tickets_view(v@)),
        tickets_fit(tickets_view(v@)),
{
    let mut items: Vec<Vec<u8>> = Vec::new();
    let mut i: usize = 0;
    while i < v.len()
        invariant
            i <= v.len(),
            bodies(items@) == tickets_view(v@).subrange(0, i as int),
        decreases v.len() - i,
    {
        let blob = v[i].to_bytes();
        proof {
            lemma_bodies_push(items@, blob);
        }
        items.push(blob);
        i += 1;
        assert(bodies(items@) =~= tickets_view(v@).subrange(0, i as int));
    }
    assert(tickets_view(v@).subrange(0, v.len() as int) =~= tickets_view(v@));
    let mut out: Vec<u8> = Vec::new();
    write_list(&mut out, &items);
    assert(out@ =~= enc_tickets(tickets_view(v@)));
    out
}

/// What `data` is the bytes of, if it is the bytes of a list of tickets.
pub fn decode_tickets(data: &Vec<u8>) -> (r: Option<Vec<Ticket>>)
    ensures
        match dec_tickets(data@) {
            Some(s) => r matches Some(v) && tickets_view(v@) == s,
            None => r is None,
        },
{
    let items = read_list(data)?;
    let ghost read = |x: Seq<u8>| ticket_of_blob(x);
    let mut out: Vec<Ticket> = Vec::new();
    let mut i: usize = 0;
    while i < items.len()
        invariant
            i <= items.len(),
            out@.len() == i,
            read == (|x: Seq<u8>| ticket_of_blob(x)),
            dec_list(data@) == Some(bodies(items@)),
            forall|k: int| 0 <= k < i ==> (#[trigger] read(bodies(items@)[k])) == Some(out@[k]@),
        decreases items.len() - i,
    {
        match Ticket::from_bytes(&items[i]) {
            Some(t) => {
                out.push(t);
            },
            None => {
                assert(read(bodies(items@)[i as int]) is None);
                return None;
            },
        }
        i += 1;
    }
    assert(Seq::new(items@.len(), |k: int| read(bodies(items@)[k])->0) =~= tickets_view(out@));
    Some(out)
}

// ---------------------------------------------------------------------
// Lists of texts

/// The bytes of a list of texts.
pub open spec fn enc_texts(v: Seq<Seq<char>>) -> Seq<u8> {
    enc_list(each_blob(v, |s: Seq<char>| text_blob(s)))
}

/// What `b` is the bytes of, if it is the bytes of a list of texts.
pub open spec fn dec_texts(b: Seq<u8>) -> Option<Seq<Seq<char>>> {
    match dec_list(b) {
        Some(items) => each_of(items, |x: Seq<u8>| text_of_blob(x)),
        None => None,
    }
}

/// Neither the number of the texts nor the length of the encoding of any of
/// them is too large for eight bytes.
pub open spec fn texts_fit(v: Seq<Seq<char>>) -> bool {
    items_fit(each_blob(v, |s: Seq<char>| text_blob(s)))
}

/// The bytes of a list of texts that is valid decode to it.
pub proof fn lemma_texts_round_trip(v: Seq<Seq<char>>)
    requires
        texts_fit(v),
    ensures
        dec_texts(enc_texts(v)) == Some(v),
{
    let write = |s: Seq<char>| text_blob(s);
    let read = |x: Seq<u8>| text_of_blob(x);
    lemma_dec_list(each_blob(v, write));
    assert forall|i: int| 0 <= i < v.len() implies read(#[trigger] write(v[i])) == Some(v[i]) by {
        lemma_text_blob(v[i]);
    }
    lemma_each(v, write, read);
}

/// The bytes of a list of texts.
pub fn encode_texts(v: &Vec<String>) -> (out: Vec<u8>)
    ensures
        out@ == enc_texts(texts_view(v@)),
        texts_fit(texts_view(v@)),
{
    let ghost write = |s: Seq<char>| text_blob(s);
    let mut items: Vec<Vec<u8>> = Vec::new();
    let mut i: usize = 0;
    while i < v.len()
        invariant
            i <= v.len(),
            write == (|s: Seq<char>| text_blob(s)),
            bodies(items@) == each_blob(texts_view(v@), write).subrange(0, i as int),
        decreases v.len() - i,
    {
        let blob = put_text(&v[i]);
        proof {
            lemma_bodies_push(items@, blob);
        }
        items.push(blob);
        i += 1;
        assert(bodies(items@) =~= each_blob(texts_view(v@), write).subrange(0, i as int));
    }
    assert(each_blob(texts_view(v@), write).subrange(0, v.len() as int) =~= each_blob(
        texts_view(v@),
        write,
    ));
    let mut out: Vec<u8> = Vec::new();
    write_list(&mut out, &items);
    assert(out@ =~= enc_texts(texts_view(v@)));
    out
}

/// What `data` is the bytes of, if it is the bytes of a list of texts.
pub fn decode_texts(data: &Vec<u8>) -> (r: Option<Vec<String>>)
    ensures
        match dec_texts(data@) {
            Some(s) => r matches Some(v) && texts_view(v@) == s,
            None => r is None,
        },
{
    let items = read_list(data)?;
    let ghost read = |x: Seq<u8>| text_of_blob(x);
    let mut out: Vec<String> = Vec::new();
    let mut i: usize = 0;
    while i < items.len()
        invariant
            i <= items.len(),
            out@.len() == i,
            read == (|x: Seq<u8>| text_of_blob(x)),
            dec_list(data@) == Some(bodies(items@)),
            forall|k: int| 0 <= k < i ==> (#[trigger] read(bodies(items@)[k])) == Some(out@[k]@),
        decreases items.len() - i,
    {
        match get_text(&items[i]) {
            Some(t) => {
                out.push(t);
            },
            None => {
                assert(read(bodies(items@)[i as int]) is None);
                return None;
            },
        }
        i += 1;
    }
    assert(Seq::new(items@.len(), |k: int| read(bodies(items@)[k])->0) =~= texts_view(out@));
    Some(out)
}

// ---------------------------------------------------------------------
// Lists of data slots

/// The bytes of a list of data slots.
pub open spec fn enc_slots(v: Seq<Option<Seq<u8>>>) -> Seq<u8> {
    enc_list(each_blob(v, |s: Option<Seq<u8>>| slot_blob(s)))
}

/// What `b` is the bytes of, if it is the bytes of a list of data slots.
pub open spec fn dec_slots(b: Seq<u8>) -> Option<Seq<Option<Seq<u8>>>> {
    match dec_list(b) {
        Some(items) => each_of(items, |x: Seq<u8>| slot_of_blob(x)),
        None => None,
    }
}

/// Neither the number of the slots nor the length of the bytes of any of them
/// is too large for eight bytes.
pub open spec fn slots_fit(v: Seq<Option<Seq<u8>>>) -> bool {
    items_fit(each_blob(v, |s: Option<Seq<u8>>| slot_blob(s)))
}

/// The bytes of a list of data slots that is valid decode to it.
pub proof fn lemma_slots_round_trip(v: Seq<Option<Seq<u8>>>)
    requires
        slots_fit(v),
    ensures
        dec_slots(enc_slots(v)) == Some(v),
{
    let write = |s: Option<Seq<u8>>| slot_blob(s);
    let read = |x: Seq<u8>| slot_of_blob(x);
    lemma_dec_list(each_blob(v, write));
    assert forall|i: int| 0 <= i < v.len() implies read(#[trigger] write(v[i])) == Some(v[i]) by {
        lemma_slot_blob(v[i]);
    }
    lemma_each(v, write, read);
}

/// The bytes of a list of data slots.
pub fn encode_slots(v: &Vec<Option<Vec<u8>>>) -> (out: Vec<u8>)
    ensures
        out@ == enc_slots(slots_view(v@)),
        slots_fit(slots_view(v@)),
{
    let ghost write = |s: Option<Seq<u8>>| slot_blob(s);
    let mut items: Vec<Vec<u8>> = Vec::new();
    let mut i: usize = 0;
    while i < v.len()
        invariant
            i <= v.len(),
            write == (|s: Option<Seq<u8>>| slot_blob(s)),
            bodies(items@) == each_blob(slots_view(v@), write).subrange(0, i as int),
        decreases v.len() - i,
    {
        let blob = put_slot(&v[i]);
        proof {
            lemma_bodies_push(items@, blob);
        }
        items.push(blob);
        i += 1;
        assert(bodies(items@) =~= each_blob(slots_view(v@), write).subrange(0, i as int));
    }
    assert(each_blob(slots_view(v@), write).subrange(0, v.len() as int) =~= each_blob(
        slots_view(v@),
        write,
    ));
    let mut out: Vec<u8> = Vec::new();
    write_list(&mut out, &items);
    assert(out@ =~= enc_slots(slots_view(v@)));
    out
}

/// What `data` is the bytes of, if it is the bytes of a list of data slots.
pub fn decode_slots(data: &Vec<u8>) -> (r: Option<Vec<Option<Vec<u8>>>>)
    ensures
        match dec_slots(data@) {
            Some(s) => r matches Some(v) && slots_view(v@) == s,
            None => r is None,
        },
{
    let items = read_list(data)?;
    let ghost read = |x: Seq<u8>| slot_of_blob(x);
    let mut out: Vec<Option<Vec<u8>>> = Vec::new();
    let mut i: usize = 0;
    while i < items.len()
        invariant
            i <= items.len(),
            out@.len() == i,
            read == (|x: Seq<u8>| slot_of_blob(x)),
            dec_list(data@) == Some(bodies(items@)),
            forall|k: int|
                0 <= k < i ==> (#[trigger] read(bodies(items@)[k])) == Some(slot_view(out@[k])),
        decreases items.len() - i,
    {
        match get_slot(&items[i]) {
            Some(t) => {
                out.push(t);
            },
            None => {
                assert(read(bodies(items@)[i as int]) is None);
                return None;
            },
        }
        i += 1;
    }
    assert(Seq::new(items@.len(), |k: int| read(bodies(items@)[k])->0) =~= slots_view(out@));
    Some(out)
}

// ---------------------------------------------------------------------
// Lists of transactions

/// The bytes of a list of transactions.
pub open spec fn enc_transactions(v: Seq<TransactionView>) -> Seq<u8> {
    enc_list(each_blob(v, |t: TransactionView| enc_transaction(t)))
}

/// What `b` is the bytes of, if it is the bytes of a list of transactions.
pub open spec fn dec_transactions(b: Seq<u8>) -> Option<Seq<TransactionView>> {
    match dec_list(b) {
        Some(items) => each_of(items, |x: Seq<u8>| dec_transaction(x)),
        None => None,
    }
}

/// Each transaction is valid, and neither their number nor the length of
/// the bytes of any of them is too large for eight bytes.
pub open spec fn transactions_fit(v: Seq<TransactionView>) -> bool {
    &&& items_fit(each_blob(v, |t: TransactionView| enc_transaction(t)))
    &&& forall|i: int| 0 <= i < v.len() ==> transaction_fits(#[trigger] v[i])
}

/// The bytes of a list of transactions that is valid decode to it.
pub proof fn lemma_transactions_round_trip(v: Seq<TransactionView>)
    requires
        transactions_fit(v),
    ensures
        dec_transactions(enc_transactions(v)) == Some(v),
{
    let write = |t: TransactionView| enc_transaction(t);
    let read = |x: Seq<u8>| dec_transaction(x);
    lemma_dec_list(each_blob(v, write));
    assert forall|i: int| 0 <= i < v.len() implies read(#[trigger] write(v[i])) == Some(v[i]) by {
        lemma_transaction_round_trip(v[i]);
    }
    lemma_each(v, write, read);
}

/// The bytes of a list of transactions.
pub fn encode_transactions(v: &Vec<Transaction>) -> (out: Vec<u8>)
    ensures
        out@ == enc_transactions(transactions_view(v@)),
        transactions_fit(transactions_view(v@)),
{
    let ghost write = |t: TransactionView| enc_transaction(t);
    let mut items: Vec<Vec<u8>> = Vec::new();
    let mut i: usize = 0;
    while i < v.len()
        invariant
            i <= v.len(),
            write == (|t: TransactionView| enc_transaction(t)),
            bodies(items@) == each_blob(transactions_view(v@), write).subrange(0, i as int),
            forall|k: int| 0 <= k < i ==> transaction_fits(#[trigger] transactions_view(v@)[k]),
        decreases v.len() - i,
    {
        let blob = v[i].encode();
        proof {
            lemma_bodies_push(items@, blob);
        }
        items.push(blob);
        i += 1;
        assert(bodies(items@) =~= each_blob(transactions_view(v@), write).subrange(0, i as int));
    }
    assert(each_blob(transactions_view(v@), write).subrange(0, v.len() as int) =~= each_blob(
        transactions_view(v@),
        write,
    ));
    let mut out: Vec<u8> = Vec::new();
    write_list(&mut out, &items);
    assert(out@ =~= enc_transactions(transactions_view(v@)));
    out
}

/// What `data` is the bytes of, if it is the bytes of a list of transactions.
pub fn decode_transactions(data: &Vec<u8>) -> (r: Option<Vec<Transaction>>)
    ensures
        match dec_transactions(data@) {
            Some(s) => r matches Some(v) && transactions_view(v@) == s,
            None => r is None,
        },
{
    let items = read_list(data)?;
    let ghost read = |x: Seq<u8>| dec_transaction(x);
    let mut out: Vec<Transaction> = Vec::new();
    let mut i: usize = 0;
    while i < items.len()
        invariant
            i <= items.len(),
            out@.len() == i,
            read == (|x: Seq<u8>| dec_transaction(x)),
            dec_list(data@) == Some(bodies(items@)),
            forall|k: int| 0 <= k < i ==> (#[trigger] read(bodies(items@)[k])) == Some(out@[k]@),
        decreases items.len() - i,
    {
        match Transaction::decode(&items[i]) {
            Some(t) => {
                out.push(t);
            },
            None => {
                assert(read(bodies(items@)[i as int]) is None);
                return None;
            },
        }
        i += 1;
    }
    assert(Seq::new(items@.len(), |k: int| read(bodies(items@)[k])->0) =~= transactions_view(
        out@,
    ));
    Some(out)
}

} // verus!
