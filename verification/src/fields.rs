//! How a single field is written as the bytes of one item.
//!
//! Each kind of field has a spec function that gives its bytes, a spec
//! function that reads a field back from bytes that hold exactly one field,
//! a lemma that the second undoes the first, and the two executable
//! functions.

use crate::bytes::{
    be_bytes, be_value, copy_range, lemma_be_bytes_len, lemma_be_value_bound,
    lemma_be_value_of_bytes, lemma_pow256_values, push_be, read_be,
};
use vstd::prelude::*;
use vstd::string::StrSliceExecFns;
use vstd::utf8::{
    decode_utf8, encode_utf8, encode_utf8_decode_utf8, encode_utf8_valid_utf8, valid_utf8,
};

verus! {

/// The bytes of a 64-bit number: eight, big-endian.
pub open spec fn u64_blob(v: u64) -> Seq<u8> {
    be_bytes(v as nat, 8)
}

/// The number that `b` holds, if `b` has eight bytes.
pub open spec fn u64_of_blob(b: Seq<u8>) -> Option<u64> {
    if b.len() == 8 {
        Some(be_value(b) as u64)
    } else {
        None
    }
}

/// A number is read back from its eight bytes.
pub proof fn lemma_u64_blob(v: u64)
    ensures
        u64_of_blob(u64_blob(v)) == Some(v),
        u64_blob(v).len() == 8,
{
    lemma_be_bytes_len(v as nat, 8);
    lemma_pow256_values();
    lemma_be_value_of_bytes(v as nat, 8);
}

/// The eight bytes of `v`.
pub fn put_u64(v: u64) -> (b: Vec<u8>)
    ensures
        b@ == u64_blob(v),
{
    let mut b: Vec<u8> = Vec::new();
    push_be(&mut b, v, 8);
    assert(b@ =~= u64_blob(v));
    b
}

/// The number that `b` holds, if `b` has eight bytes.
pub fn get_u64(b: &Vec<u8>) -> (r: Option<u64>)
    ensures
        r == u64_of_blob(b@),
{
    if b.len() == 8 {
        let v: u64 = read_be(b, 0, 8);
        assert(b@.subrange(0, 8) =~= b@);
        Some(v)
    } else {
        None
    }
}

/// The bytes of a 32-bit number: four, big-endian.
pub open spec fn u32_blob(v: u32) -> Seq<u8> {
    be_bytes(v as nat, 4)
}

/// The number that `b` holds, if `b` has four bytes.
pub open spec fn u32_of_blob(b: Seq<u8>) -> Option<u32> {
    if b.len() == 4 {
        Some(be_value(b) as u32)
    } else {
        None
    }
}

/// A number is read back from its four bytes.
pub proof fn lemma_u32_blob(v: u32)
    ensures
        u32_of_blob(u32_blob(v)) == Some(v),
        u32_blob(v).len() == 4,
{
    lemma_be_bytes_len(v as nat, 4);
    lemma_pow256_values();
    lemma_be_value_of_bytes(v as nat, 4);
}

/// The four bytes of `v`.
pub fn put_u32(v: u32) -> (b: Vec<u8>)
    ensures
        b@ == u32_blob(v),
{
    let mut b: Vec<u8> = Vec::new();
    push_be(&mut b, v as u64, 4);
    assert(b@ =~= u32_blob(v));
    b
}

/// The number that `b` holds, if `b` has four bytes.
pub fn get_u32(b: &Vec<u8>) -> (r: Option<u32>)
    ensures
        r == u32_of_blob(b@),
{
    if b.len() == 4 {
        let v: u64 = read_be(b, 0, 4);
        proof {
            assert(b@.subrange(0, 4) =~= b@);
            lemma_be_value_bound(b@);
            lemma_pow256_values();
        }
        Some(v as u32)
    } else {
        None
    }
}

/// The bytes of a truth value: one byte, 1 for true and 0 for false.
pub open spec fn bool_blob(v: bool) -> Seq<u8> {
    seq![if v { 1u8 } else { 0u8 }]
}

/// The truth value that `b` holds, if `b` is one byte that is 0 or 1.
pub open spec fn bool_of_blob(b: Seq<u8>) -> Option<bool> {
    if b.len() == 1 && b[0] <= 1 {
        Some(b[0] == 1)
    } else {
        None
    }
}

/// A truth value is read back from its byte.
pub proof fn lemma_bool_blob(v: bool)
    ensures
        bool_of_blob(bool_blob(v)) == Some(v),
        bool_blob(v).len() == 1,
{
}

/// The byte of `v`.
pub fn put_bool(v: bool) -> (b: Vec<u8>)
    ensures
        b@ == bool_blob(v),
{
    let mut b: Vec<u8> = Vec::new();
    b.push(if v { 1u8 } else { 0u8 });
    assert(b@ =~= bool_blob(v));
    b
}

/// The truth value that `b` holds, if `b` is one byte that is 0 or 1.
pub fn get_bool(b: &Vec<u8>) -> (r: Option<bool>)
    ensures
        r == bool_of_blob(b@),
{
    if b.len() == 1 && b[0] <= 1 {
        Some(b[0] == 1)
    } else {
        None
    }
}

/// The bytes of a text: its UTF-8 encoding.
pub open spec fn text_blob(s: Seq<char>) -> Seq<u8> {
    encode_utf8(s)
}

/// The text that `b` encodes, if `b` is valid UTF-8.
pub open spec fn text_of_blob(b: Seq<u8>) -> Option<Seq<char>> {
    if valid_utf8(b) {
        Some(decode_utf8(b))
    } else {
        None
    }
}

/// A text is read back from its UTF-8 encoding.
pub proof fn lemma_text_blob(s: Seq<char>)
    ensures
        text_of_blob(text_blob(s)) == Some(s),
{
    encode_utf8_valid_utf8(s);
    encode_utf8_decode_utf8(s);
}

/// The UTF-8 encoding of `s`.
pub fn put_text(s: &String) -> (b: Vec<u8>)
    ensures
        b@ == text_blob(s@),
{
    s.as_str().as_bytes_vec()
}

/// `String::from_utf8` of the standard library, with the error dropped:
/// the text that `b` encodes, if and only if `b` is valid UTF-8.
#[verifier::external_body]
pub(crate) fn text_from_utf8(b: Vec<u8>) -> (r: Option<String>)
    ensures
        r is Some <==> valid_utf8(b@),
        r matches Some(s) ==> s@ == decode_utf8(b@),
{
    String::from_utf8(b).ok()
}

/// The text that `b` encodes, if `b` is valid UTF-8.
pub fn get_text(b: &Vec<u8>) -> (r: Option<String>)
    ensures
        match text_of_blob(b@) {
            Some(s) => r matches Some(t) && t@ == s,
            None => r is None,
        },
{
    let copy = copy_range(b, 0, b.len());
    assert(copy@ =~= b@);
    text_from_utf8(copy)
}

/// A copy of `b`.
pub fn get_bytes(b: &Vec<u8>) -> (r: Vec<u8>)
    ensures
        r@ == b@,
{
    let r = copy_range(b, 0, b.len());
    assert(b@.subrange(0, b.len() as int) =~= b@);
    r
}

/// The bytes of a byte string that may be absent: a zero byte if it is
/// absent, else a one byte and then the string.
pub open spec fn slot_blob(v: Option<Seq<u8>>) -> Seq<u8> {
    match v {
        None => seq![0u8],
        Some(x) => seq![1u8] + x,
    }
}

/// The byte string that may be absent whose bytes are `b`.
pub open spec fn slot_of_blob(b: Seq<u8>) -> Option<Option<Seq<u8>>> {
    if b.len() == 1 && b[0] == 0 {
        Some(None)
    } else if b.len() >= 1 && b[0] == 1 {
        Some(Some(b.subrange(1, b.len() as int)))
    } else {
        None
    }
}

/// A byte string that may be absent is read back from its bytes.
pub proof fn lemma_slot_blob(v: Option<Seq<u8>>)
    ensures
        slot_of_blob(slot_blob(v)) == Some(v),
{
    match v {
        None => {},
        Some(x) => {
            let b = slot_blob(v);
            assert(b.subrange(1, b.len() as int) =~= x);
        },
    }
}

/// The bytes of a byte string that may be absent.
pub fn put_slot(v: &Option<Vec<u8>>) -> (b: Vec<u8>)
    ensures
        b@ == slot_blob(
            match v {
                Some(x) => Some(x@),
                None => None,
            },
        ),
{
    let mut b: Vec<u8> = Vec::new();
    match v {
        None => {
            b.push(0u8);
            assert(b@ =~= seq![0u8]);
        },
        Some(x) => {
            b.push(1u8);
            crate::bytes::append_bytes(&mut b, x);
            assert(b@ =~= seq![1u8] + x@);
        },
    }
    b
}

/// The byte string that may be absent whose bytes are `b`, if `b` starts with 0
/// and ends there, or starts with 1.
pub fn get_slot(b: &Vec<u8>) -> (r: Option<Option<Vec<u8>>>)
    ensures
        match slot_of_blob(b@) {
            Some(Some(x)) => r matches Some(Some(y)) && y@ == x,
            Some(None) => r == Some(None::<Vec<u8>>),
            None => r is None,
        },
{
    if b.len() == 1 && b[0] == 0 {
        Some(None)
    } else if b.len() >= 1 && b[0] == 1 {
        Some(Some(copy_range(b, 1, b.len())))
    } else {
        None
    }
}

} // verus!
