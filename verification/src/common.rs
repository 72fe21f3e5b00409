//! What the commands of the client share: the key material of the built-in
//! accounts, and the making of a transaction that is still to be signed.

use crate::bytes::{be_bytes, push_u64};
use crate::codec::enc_transaction;
use crate::fields::get_bytes;
use crate::hexcode::{hex_decode, hex_decoded};
use crate::message::{ticket_option_view, Ticket, Transaction, TransactionView};
use crate::text::{append_chars, decimal, from_chars, push_decimal, to_chars};
use vstd::prelude::*;
use vstd::string::StringSliceAdditionalSpecFns;

verus! {

/// The name of the network that a node starts on.
pub const INITIAL_NETWORK_NAME: &'static str = "bootstrap";

/// The public key of the built-in account 1.
pub const PUB_KEY1: [u8; 97] = [
    0x04, 0xaf, 0xb0, 0xe9, 0x12, 0xe4, 0x82, 0x57, 0xda, 0x3c, 0xe9, 0x84, 0x7d, 0x51,
    0x8d, 0xc8, 0x41, 0x74, 0x40, 0x3c, 0xa4, 0xc9, 0x03, 0xad, 0xa4, 0x0f, 0x31, 0x3e,
    0x2b, 0xfa, 0xbe, 0xe7, 0x54, 0xd2, 0x97, 0x6d, 0x13, 0xbb, 0x2a, 0xd6, 0x3e, 0xa8,
    0x7d, 0xf6, 0x0f, 0xec, 0x75, 0x8f, 0x04, 0xc9, 0xc1, 0xb1, 0x47, 0x27, 0x36, 0x15,
    0xbb, 0xec, 0xca, 0xc7, 0xdd, 0x48, 0x9b, 0xeb, 0x20, 0x39, 0x10, 0x17, 0x12, 0x74,
    0xe1, 0xb1, 0x5d, 0x27, 0x4d, 0x6c, 0xc0, 0xf4, 0x62, 0x91, 0x66, 0x03, 0x69, 0x92,
    0xf2, 0xa2, 0x18, 0x44, 0xc7, 0xc4, 0xc0, 0xfd, 0xdd, 0x1b, 0x0e, 0x98, 0x70,
];

/// The private key of the built-in account 1.
pub const PVT_KEY1: [u8; 48] = [
    0x50, 0x14, 0x84, 0x55, 0xed, 0xac, 0x9c, 0x3a, 0x40, 0x8d, 0xc3, 0x50, 0xfa, 0x0c,
    0x26, 0x3c, 0x4e, 0x9b, 0x5c, 0x16, 0x4e, 0x20, 0x6e, 0x3d, 0x1e, 0xff, 0x97, 0xdb,
    0x22, 0xe8, 0x75, 0xc6, 0x55, 0x43, 0xd3, 0xb7, 0xce, 0xcb, 0x05, 0x3e, 0xf6, 0x86,
    0xb0, 0x0c, 0xb3, 0x71, 0x13, 0x30,
];

/// The public key of the built-in account 2.
pub const PUB_KEY2: [u8; 97] = [
    0x04, 0x75, 0x59, 0x74, 0xce, 0xc8, 0x05, 0x1c, 0xd1, 0x9a, 0xdb, 0x9f, 0x6a, 0x5d,
    0xae, 0xa9, 0x9c, 0x76, 0x84, 0x18, 0xa8, 0x4f, 0x6a, 0x8e, 0x1a, 0x3c, 0x17, 0xe2,
    0x0b, 0x86, 0x3b, 0x5e, 0x33, 0x72, 0xaf, 0x75, 0xfd, 0xb1, 0x16, 0x42, 0x88, 0xbc,
    0xc6, 0xa8, 0x5f, 0x54, 0xa7, 0x81, 0xf0, 0xad, 0x53, 0x3d, 0xd7, 0x22, 0xcf, 0x28,
    0x43, 0x7d, 0xfe, 0x76, 0x3c, 0xf4, 0xd5, 0xe9, 0xff, 0x2a, 0x86, 0x25, 0x18, 0x60,
    0x9a, 0x0b, 0x41, 0xba, 0x46, 0xdd, 0x6f, 0x3b, 0x9f, 0x03, 0xe4, 0x81, 0x50, 0x47,
    0xb5, 0xff, 0xe2, 0xa0, 0x3d, 0x1f, 0x4e, 0x6f, 0x42, 0xb2, 0xdb, 0xcc, 0xa1,
];

/// The private key of the built-in account 2.
pub const PVT_KEY2: [u8; 48] = [
    0x40, 0x07, 0xdb, 0x25, 0xc5, 0x82, 0xd3, 0x9d, 0x99, 0x12, 0xef, 0x60, 0x95, 0xd9,
    0x06, 0x4b, 0xcb, 0x6b, 0x84, 0x21, 0x1c, 0xf5, 0x70, 0xb5, 0xdd, 0x95, 0xa1, 0x05,
    0x45, 0xdd, 0xe2, 0x77, 0x07, 0xff, 0x40, 0x42, 0x70, 0x8e, 0xae, 0x0f, 0x35, 0x7b,
    0x5c, 0x8b, 0xcb, 0xbf, 0xbd, 0xdb,
];

/// The public key of the built-in account 3.
pub const PUB_KEY3: [u8; 97] = [
    0x04, 0x15, 0xcf, 0x93, 0xb2, 0x20, 0xa8, 0xba, 0xca, 0x93, 0x83, 0x23, 0xe0, 0x97,
    0x7d, 0xb3, 0xb5, 0xa3, 0xcc, 0xfc, 0x1e, 0x02, 0xd4, 0x1d, 0x92, 0xa0, 0x03, 0x94,
    0x77, 0x6c, 0xfb, 0x03, 0x40, 0x99, 0x46, 0xb2, 0x2b, 0x29, 0xb1, 0x10, 0x3b, 0xfe,
    0x82, 0xff, 0x9b, 0xd9, 0x46, 0xf1, 0x6d, 0x42, 0x20, 0x45, 0xbf, 0x8e, 0xe6, 0xa3,
    0xfc, 0x03, 0xe8, 0x0d, 0xeb, 0x10, 0xb8, 0xb1, 0x63, 0xb1, 0x3c, 0x52, 0x1a, 0xeb,
    0xd9, 0x43, 0xc7, 0x99, 0xb6, 0x7f, 0x26, 0x97, 0x49, 0x32, 0xf8, 0xc3, 0xc9, 0xf8,
    0x36, 0xe0, 0x69, 0xd3, 0x54, 0x64, 0x2e, 0xd9, 0x21, 0x6b, 0xef, 0xf0, 0x00,
];

/// The private key of the built-in account 3.
pub const PVT_KEY3: [u8; 48] = [
    0xe5, 0xe8, 0x6a, 0x16, 0x7d, 0xda, 0xd2, 0xd2, 0x8b, 0xaa, 0x5b, 0x17, 0x92, 0xb3,
    0xbb, 0x83, 0xff, 0x36, 0x6f, 0x57, 0xda, 0xda, 0x85, 0xd7, 0xf2, 0x68, 0xf7, 0x50,
    0xa7, 0x0b, 0xbb, 0x20, 0xd0, 0xc4, 0x63, 0xee, 0x7c, 0x71, 0xe6, 0x69, 0x25, 0x0e,
    0xfb, 0x44, 0x37, 0x57, 0x35, 0xd1,
];

/// The two halves of a key pair, as bytes.
#[derive(Clone, Debug, PartialEq, Eq)]
pub struct KeyPair {
    pub public_key: Vec<u8>,
    pub private_key: Vec<u8>,
}

pub struct KeyPairView {
    pub public_key: Seq<u8>,
    pub private_key: Seq<u8>,
}

impl View for KeyPair {
    type V = KeyPairView;

    open spec fn view(&self) -> KeyPairView {
        KeyPairView { public_key: self.public_key@, private_key: self.private_key@ }
    }
}

/// A copy of the bytes of `a`.
fn bytes_of_97(a: &[u8; 97]) -> (v: Vec<u8>)
    ensures
        v@ == a@,
{
    let mut v: Vec<u8> = Vec::new();
    let mut i: usize = 0;
    while i < 97
        invariant
            i <= 97,
            v@ == a@.subrange(0, i as int),
        decreases 97 - i,
    {
        v.push(a[i]);
        i += 1;
        assert(v@ =~= a@.subrange(0, i as int));
    }
    assert(a@.subrange(0, 97) =~= a@);
    v
}

/// A copy of the bytes of `a`.
fn bytes_of_48(a: &[u8; 48]) -> (v: Vec<u8>)
    ensures
        v@ == a@,
{
    let mut v: Vec<u8> = Vec::new();
    let mut i: usize = 0;
    while i < 48
        invariant
            i <= 48,
            v@ == a@.subrange(0, i as int),
        decreases 48 - i,
    {
        v.push(a[i]);
        i += 1;
        assert(v@ =~= a@.subrange(0, i as int));
    }
    assert(a@.subrange(0, 48) =~= a@);
    v
}

/// The key pair whose halves are written in hexadecimal as `pub_key` and
/// `pvt_key`, if both are hexadecimal texts.
pub fn create_keypair(pub_key: &str, pvt_key: &str) -> (r: Option<KeyPair>)
    ensures
        match (hex_decoded(pub_key.spec_bytes()), hex_decoded(pvt_key.spec_bytes())) {
            (Ok(public_key), Ok(private_key)) => r matches Some(k) && k@ == (KeyPairView {
                public_key,
                private_key,
            }),
            _ => r is None,
        },
{
    let public_key = match hex_decode(pub_key) {
        Ok(v) => v,
        Err(_) => {
            return None;
        },
    };
    let private_key = match hex_decode(pvt_key) {
        Ok(v) => v,
        Err(_) => {
            return None;
        },
    };
    Some(KeyPair { public_key, private_key })
}

/// The key pair of the first built-in account, which is used where no key
/// file is given.
pub fn default_keypair() -> (k: KeyPair)
    ensures
        k.public_key@ == PUB_KEY1@,
        k.private_key@ == PVT_KEY1@,
{
    KeyPair { public_key: bytes_of_97(&PUB_KEY1), private_key: bytes_of_48(&PVT_KEY1) }
}

/// The key pairs of the three built-in accounts, in order.
pub fn account_keypairs() -> (v: Vec<KeyPair>)
    ensures
        v@.len() == 3,
        v@[0].public_key@ == PUB_KEY1@ && v@[0].private_key@ == PVT_KEY1@,
        v@[1].public_key@ == PUB_KEY2@ && v@[1].private_key@ == PVT_KEY2@,
        v@[2].public_key@ == PUB_KEY3@ && v@[2].private_key@ == PVT_KEY3@,
{
    let mut v: Vec<KeyPair> = Vec::new();
    v.push(KeyPair { public_key: bytes_of_97(&PUB_KEY1), private_key: bytes_of_48(&PVT_KEY1) });
    v.push(KeyPair { public_key: bytes_of_97(&PUB_KEY2), private_key: bytes_of_48(&PVT_KEY2) });
    v.push(KeyPair { public_key: bytes_of_97(&PUB_KEY3), private_key: bytes_of_48(&PVT_KEY3) });
    v
}

/// `rand::random::<u64>()`: a number drawn by the generator of the thread.
/// Nothing is known of it.
#[verifier::external_body]
pub(crate) fn random_u64() -> (r: u64) {
    rand::random::<u64>()
}

/// The nonce that the drawn number `r` gives: its eight bytes, big-endian.
pub fn nonce_of(r: u64) -> (nonce: Vec<u8>)
    ensures
        nonce@ == be_bytes(r as nat, 8),
{
    let mut nonce: Vec<u8> = Vec::new();
    push_u64(&mut nonce, r);
    assert(nonce@ =~= be_bytes(r as nat, 8));
    nonce
}

/// The transaction that is made of the given parts and the number `r`
/// drawn for its nonce. It is not signed yet.
pub fn transaction_with_nonce(
    caller: &KeyPair,
    network: String,
    account: String,
    contract: Option<Ticket>,
    method: String,
    args: Vec<u8>,
    fuel_limit: u64,
    r: u64,
) -> (tx: Transaction)
    ensures
        tx@ == (TransactionView {
            network: network@,
            account: account@,
            fuel_limit,
            nonce: be_bytes(r as nat, 8),
            contract: ticket_option_view(contract),
            method: method@,
            caller: caller.public_key@,
            args: args@,
            signature: Seq::empty(),
        }),
{
    Transaction {
        network,
        account,
        fuel_limit,
        nonce: nonce_of(r),
        contract,
        method,
        caller: get_bytes(&caller.public_key),
        args,
        signature: Vec::new(),
    }
}

/// A transaction of `caller` made of the given parts, with a nonce drawn
/// at random. It is not signed yet: the signature is to be made over
/// `signing_input` and put in its place.
pub fn build_transaction(
    caller: &KeyPair,
    network: String,
    account: String,
    contract: Option<Ticket>,
    method: String,
    args: Vec<u8>,
    fuel_limit: u64,
) -> (tx: Transaction)
    ensures
        exists|r: u64|
            tx@ == (TransactionView {
                network: network@,
                account: account@,
                fuel_limit,
                nonce: #[trigger] be_bytes(r as nat, 8),
                contract: ticket_option_view(contract),
                method: method@,
                caller: caller.public_key@,
                args: args@,
                signature: Seq::empty(),
            }),
{
    let r: u64 = random_u64();
    transaction_with_nonce(caller, network, account, contract, method, args, fuel_limit, r)
}

/// The view of `tx` without its signature.
pub open spec fn unsigned(tx: TransactionView) -> TransactionView {
    TransactionView { signature: Seq::empty(), ..tx }
}

/// The bytes that the signature of `tx` is made over: the bytes of the
/// transaction without a signature.
pub fn signing_input(tx: &Transaction) -> (bytes: Vec<u8>)
    ensures
        bytes@ == enc_transaction(unsigned(tx@)),
{
    let bare = Transaction {
        network: tx.network.clone(),
        account: tx.account.clone(),
        fuel_limit: tx.fuel_limit,
        nonce: get_bytes(&tx.nonce),
        contract: tx.contract,
        method: tx.method.clone(),
        caller: get_bytes(&tx.caller),
        args: get_bytes(&tx.args),
        signature: Vec::new(),
    };
    bare.encode()
}

/// What is shown of a transaction whose arguments may be long: the
/// arguments cut to their first `max` bytes, everything else as it is.
pub open spec fn clipped(tx: TransactionView, max: nat) -> TransactionView {
    if tx.args.len() > max {
        TransactionView { args: tx.args.subrange(0, max as int), ..tx }
    } else {
        tx
    }
}

/// What is shown of `tx`: the transaction with its arguments cut to their
/// first `max` bytes, and the length that the arguments had if they were
/// cut, else 0.
pub fn printable(tx: &Transaction, max: usize) -> (r: (Transaction, usize))
    ensures
        r.0@ == clipped(tx@, max as nat),
        r.1 == if tx.args@.len() > max {
            tx.args@.len()
        } else {
            0
        },
{
    let previous: usize = if tx.args.len() > max {
        tx.args.len()
    } else {
        0
    };
    let args = if tx.args.len() > max {
        crate::bytes::copy_range(&tx.args, 0, max)
    } else {
        get_bytes(&tx.args)
    };
    (
        Transaction {
            network: tx.network.clone(),
            account: tx.account.clone(),
            fuel_limit: tx.fuel_limit,
            nonce: get_bytes(&tx.nonce),
            contract: tx.contract,
            method: tx.method.clone(),
            caller: get_bytes(&tx.caller),
            args,
            signature: get_bytes(&tx.signature),
        },
        previous,
    )
}

/// The note that goes with a transaction shown with cut arguments.
pub fn clip_note(max: usize, total: usize) -> (note: String)
    ensures
        note@ == "Note: the `args` field is clipped to the first "@ + decimal(max as nat)
            + " bytes of the total "@ + decimal(total as nat) + " bytes"@,
{
    let mut text = to_chars("Note: the `args` field is clipped to the first ");
    push_decimal(&mut text, max as u64);
    let middle = to_chars(" bytes of the total ");
    append_chars(&mut text, &middle);
    push_decimal(&mut text, total as u64);
    let end = to_chars(" bytes");
    append_chars(&mut text, &end);
    from_chars(&text)
}

} // verus!
