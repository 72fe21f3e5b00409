//! The byte encoding of the records that messages carry.
//!
//! A record is a list of items, one item per field, in the order of the
//! fields. A record inside another record is one item of it.

use crate::fields::{
    bool_blob, bool_of_blob, get_bool, get_bytes, get_text, get_u32, get_u64, lemma_bool_blob,
    lemma_text_blob, lemma_u32_blob, lemma_u64_blob, put_bool, put_text, put_u32, put_u64,
    text_blob, text_of_blob, u32_blob, u32_of_blob, u64_blob, u64_of_blob,
};
use crate::message::{
    ticket_option_view, Account, AccountView, Block, BlockView, ErrorKind, Ticket, Receipt,
    ReceiptView, RemoteError, RemoteErrorView, Transaction, TransactionView, TICKET_SIZE,
};
use crate::wire::{bodies, dec_list, enc_list, items_fit, lemma_dec_list, read_list, write_list};
use vstd::prelude::*;

verus! {

/// The bytes of a ticket: the ticket itself.
pub open spec fn ticket_of_blob(b: Seq<u8>) -> Option<Seq<u8>> {
    if b.len() == TICKET_SIZE {
        Some(b)
    } else {
        None
    }
}

/// The bytes of a ticket that may be absent: none if it is absent.
pub open spec fn opt_ticket_blob(h: Option<Seq<u8>>) -> Seq<u8> {
    match h {
        Some(x) => x,
        None => Seq::empty(),
    }
}

/// The ticket that may be absent whose bytes are `b`: none for no bytes, a ticket for 32.
pub open spec fn opt_ticket_of_blob(b: Seq<u8>) -> Option<Option<Seq<u8>>> {
    if b.len() == 0 {
        Some(None)
    } else if b.len() == TICKET_SIZE {
        Some(Some(b))
    } else {
        None
    }
}

/// A ticket that may be absent has 32 bytes if it is there.
pub open spec fn opt_ticket_fits(h: Option<Seq<u8>>) -> bool {
    h matches Some(x) ==> x.len() == TICKET_SIZE
}

/// The bytes of a ticket that may be absent.
pub fn put_opt_ticket(h: &Option<Ticket>) -> (b: Vec<u8>)
    ensures
        b@ == opt_ticket_blob(ticket_option_view(*h)),
        opt_ticket_fits(ticket_option_view(*h)),
{
    match h {
        Some(x) => x.to_bytes(),
        None => Vec::new(),
    }
}

/// The ticket that may be absent whose bytes are `b`, if `b` has none or 32 bytes.
pub fn get_opt_ticket(b: &Vec<u8>) -> (r: Option<Option<Ticket>>)
    ensures
        match opt_ticket_of_blob(b@) {
            Some(h) => r matches Some(x) && ticket_option_view(x) == h,
            None => r is None,
        },
{
    if b.len() == 0 {
        Some(None)
    } else {
        match Ticket::from_bytes(b) {
            Some(h) => Some(Some(h)),
            None => None,
        }
    }
}

/// The number that stands for a class of failure.
pub open spec fn kind_code(k: ErrorKind) -> u8 {
    match k {
        ErrorKind::MalformedData => 0,
        ErrorKind::InvalidSignature => 1,
        ErrorKind::DuplicatedConfirmedTx => 2,
        ErrorKind::DuplicatedUnconfirmedTx => 3,
        ErrorKind::ResourceNotFound => 4,
        ErrorKind::WasmMachineFault => 5,
        ErrorKind::SmartContractFault => 6,
        ErrorKind::FuelError => 7,
        ErrorKind::NotImplemented => 8,
        ErrorKind::Tpm2Error => 9,
        ErrorKind::WrongTxType => 10,
        ErrorKind::BrokenIntegrity => 11,
        ErrorKind::Other => 12,
    }
}

/// The class of failure that a number stands for, if it stands for one.
pub open spec fn kind_of_code(c: u8) -> Option<ErrorKind> {
    if c == 0 {
        Some(ErrorKind::MalformedData)
    } else if c == 1 {
        Some(ErrorKind::InvalidSignature)
    } else if c == 2 {
        Some(ErrorKind::DuplicatedConfirmedTx)
    } else if c == 3 {
        Some(ErrorKind::DuplicatedUnconfirmedTx)
    } else if c == 4 {
        Some(ErrorKind::ResourceNotFound)
    } else if c == 5 {
        Some(ErrorKind::WasmMachineFault)
    } else if c == 6 {
        Some(ErrorKind::SmartContractFault)
    } else if c == 7 {
        Some(ErrorKind::FuelError)
    } else if c == 8 {
        Some(ErrorKind::NotImplemented)
    } else if c == 9 {
        Some(ErrorKind::Tpm2Error)
    } else if c == 10 {
        Some(ErrorKind::WrongTxType)
    } else if c == 11 {
        Some(ErrorKind::BrokenIntegrity)
    } else if c == 12 {
        Some(ErrorKind::Other)
    } else {
        None
    }
}

/// The class of failure that the one byte of `b` stands for.
pub open spec fn kind_of_blob(b: Seq<u8>) -> Option<ErrorKind> {
    if b.len() == 1 {
        kind_of_code(b[0])
    } else {
        None
    }
}

impl ErrorKind {
    /// The number that stands for the class.
    pub fn code(self) -> (c: u8)
        ensures
            c == kind_code(self),
    {
        match self {
            ErrorKind::MalformedData => 0,
            ErrorKind::InvalidSignature => 1,
            ErrorKind::DuplicatedConfirmedTx => 2,
            ErrorKind::DuplicatedUnconfirmedTx => 3,
            ErrorKind::ResourceNotFound => 4,
            ErrorKind::WasmMachineFault => 5,
            ErrorKind::SmartContractFault => 6,
            ErrorKind::FuelError => 7,
            ErrorKind::NotImplemented => 8,
            ErrorKind::Tpm2Error => 9,
            ErrorKind::WrongTxType => 10,
            ErrorKind::BrokenIntegrity => 11,
            ErrorKind::Other => 12,
        }
    }

    /// The class that the number `c` stands for, if it stands for one.
    pub fn from_code(c: u8) -> (k: Option<ErrorKind>)
        ensures
            k == kind_of_code(c),
    {
        if c == 0 {
            Some(ErrorKind::MalformedData)
        } else if c == 1 {
            Some(ErrorKind::InvalidSignature)
        } else if c == 2 {
            Some(ErrorKind::DuplicatedConfirmedTx)
        } else if c == 3 {
            Some(ErrorKind::DuplicatedUnconfirmedTx)
        } else if c == 4 {
            Some(ErrorKind::ResourceNotFound)
        } else if c == 5 {
            Some(ErrorKind::WasmMachineFault)
        } else if c == 6 {
            Some(ErrorKind::SmartContractFault)
        } else if c == 7 {
            Some(ErrorKind::FuelError)
        } else if c == 8 {
            Some(ErrorKind::NotImplemented)
        } else if c == 9 {
            Some(ErrorKind::Tpm2Error)
        } else if c == 10 {
            Some(ErrorKind::WrongTxType)
        } else if c == 11 {
            Some(ErrorKind::BrokenIntegrity)
        } else if c == 12 {
            Some(ErrorKind::Other)
        } else {
            None
        }
    }
}

/// Every class of failure is found again from its number.
pub proof fn lemma_kind_code(k: ErrorKind)
    ensures
        kind_of_code(kind_code(k)) == Some(k),
{
}

pub(crate) fn put_byte(c: u8) -> (b: Vec<u8>)
    ensures
        b@ == seq![c],
{
    let mut b: Vec<u8> = Vec::new();
    b.push(c);
    assert(b@ =~= seq![c]);
    b
}

// ---------------------------------------------------------------------
// A failure reported by the remote service

/// The items of a reported failure, one for each field.
pub open spec fn error_items(e: RemoteErrorView) -> Seq<Seq<u8>> {
    seq![seq![kind_code(e.kind)], text_blob(e.message)]
}

/// What has `items` for its fields, if they are the fields of a reported failure.
pub open spec fn error_of_items(items: Seq<Seq<u8>>) -> Option<RemoteErrorView> {
    if items.len() != 2 {
        None
    } else {
        match (kind_of_blob(items[0]), text_of_blob(items[1])) {
            (Some(kind), Some(message)) => Some(RemoteErrorView { kind, message }),
            _ => None,
        }
    }
}

/// The bytes of a reported failure.
pub open spec fn enc_error(e: RemoteErrorView) -> Seq<u8> {
    enc_list(error_items(e))
}

/// What `b` is the bytes of, if it is the bytes of a reported failure.
pub open spec fn dec_error(b: Seq<u8>) -> Option<RemoteErrorView> {
    match dec_list(b) {
        Some(items) => error_of_items(items),
        None => None,
    }
}

/// The length of the text of the failure fits in eight bytes.
pub open spec fn error_fits(e: RemoteErrorView) -> bool {
    items_fit(error_items(e))
}

/// The bytes of a reported failure that is valid decode to it.
pub proof fn lemma_error_round_trip(e: RemoteErrorView)
    requires
        error_fits(e),
    ensures
        dec_error(enc_error(e)) == Some(e),
{
    lemma_dec_list(error_items(e));
    lemma_kind_code(e.kind);
    lemma_text_blob(e.message);
}

impl RemoteError {
    /// The bytes of the value.
    pub fn encode(&self) -> (out: Vec<u8>)
        ensures
            out@ == enc_error(self@),
            error_fits(self@),
    {
        let mut items: Vec<Vec<u8>> = Vec::new();
        items.push(put_byte(self.kind.code()));
        items.push(put_text(&self.message));
        let mut out: Vec<u8> = Vec::new();
        write_list(&mut out, &items);
        proof {
            assert(bodies(items@) =~= error_items(self@));
            assert(out@ =~= enc_error(self@));
        }
        out
    }

    /// The value that `data` is the bytes of, if it is the bytes of one.
    pub fn decode(data: &Vec<u8>) -> (r: Option<RemoteError>)
        ensures
            match dec_error(data@) {
                Some(v) => r matches Some(e) && e@ == v,
                None => r is None,
            },
    {
        let items = read_list(data)?;
        if items.len() != 2 {
            return None;
        }
        if items[0].len() != 1 {
            return None;
        }
        let kind = ErrorKind::from_code(items[0][0])?;
        let message = get_text(&items[1])?;
        Some(RemoteError { kind, message })
    }
}

// ---------------------------------------------------------------------
// A transaction

/// The items of a transaction, one for each field.
pub open spec fn transaction_items(t: TransactionView) -> Seq<Seq<u8>> {
    seq![
        text_blob(t.network),
        text_blob(t.account),
        u64_blob(t.fuel_limit),
        t.nonce,
        opt_ticket_blob(t.contract),
        text_blob(t.method),
        t.caller,
        t.args,
        t.signature,
    ]
}

/// What has `items` for its fields, if they are the fields of a transaction.
pub open spec fn transaction_of_items(items: Seq<Seq<u8>>) -> Option<TransactionView> {
    if items.len() != 9 {
        None
    } else {
        match (
            text_of_blob(items[0]),
            text_of_blob(items[1]),
            u64_of_blob(items[2]),
            opt_ticket_of_blob(items[4]),
            text_of_blob(items[5]),
        ) {
            (Some(network), Some(account), Some(fuel_limit), Some(contract), Some(method)) => Some(
                TransactionView {
                    network,
                    account,
                    fuel_limit,
                    nonce: items[3],
                    contract,
                    method,
                    caller: items[6],
                    args: items[7],
                    signature: items[8],
                },
            ),
            _ => None,
        }
    }
}

/// The bytes of a transaction.
pub open spec fn enc_transaction(t: TransactionView) -> Seq<u8> {
    enc_list(transaction_items(t))
}

/// What `b` is the bytes of, if it is the bytes of a transaction.
pub open spec fn dec_transaction(b: Seq<u8>) -> Option<TransactionView> {
    match dec_list(b) {
        Some(items) => transaction_of_items(items),
        None => None,
    }
}

/// The lengths of the fields fit in eight bytes each, and the contract, if
/// there is one, is a ticket.
pub open spec fn transaction_fits(t: TransactionView) -> bool {
    &&& items_fit(transaction_items(t))
    &&& opt_ticket_fits(t.contract)
}

/// The bytes of a transaction that is valid decode to it.
pub proof fn lemma_transaction_round_trip(t: TransactionView)
    requires
        transaction_fits(t),
    ensures
        dec_transaction(enc_transaction(t)) == Some(t),
{
    lemma_dec_list(transaction_items(t));
    lemma_text_blob(t.network);
    lemma_text_blob(t.account);
    lemma_u64_blob(t.fuel_limit);
    lemma_text_blob(t.method);
}

impl Transaction {
    /// The bytes of the value.
    pub fn encode(&self) -> (out: Vec<u8>)
        ensures
            out@ == enc_transaction(self@),
            transaction_fits(self@),
    {
        let mut items: Vec<Vec<u8>> = Vec::new();
        items.push(put_text(&self.network));
        items.push(put_text(&self.account));
        items.push(put_u64(self.fuel_limit));
        items.push(get_bytes(&self.nonce));
        items.push(put_opt_ticket(&self.contract));
        items.push(put_text(&self.method));
        items.push(get_bytes(&self.caller));
        items.push(get_bytes(&self.args));
        items.push(get_bytes(&self.signature));
        let mut out: Vec<u8> = Vec::new();
        write_list(&mut out, &items);
        proof {
            assert(bodies(items@) =~= transaction_items(self@));
            assert(out@ =~= enc_transaction(self@));
        }
        out
    }

    /// The value that `data` is the bytes of, if it is the bytes of one.
    pub fn decode(data: &Vec<u8>) -> (r: Option<Transaction>)
        ensures
            match dec_transaction(data@) {
                Some(v) => r matches Some(t) && t@ == v,
                None => r is None,
            },
    {
        let items = read_list(data)?;
        if items.len() != 9 {
            return None;
        }
        let network = get_text(&items[0])?;
        let account = get_text(&items[1])?;
        let fuel_limit = get_u64(&items[2])?;
        let contract = get_opt_ticket(&items[4])?;
        let method = get_text(&items[5])?;
        Some(
            Transaction {
                network,
                account,
                fuel_limit,
                nonce: get_bytes(&items[3]),
                contract,
                method,
                caller: get_bytes(&items[6]),
                args: get_bytes(&items[7]),
                signature: get_bytes(&items[8]),
            },
        )
    }
}

// ---------------------------------------------------------------------
// A receipt

/// The items of a receipt, one for each field.
pub open spec fn receipt_items(r: ReceiptView) -> Seq<Seq<u8>> {
    seq![
        u64_blob(r.height),
        u32_blob(r.index),
        u64_blob(r.burned_fuel),
        bool_blob(r.success),
        r.returns,
    ]
}

/// What has `items` for its fields, if they are the fields of a receipt.
pub open spec fn receipt_of_items(items: Seq<Seq<u8>>) -> Option<ReceiptView> {
    if items.len() != 5 {
        None
    } else {
        match (
            u64_of_blob(items[0]),
            u32_of_blob(items[1]),
            u64_of_blob(items[2]),
            bool_of_blob(items[3]),
        ) {
            (Some(height), Some(index), Some(burned_fuel), Some(success)) => Some(
                ReceiptView { height, index, burned_fuel, success, returns: items[4] },
            ),
            _ => None,
        }
    }
}

/// The bytes of a receipt.
pub open spec fn enc_receipt(r: ReceiptView) -> Seq<u8> {
    enc_list(receipt_items(r))
}

/// What `b` is the bytes of, if it is the bytes of a receipt.
pub open spec fn dec_receipt(b: Seq<u8>) -> Option<ReceiptView> {
    match dec_list(b) {
        Some(items) => receipt_of_items(items),
        None => None,
    }
}

/// The length of what the transaction returned fits in eight bytes.
pub open spec fn receipt_fits(r: ReceiptView) -> bool {
    items_fit(receipt_items(r))
}

/// The bytes of a receipt that is valid decode to it.
pub proof fn lemma_receipt_round_trip(r: ReceiptView)
    requires
        receipt_fits(r),
    ensures
        dec_receipt(enc_receipt(r)) == Some(r),
{
    lemma_dec_list(receipt_items(r));
    lemma_u64_blob(r.height);
    lemma_u32_blob(r.index);
    lemma_u64_blob(r.burned_fuel);
    lemma_bool_blob(r.success);
}

impl Receipt {
    /// The bytes of the value.
    pub fn encode(&self) -> (out: Vec<u8>)
        ensures
            out@ == enc_receipt(self@),
            receipt_fits(self@),
    {
        let mut items: Vec<Vec<u8>> = Vec::new();
        items.push(put_u64(self.height));
        items.push(put_u32(self.index));
        items.push(put_u64(self.burned_fuel));
        items.push(put_bool(self.success));
        items.push(get_bytes(&self.returns));
        let mut out: Vec<u8> = Vec::new();
        write_list(&mut out, &items);
        proof {
            assert(bodies(items@) =~= receipt_items(self@));
            assert(out@ =~= enc_receipt(self@));
        }
        out
    }

    /// The value that `data` is the bytes of, if it is the bytes of one.
    pub fn decode(data: &Vec<u8>) -> (r: Option<Receipt>)
        ensures
            match dec_receipt(data@) {
                Some(v) => r matches Some(x) && x@ == v,
                None => r is None,
            },
    {
        let items = read_list(data)?;
        if items.len() != 5 {
            return None;
        }
        let height = get_u64(&items[0])?;
        let index = get_u32(&items[1])?;
        let burned_fuel = get_u64(&items[2])?;
        let success = get_bool(&items[3])?;
        Some(Receipt { height, index, burned_fuel, success, returns: get_bytes(&items[4]) })
    }
}

// ---------------------------------------------------------------------
// A block header

/// The items of a block header, one for each field.
pub open spec fn block_items(b: BlockView) -> Seq<Seq<u8>> {
    seq![u64_blob(b.height), u32_blob(b.size), b.prev_hash, b.txs_hash, b.rxs_hash, b.state_hash]
}

/// What has `items` for its fields, if they are the fields of a block header.
pub open spec fn block_of_items(items: Seq<Seq<u8>>) -> Option<BlockView> {
    if items.len() != 6 {
        None
    } else {
        match (
            u64_of_blob(items[0]),
            u32_of_blob(items[1]),
            ticket_of_blob(items[2]),
            ticket_of_blob(items[3]),
            ticket_of_blob(items[4]),
            ticket_of_blob(items[5]),
        ) {
            (
                Some(height),
                Some(size),
                Some(prev_hash),
                Some(txs_hash),
                Some(rxs_hash),
                Some(state_hash),
            ) => Some(BlockView { height, size, prev_hash, txs_hash, rxs_hash, state_hash }),
            _ => None,
        }
    }
}

/// The bytes of a block header.
pub open spec fn enc_block(b: BlockView) -> Seq<u8> {
    enc_list(block_items(b))
}

/// What `b` is the bytes of, if it is the bytes of a block header.
pub open spec fn dec_block(b: Seq<u8>) -> Option<BlockView> {
    match dec_list(b) {
        Some(items) => block_of_items(items),
        None => None,
    }
}

/// The four hashes of the header are tickets.
pub open spec fn block_fits(b: BlockView) -> bool {
    &&& b.prev_hash.len() == TICKET_SIZE
    &&& b.txs_hash.len() == TICKET_SIZE
    &&& b.rxs_hash.len() == TICKET_SIZE
    &&& b.state_hash.len() == TICKET_SIZE
}

/// The bytes of a block header that is valid decode to it.
pub proof fn lemma_block_round_trip(b: BlockView)
    requires
        block_fits(b),
    ensures
        dec_block(enc_block(b)) == Some(b),
{
    lemma_u64_blob(b.height);
    lemma_u32_blob(b.size);
    assert(items_fit(block_items(b)));
    lemma_dec_list(block_items(b));
}

impl Block {
    /// The bytes of the value.
    pub fn encode(&self) -> (out: Vec<u8>)
        ensures
            out@ == enc_block(self@),
            block_fits(self@),
    {
        let mut items: Vec<Vec<u8>> = Vec::new();
        items.push(put_u64(self.height));
        items.push(put_u32(self.size));
        items.push(self.prev_hash.to_bytes());
        items.push(self.txs_hash.to_bytes());
        items.push(self.rxs_hash.to_bytes());
        items.push(self.state_hash.to_bytes());
        let mut out: Vec<u8> = Vec::new();
        write_list(&mut out, &items);
        proof {
            assert(bodies(items@) =~= block_items(self@));
            assert(out@ =~= enc_block(self@));
        }
        out
    }

    /// The value that `data` is the bytes of, if it is the bytes of one.
    pub fn decode(data: &Vec<u8>) -> (r: Option<Block>)
        ensures
            match dec_block(data@) {
                Some(v) => r matches Some(x) && x@ == v,
                None => r is None,
            },
    {
        let items = read_list(data)?;
        if items.len() != 6 {
            return None;
        }
        let height = get_u64(&items[0])?;
        let size = get_u32(&items[1])?;
        let prev_hash = Ticket::from_bytes(&items[2])?;
        let txs_hash = Ticket::from_bytes(&items[3])?;
        let rxs_hash = Ticket::from_bytes(&items[4])?;
        let state_hash = Ticket::from_bytes(&items[5])?;
        Some(Block { height, size, prev_hash, txs_hash, rxs_hash, state_hash })
    }
}

// ---------------------------------------------------------------------
// An account

/// The items of an account, one for each field.
pub open spec fn account_items(a: AccountView) -> Seq<Seq<u8>> {
    seq![text_blob(a.id), opt_ticket_blob(a.contract), opt_ticket_blob(a.data_hash)]
}

/// What has `items` for its fields, if they are the fields of an account.
pub open spec fn account_of_items(items: Seq<Seq<u8>>) -> Option<AccountView> {
    if items.len() != 3 {
        None
    } else {
        match (text_of_blob(items[0]), opt_ticket_of_blob(items[1]), opt_ticket_of_blob(items[2])) {
            (Some(id), Some(contract), Some(data_hash)) => Some(
                AccountView { id, contract, data_hash },
            ),
            _ => None,
        }
    }
}

/// The bytes of an account.
pub open spec fn enc_account(a: AccountView) -> Seq<u8> {
    enc_list(account_items(a))
}

/// What `b` is the bytes of, if it is the bytes of an account.
pub open spec fn dec_account(b: Seq<u8>) -> Option<AccountView> {
    match dec_list(b) {
        Some(items) => account_of_items(items),
        None => None,
    }
}

/// The length of the name fits in eight bytes, and each hash, if there is one,
/// is a ticket.
pub open spec fn account_fits(a: AccountView) -> bool {
    &&& items_fit(account_items(a))
    &&& opt_ticket_fits(a.contract)
    &&& opt_ticket_fits(a.data_hash)
}

/// The bytes of an account that is valid decode to it.
pub proof fn lemma_account_round_trip(a: AccountView)
    requires
        account_fits(a),
    ensures
        dec_account(enc_account(a)) == Some(a),
{
    lemma_dec_list(account_items(a));
    lemma_text_blob(a.id);
}

impl Account {
    /// The bytes of the value.
    pub fn encode(&self) -> (out: Vec<u8>)
        ensures
            out@ == enc_account(self@),
            account_fits(self@),
    {
        let mut items: Vec<Vec<u8>> = Vec::new();
        items.push(put_text(&self.id));
        items.push(put_opt_ticket(&self.contract));
        items.push(put_opt_ticket(&self.data_hash));
        let mut out: Vec<u8> = Vec::new();
        write_list(&mut out, &items);
        proof {
            assert(bodies(items@) =~= account_items(self@));
            assert(out@ =~= enc_account(self@));
        }
        out
    }

    /// The value that `data` is the bytes of, if it is the bytes of one.
    pub fn decode(data: &Vec<u8>) -> (r: Option<Account>)
        ensures
            match dec_account(data@) {
                Some(v) => r matches Some(x) && x@ == v,
                None => r is None,
            },
    {
        let items = read_list(data)?;
        if items.len() != 3 {
            return None;
        }
        let id = get_text(&items[0])?;
        let contract = get_opt_ticket(&items[1])?;
        let data_hash = get_opt_ticket(&items[2])?;
        Some(Account { id, contract, data_hash })
    }
}

} // verus!
