//! The values that travel between the client and the remote service, and
//! the mathematical view of each.

use crate::hexcode::{hex_decode, hex_decoded, hex_encode, hex_text};
use vstd::prelude::*;
use vstd::string::StringSliceAdditionalSpecFns;

verus! {

/// Number of bytes in a ticket.
pub const TICKET_SIZE: usize = 32;

/// A ticket: the fixed-size identifier of a transaction or of a piece of
/// stored content.
#[derive(Clone, Copy, Debug, PartialEq, Eq)]
pub struct Ticket {
    pub bytes: [u8; 32],
}

impl View for Ticket {
    type V = Seq<u8>;

    open spec fn view(&self) -> Seq<u8> {
        self.bytes@
    }
}

impl DeepView for Ticket {
    type V = Seq<u8>;

    open spec fn deep_view(&self) -> Seq<u8> {
        self.bytes@
    }
}

/// The view of a ticket that may be absent.
pub open spec fn ticket_option_view(h: Option<Ticket>) -> Option<Seq<u8>> {
    match h {
        Some(x) => Some(x@),
        None => None,
    }
}

impl Ticket {
    /// The ticket with the bytes `bytes`.
    pub fn new(bytes: [u8; 32]) -> (h: Ticket)
        ensures
            h@ == bytes@,
    {
        Ticket { bytes }
    }

    /// The ticket made of the bytes of `b`, if there are exactly 32.
    pub fn from_bytes(b: &Vec<u8>) -> (r: Option<Ticket>)
        ensures
            match r {
                Some(h) => b@.len() == TICKET_SIZE && h@ == b@,
                None => b@.len() != TICKET_SIZE,
            },
    {
        if b.len() != TICKET_SIZE {
            return None;
        }
        let mut bytes: [u8; 32] = [0u8; 32];
        let mut i: usize = 0;
        while i < 32
            invariant
                i <= 32,
                b@.len() == 32,
                forall|k: int| 0 <= k < i ==> bytes@[k] == b@[k],
            decreases 32 - i,
        {
            bytes[i] = b[i];
            i += 1;
        }
        assert(bytes@ =~= b@);
        Some(Ticket { bytes })
    }

    /// The 32 bytes of the ticket.
    pub fn to_bytes(&self) -> (b: Vec<u8>)
        ensures
            b@ == self@,
            b@.len() == TICKET_SIZE,
    {
        let mut b: Vec<u8> = Vec::new();
        let mut i: usize = 0;
        while i < 32
            invariant
                i <= 32,
                b@ == self.bytes@.subrange(0, i as int),
            decreases 32 - i,
        {
            b.push(self.bytes[i]);
            i += 1;
            assert(b@ =~= self.bytes@.subrange(0, i as int));
        }
        assert(self.bytes@.subrange(0, 32) =~= self.bytes@);
        b
    }

    /// The ticket that the text with the bytes `s` is the hexadecimal form
    /// of: 64 hexadecimal digits.
    pub open spec fn of_hex(s: Seq<u8>) -> Option<Seq<u8>> {
        match hex_decoded(s) {
            Ok(b) => if b.len() == TICKET_SIZE {
                Some(b)
            } else {
                None
            },
            Err(_) => None,
        }
    }

    /// The ticket written as `s` in hexadecimal.
    pub fn from_hex(s: &str) -> (r: Option<Ticket>)
        ensures
            match Self::of_hex(s.spec_bytes()) {
                Some(b) => r matches Some(t) && t@ == b,
                None => r is None,
            },
    {
        match hex_decode(s) {
            Ok(bytes) => Ticket::from_bytes(&bytes),
            Err(_) => None,
        }
    }

    /// The ticket in hexadecimal.
    pub fn to_hex(&self) -> (s: String)
        ensures
            s@ == hex_text(self@),
    {
        hex_encode(&self.to_bytes())
    }

    /// Whether two tickets hold the same bytes.
    pub fn same(&self, other: &Ticket) -> (b: bool)
        ensures
            b == (self@ == other@),
    {
        let mut i: usize = 0;
        while i < 32
            invariant
                i <= 32,
                forall|k: int| 0 <= k < i ==> self.bytes@[k] == other.bytes@[k],
            decreases 32 - i,
        {
            if self.bytes[i] != other.bytes[i] {
                return false;
            }
            i += 1;
        }
        assert(self.bytes@ =~= other.bytes@);
        true
    }
}

/// The classes of failure that the remote service reports.
#[derive(Clone, Copy, Debug, PartialEq, Eq, Structural)]
pub enum ErrorKind {
    MalformedData,
    InvalidSignature,
    DuplicatedConfirmedTx,
    DuplicatedUnconfirmedTx,
    ResourceNotFound,
    WasmMachineFault,
    SmartContractFault,
    FuelError,
    NotImplemented,
    Tpm2Error,
    WrongTxType,
    BrokenIntegrity,
    Other,
}

/// A failure that the remote service reports in place of a response.
#[derive(Clone, Debug, PartialEq, Eq)]
pub struct RemoteError {
    pub kind: ErrorKind,
    pub message: String,
}

pub struct RemoteErrorView {
    pub kind: ErrorKind,
    pub message: Seq<char>,
}

impl View for RemoteError {
    type V = RemoteErrorView;

    open spec fn view(&self) -> RemoteErrorView {
        RemoteErrorView { kind: self.kind, message: self.message@ }
    }
}

/// A signed transaction.
#[derive(Clone, Debug, PartialEq, Eq)]
pub struct Transaction {
    pub network: String,
    pub account: String,
    pub fuel_limit: u64,
    pub nonce: Vec<u8>,
    pub contract: Option<Ticket>,
    pub method: String,
    pub caller: Vec<u8>,
    pub args: Vec<u8>,
    pub signature: Vec<u8>,
}

pub struct TransactionView {
    pub network: Seq<char>,
    pub account: Seq<char>,
    pub fuel_limit: u64,
    pub nonce: Seq<u8>,
    pub contract: Option<Seq<u8>>,
    pub method: Seq<char>,
    pub caller: Seq<u8>,
    pub args: Seq<u8>,
    pub signature: Seq<u8>,
}

impl View for Transaction {
    type V = TransactionView;

    open spec fn view(&self) -> TransactionView {
        TransactionView {
            network: self.network@,
            account: self.account@,
            fuel_limit: self.fuel_limit,
            nonce: self.nonce@,
            contract: ticket_option_view(self.contract),
            method: self.method@,
            caller: self.caller@,
            args: self.args@,
            signature: self.signature@,
        }
    }
}

impl DeepView for Transaction {
    type V = TransactionView;

    open spec fn deep_view(&self) -> TransactionView {
        self@
    }
}

/// The outcome of the execution of one transaction.
#[derive(Clone, Debug, PartialEq, Eq)]
pub struct Receipt {
    pub height: u64,
    pub index: u32,
    pub burned_fuel: u64,
    pub success: bool,
    pub returns: Vec<u8>,
}

pub struct ReceiptView {
    pub height: u64,
    pub index: u32,
    pub burned_fuel: u64,
    pub success: bool,
    pub returns: Seq<u8>,
}

impl View for Receipt {
    type V = ReceiptView;

    open spec fn view(&self) -> ReceiptView {
        ReceiptView {
            height: self.height,
            index: self.index,
            burned_fuel: self.burned_fuel,
            success: self.success,
            returns: self.returns@,
        }
    }
}

/// The header of a block.
#[derive(Clone, Copy, Debug, PartialEq, Eq)]
pub struct Block {
    pub height: u64,
    pub size: u32,
    pub prev_hash: Ticket,
    pub txs_hash: Ticket,
    pub rxs_hash: Ticket,
    pub state_hash: Ticket,
}

pub struct BlockView {
    pub height: u64,
    pub size: u32,
    pub prev_hash: Seq<u8>,
    pub txs_hash: Seq<u8>,
    pub rxs_hash: Seq<u8>,
    pub state_hash: Seq<u8>,
}

impl View for Block {
    type V = BlockView;

    open spec fn view(&self) -> BlockView {
        BlockView {
            height: self.height,
            size: self.size,
            prev_hash: self.prev_hash@,
            txs_hash: self.txs_hash@,
            rxs_hash: self.rxs_hash@,
            state_hash: self.state_hash@,
        }
    }
}

/// The state of an account, without its data.
#[derive(Clone, Debug, PartialEq, Eq)]
pub struct Account {
    pub id: String,
    pub contract: Option<Ticket>,
    pub data_hash: Option<Ticket>,
}

pub struct AccountView {
    pub id: Seq<char>,
    pub contract: Option<Seq<u8>>,
    pub data_hash: Option<Seq<u8>>,
}

impl View for Account {
    type V = AccountView;

    open spec fn view(&self) -> AccountView {
        AccountView {
            id: self.id@,
            contract: ticket_option_view(self.contract),
            data_hash: ticket_option_view(self.data_hash),
        }
    }
}

/// The classes of events that a subscription asks for.
#[derive(Clone, Copy, Debug, PartialEq, Eq, Structural)]
pub struct Events {
    pub transaction: bool,
    pub block: bool,
    pub contract_events: bool,
}

/// A message of the protocol: a request, a response, or a failure reported
/// in place of a response.
#[derive(Clone, Debug, PartialEq, Eq)]
#[allow(inconsistent_fields)]
pub enum Message {
    Exception(RemoteError),
    Subscribe { id: String, events: Events },
    PutTransactionRequest { confirm: bool, tx: Transaction },
    PutTransactionResponse { hash: Ticket },
    GetTransactionRequest { hash: Ticket },
    GetTransactionResponse { tx: Transaction },
    GetReceiptRequest { hash: Ticket },
    GetReceiptResponse { rx: Receipt },
    GetBlockRequest { height: u64, txs: bool },
    GetBlockResponse { block: Block, txs: Option<Vec<Ticket>> },
    GetAccountRequest { id: String, data: Vec<String> },
    GetAccountResponse { acc: Account, data: Vec<Option<Vec<u8>>> },
}

#[allow(inconsistent_fields)]
pub enum MessageView {
    Exception(RemoteErrorView),
    Subscribe { id: Seq<char>, events: Events },
    PutTransactionRequest { confirm: bool, tx: TransactionView },
    PutTransactionResponse { hash: Seq<u8> },
    GetTransactionRequest { hash: Seq<u8> },
    GetTransactionResponse { tx: TransactionView },
    GetReceiptRequest { hash: Seq<u8> },
    GetReceiptResponse { rx: ReceiptView },
    GetBlockRequest { height: u64, txs: bool },
    GetBlockResponse { block: BlockView, txs: Option<Seq<Seq<u8>>> },
    GetAccountRequest { id: Seq<char>, data: Seq<Seq<char>> },
    GetAccountResponse { acc: AccountView, data: Seq<Option<Seq<u8>>> },
}

/// The views of the tickets of `v`, in order.
pub open spec fn tickets_view(v: Seq<Ticket>) -> Seq<Seq<u8>> {
    Seq::new(v.len(), |i: int| v[i]@)
}

/// The views of the texts of `v`, in order.
pub open spec fn texts_view(v: Seq<String>) -> Seq<Seq<char>> {
    Seq::new(v.len(), |i: int| v[i]@)
}

/// The view of a byte string that may be absent.
pub open spec fn slot_view(v: Option<Vec<u8>>) -> Option<Seq<u8>> {
    match v {
        Some(x) => Some(x@),
        None => None,
    }
}

/// The views of the data slots of `v`, in order.
pub open spec fn slots_view(v: Seq<Option<Vec<u8>>>) -> Seq<Option<Seq<u8>>> {
    Seq::new(v.len(), |i: int| slot_view(v[i]))
}

/// The views of the transactions of `v`, in order.
pub open spec fn transactions_view(v: Seq<Transaction>) -> Seq<TransactionView> {
    Seq::new(v.len(), |i: int| v[i]@)
}

impl View for Message {
    type V = MessageView;

    open spec fn view(&self) -> MessageView {
        match *self {
            Message::Exception(e) => MessageView::Exception(e@),
            Message::Subscribe { id, events } => MessageView::Subscribe { id: id@, events },
            Message::PutTransactionRequest { confirm, tx } => MessageView::PutTransactionRequest {
                confirm,
                tx: tx@,
            },
            Message::PutTransactionResponse { hash } => MessageView::PutTransactionResponse {
                hash: hash@,
            },
            Message::GetTransactionRequest { hash } => MessageView::GetTransactionRequest {
                hash: hash@,
            },
            Message::GetTransactionResponse { tx } => MessageView::GetTransactionResponse {
                tx: tx@,
            },
            Message::GetReceiptRequest { hash } => MessageView::GetReceiptRequest { hash: hash@ },
            Message::GetReceiptResponse { rx } => MessageView::GetReceiptResponse { rx: rx@ },
            Message::GetBlockRequest { height, txs } => MessageView::GetBlockRequest {
                height,
                txs,
            },
            Message::GetBlockResponse { block, txs } => MessageView::GetBlockResponse {
                block: block@,
                txs: match txs {
                    Some(v) => Some(tickets_view(v@)),
                    None => None,
                },
            },
            Message::GetAccountRequest { id, data } => MessageView::GetAccountRequest {
                id: id@,
                data: texts_view(data@),
            },
            Message::GetAccountResponse { acc, data } => MessageView::GetAccountResponse {
                acc: acc@,
                data: slots_view(data@),
            },
        }
    }
}

} // verus!
