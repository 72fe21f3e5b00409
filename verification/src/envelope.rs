//! The byte encoding of messages.
//!
//! A message is a list of items. The first item is one byte that says which
//! kind of message it is; the items after it are the fields of that kind.
//! Whatever `Message::serialize` writes, `Message::deserialize` reads back
//! unchanged (`lemma_message_round_trip`).

use crate::codec::{
    account_fits, block_fits, dec_account, dec_block, dec_error, dec_receipt, dec_transaction,
    enc_account, enc_block, enc_error, enc_receipt, enc_transaction, error_fits,
    lemma_account_round_trip, lemma_block_round_trip, lemma_error_round_trip,
    lemma_receipt_round_trip, lemma_transaction_round_trip, put_byte, receipt_fits,
    ticket_of_blob, transaction_fits,
};
use crate::fields::{
    bool_blob, bool_of_blob, get_bool, get_text, get_u64, lemma_bool_blob, lemma_text_blob,
    lemma_u64_blob, put_bool, put_text, put_u64, text_blob, text_of_blob, u64_blob, u64_of_blob,
};
use crate::lists::{
    dec_slots, dec_texts, dec_tickets, decode_slots, decode_texts, decode_tickets, enc_slots,
    enc_texts, enc_tickets, encode_slots, encode_texts, encode_tickets, lemma_slots_round_trip,
    lemma_texts_round_trip, lemma_tickets_round_trip, slots_fit, texts_fit, tickets_fit,
};
use crate::message::{
    Account, Block, Events, Message, MessageView, Receipt, RemoteError, Ticket, Transaction,
    TICKET_SIZE,
};
use crate::wire::{bodies, dec_list, enc_list, items_fit, lemma_dec_list, read_list, write_list};
use vstd::prelude::*;

verus! {

/// The items of a message: its tag, then its fields.
pub open spec fn message_items(m: MessageView) -> Seq<Seq<u8>> {
    match m {
        MessageView::Exception(e) => seq![seq![0u8], enc_error(e)],
        MessageView::Subscribe { id, events } => seq![
            seq![1u8],
            text_blob(id),
            bool_blob(events.transaction),
            bool_blob(events.block),
            bool_blob(events.contract_events),
        ],
        MessageView::PutTransactionRequest { confirm, tx } => seq![
            seq![2u8],
            bool_blob(confirm),
            enc_transaction(tx),
        ],
        MessageView::PutTransactionResponse { hash } => seq![seq![3u8], hash],
        MessageView::GetTransactionRequest { hash } => seq![seq![4u8], hash],
        MessageView::GetTransactionResponse { tx } => seq![seq![5u8], enc_transaction(tx)],
        MessageView::GetReceiptRequest { hash } => seq![seq![6u8], hash],
        MessageView::GetReceiptResponse { rx } => seq![seq![7u8], enc_receipt(rx)],
        MessageView::GetBlockRequest { height, txs } => seq![
            seq![8u8],
            u64_blob(height),
            bool_blob(txs),
        ],
        MessageView::GetBlockResponse { block, txs } => match txs {
            None => seq![seq![9u8], enc_block(block)],
            Some(v) => seq![seq![9u8], enc_block(block), enc_tickets(v)],
        },
        MessageView::GetAccountRequest { id, data } => seq![
            seq![10u8],
            text_blob(id),
            enc_texts(data),
        ],
        MessageView::GetAccountResponse { acc, data } => seq![
            seq![11u8],
            enc_account(acc),
            enc_slots(data),
        ],
    }
}

/// The fields of each kind of message, read from the items after the tag.
pub open spec fn exception_of_items(items: Seq<Seq<u8>>) -> Option<MessageView> {
    match dec_error(items[1]) {
        Some(e) => Some(MessageView::Exception(e)),
        None => None,
    }
}

/// The message that has `items` for its tag and fields, if they are those of a
/// subscription.
pub open spec fn subscribe_of_items(items: Seq<Seq<u8>>) -> Option<MessageView> {
    match (
        text_of_blob(items[1]),
        bool_of_blob(items[2]),
        bool_of_blob(items[3]),
        bool_of_blob(items[4]),
    ) {
        (Some(id), Some(transaction), Some(block), Some(contract_events)) => Some(
            MessageView::Subscribe { id, events: Events { transaction, block, contract_events } },
        ),
        _ => None,
    }
}

/// The message that has `items` for its tag and fields, if they are those of a
/// request to submit.
pub open spec fn put_request_of_items(items: Seq<Seq<u8>>) -> Option<MessageView> {
    match (bool_of_blob(items[1]), dec_transaction(items[2])) {
        (Some(confirm), Some(tx)) => Some(MessageView::PutTransactionRequest { confirm, tx }),
        _ => None,
    }
}

/// The message that has `items` for its tag and fields, if they are those of a
/// response to a submission.
pub open spec fn put_response_of_items(items: Seq<Seq<u8>>) -> Option<MessageView> {
    match ticket_of_blob(items[1]) {
        Some(hash) => Some(MessageView::PutTransactionResponse { hash }),
        None => None,
    }
}

/// The message that has `items` for its tag and fields, if they are those of a
/// request for a transaction.
pub open spec fn transaction_request_of_items(items: Seq<Seq<u8>>) -> Option<MessageView> {
    match ticket_of_blob(items[1]) {
        Some(hash) => Some(MessageView::GetTransactionRequest { hash }),
        None => None,
    }
}

/// The message that has `items` for its tag and fields, if they are those of a
/// response with a transaction.
pub open spec fn transaction_response_of_items(items: Seq<Seq<u8>>) -> Option<MessageView> {
    match dec_transaction(items[1]) {
        Some(tx) => Some(MessageView::GetTransactionResponse { tx }),
        None => None,
    }
}

/// The message that has `items` for its tag and fields, if they are those of a
/// request for a receipt.
pub open spec fn receipt_request_of_items(items: Seq<Seq<u8>>) -> Option<MessageView> {
    match ticket_of_blob(items[1]) {
        Some(hash) => Some(MessageView::GetReceiptRequest { hash }),
        None => None,
    }
}

/// The message that has `items` for its tag and fields, if they are those of a
/// response with a receipt.
pub open spec fn receipt_response_of_items(items: Seq<Seq<u8>>) -> Option<MessageView> {
    match dec_receipt(items[1]) {
        Some(rx) => Some(MessageView::GetReceiptResponse { rx }),
        None => None,
    }
}

/// The message that has `items` for its tag and fields, if they are those of a
/// request for a block.
pub open spec fn block_request_of_items(items: Seq<Seq<u8>>) -> Option<MessageView> {
    match (u64_of_blob(items[1]), bool_of_blob(items[2])) {
        (Some(height), Some(txs)) => Some(MessageView::GetBlockRequest { height, txs }),
        _ => None,
    }
}

/// The message that has `items` for its tag and fields, if they are those of a
/// response with a block.
pub open spec fn block_response_of_items(items: Seq<Seq<u8>>) -> Option<MessageView> {
    if items.len() == 2 {
        match dec_block(items[1]) {
            Some(block) => Some(MessageView::GetBlockResponse { block, txs: None }),
            None => None,
        }
    } else {
        match (dec_block(items[1]), dec_tickets(items[2])) {
            (Some(block), Some(v)) => Some(MessageView::GetBlockResponse { block, txs: Some(v) }),
            _ => None,
        }
    }
}

/// The message that has `items` for its tag and fields, if they are those of a
/// request for an account.
pub open spec fn account_request_of_items(items: Seq<Seq<u8>>) -> Option<MessageView> {
    match (text_of_blob(items[1]), dec_texts(items[2])) {
        (Some(id), Some(data)) => Some(MessageView::GetAccountRequest { id, data }),
        _ => None,
    }
}

/// The message that has `items` for its tag and fields, if they are those of a
/// response with an account.
pub open spec fn account_response_of_items(items: Seq<Seq<u8>>) -> Option<MessageView> {
    match (dec_account(items[1]), dec_slots(items[2])) {
        (Some(acc), Some(data)) => Some(MessageView::GetAccountResponse { acc, data }),
        _ => None,
    }
}

/// The message that `items` are the tag and the fields of.
pub open spec fn message_of_items(items: Seq<Seq<u8>>) -> Option<MessageView> {
    if items.len() < 2 || items[0].len() != 1 {
        None
    } else {
        let tag = items[0][0];
        let n = items.len();
        if tag == 0 && n == 2 {
            exception_of_items(items)
        } else if tag == 1 && n == 5 {
            subscribe_of_items(items)
        } else if tag == 2 && n == 3 {
            put_request_of_items(items)
        } else if tag == 3 && n == 2 {
            put_response_of_items(items)
        } else if tag == 4 && n == 2 {
            transaction_request_of_items(items)
        } else if tag == 5 && n == 2 {
            transaction_response_of_items(items)
        } else if tag == 6 && n == 2 {
            receipt_request_of_items(items)
        } else if tag == 7 && n == 2 {
            receipt_response_of_items(items)
        } else if tag == 8 && n == 3 {
            block_request_of_items(items)
        } else if tag == 9 && (n == 2 || n == 3) {
            block_response_of_items(items)
        } else if tag == 10 && n == 3 {
            account_request_of_items(items)
        } else if tag == 11 && n == 3 {
            account_response_of_items(items)
        } else {
            None
        }
    }
}

/// The bytes of a message.
pub open spec fn enc_message(m: MessageView) -> Seq<u8> {
    enc_list(message_items(m))
}

/// The message that `b` is the bytes of, if it is the bytes of one.
pub open spec fn dec_message(b: Seq<u8>) -> Option<MessageView> {
    match dec_list(b) {
        Some(items) => message_of_items(items),
        None => None,
    }
}

/// What makes the view of a message valid: every ticket in it has 32
/// bytes, and no field or list is so long that its length would not fit in
/// the eight bytes that the encoding has for it.
pub open spec fn message_fits(m: MessageView) -> bool {
    &&& items_fit(message_items(m))
    &&& match m {
        MessageView::Exception(e) => error_fits(e),
        MessageView::Subscribe { .. } => true,
        MessageView::PutTransactionRequest { tx, .. } => transaction_fits(tx),
        MessageView::PutTransactionResponse { hash } => hash.len() == TICKET_SIZE,
        MessageView::GetTransactionRequest { hash } => hash.len() == TICKET_SIZE,
        MessageView::GetTransactionResponse { tx } => transaction_fits(tx),
        MessageView::GetReceiptRequest { hash } => hash.len() == TICKET_SIZE,
        MessageView::GetReceiptResponse { rx } => receipt_fits(rx),
        MessageView::GetBlockRequest { .. } => true,
        MessageView::GetBlockResponse { block, txs } => block_fits(block) && (txs matches Some(v)
            ==> tickets_fit(v)),
        MessageView::GetAccountRequest { data, .. } => texts_fit(data),
        MessageView::GetAccountResponse { acc, data } => account_fits(acc) && slots_fit(data),
    }
}

/// Serialising a valid message and deserialising the bytes gives the
/// message back.
pub proof fn lemma_message_round_trip(m: MessageView)
    requires
        message_fits(m),
    ensures
        dec_message(enc_message(m)) == Some(m),
{
    lemma_dec_list(message_items(m));
    lemma_message_of_items(m);
}

proof fn lemma_exception_items(m: MessageView)
    requires
        message_fits(m),
        m is Exception,
    ensures
        exception_of_items(message_items(m)) == Some(m),
{
    lemma_error_round_trip(m->Exception_0);
}

proof fn lemma_subscribe_items(m: MessageView)
    requires
        message_fits(m),
        m is Subscribe,
    ensures
        subscribe_of_items(message_items(m)) == Some(m),
{
    lemma_text_blob(m->Subscribe_id);
    lemma_bool_blob(m->Subscribe_events.transaction);
    lemma_bool_blob(m->Subscribe_events.block);
    lemma_bool_blob(m->Subscribe_events.contract_events);
}

proof fn lemma_put_request_items(m: MessageView)
    requires
        message_fits(m),
        m is PutTransactionRequest,
    ensures
        put_request_of_items(message_items(m)) == Some(m),
{
    lemma_bool_blob(m->PutTransactionRequest_confirm);
    lemma_transaction_round_trip(m->PutTransactionRequest_tx);
}

proof fn lemma_transaction_response_items(m: MessageView)
    requires
        message_fits(m),
        m is GetTransactionResponse,
    ensures
        transaction_response_of_items(message_items(m)) == Some(m),
{
    lemma_transaction_round_trip(m->GetTransactionResponse_tx);
}

proof fn lemma_receipt_response_items(m: MessageView)
    requires
        message_fits(m),
        m is GetReceiptResponse,
    ensures
        receipt_response_of_items(message_items(m)) == Some(m),
{
    lemma_receipt_round_trip(m->GetReceiptResponse_rx);
}

proof fn lemma_block_request_items(m: MessageView)
    requires
        message_fits(m),
        m is GetBlockRequest,
    ensures
        block_request_of_items(message_items(m)) == Some(m),
{
    lemma_u64_blob(m->GetBlockRequest_height);
    lemma_bool_blob(m->GetBlockRequest_txs);
}

proof fn lemma_block_response_items(m: MessageView)
    requires
        message_fits(m),
        m is GetBlockResponse,
    ensures
        block_response_of_items(message_items(m)) == Some(m),
{
    lemma_block_round_trip(m->GetBlockResponse_block);
    match m->GetBlockResponse_txs {
        Some(v) => {
            lemma_tickets_round_trip(v);
        },
        None => {},
    }
}

proof fn lemma_account_request_items(m: MessageView)
    requires
        message_fits(m),
        m is GetAccountRequest,
    ensures
        account_request_of_items(message_items(m)) == Some(m),
{
    lemma_text_blob(m->GetAccountRequest_id);
    lemma_texts_round_trip(m->GetAccountRequest_data);
}

proof fn lemma_account_response_items(m: MessageView)
    requires
        message_fits(m),
        m is GetAccountResponse,
    ensures
        account_response_of_items(message_items(m)) == Some(m),
{
    lemma_account_round_trip(m->GetAccountResponse_acc);
    lemma_slots_round_trip(m->GetAccountResponse_data);
}

/// The fields of a valid message are read back from its items.
pub proof fn lemma_message_of_items(m: MessageView)
    requires
        message_fits(m),
    ensures
        message_of_items(message_items(m)) == Some(m),
{
    match m {
        MessageView::Exception(_) => {
            lemma_exception_items(m);
        },
        MessageView::Subscribe { .. } => {
            lemma_subscribe_items(m);
        },
        MessageView::PutTransactionRequest { .. } => {
            lemma_put_request_items(m);
        },
        MessageView::PutTransactionResponse { .. } => {},
        MessageView::GetTransactionRequest { .. } => {},
        MessageView::GetTransactionResponse { .. } => {
            lemma_transaction_response_items(m);
        },
        MessageView::GetReceiptRequest { .. } => {},
        MessageView::GetReceiptResponse { .. } => {
            lemma_receipt_response_items(m);
        },
        MessageView::GetBlockRequest { .. } => {
            lemma_block_request_items(m);
        },
        MessageView::GetBlockResponse { .. } => {
            lemma_block_response_items(m);
        },
        MessageView::GetAccountRequest { .. } => {
            lemma_account_request_items(m);
        },
        MessageView::GetAccountResponse { .. } => {
            lemma_account_response_items(m);
        },
    }
}

impl Message {
    /// The bytes of the message. The view of every message is valid.
    pub fn serialize(&self) -> (out: Vec<u8>)
        ensures
            out@ == enc_message(self@),
            message_fits(self@),
    {
        let mut items: Vec<Vec<u8>> = Vec::new();
        match self {
            Message::Exception(e) => {
                items.push(put_byte(0));
                items.push(e.encode());
            },
            Message::Subscribe { id, events } => {
                items.push(put_byte(1));
                items.push(put_text(id));
                items.push(put_bool(events.transaction));
                items.push(put_bool(events.block));
                items.push(put_bool(events.contract_events));
            },
            Message::PutTransactionRequest { confirm, tx } => {
                items.push(put_byte(2));
                items.push(put_bool(*confirm));
                items.push(tx.encode());
            },
            Message::PutTransactionResponse { hash } => {
                items.push(put_byte(3));
                items.push(hash.to_bytes());
            },
            Message::GetTransactionRequest { hash } => {
                items.push(put_byte(4));
                items.push(hash.to_bytes());
            },
            Message::GetTransactionResponse { tx } => {
                items.push(put_byte(5));
                items.push(tx.encode());
            },
            Message::GetReceiptRequest { hash } => {
                items.push(put_byte(6));
                items.push(hash.to_bytes());
            },
            Message::GetReceiptResponse { rx } => {
                items.push(put_byte(7));
                items.push(rx.encode());
            },
            Message::GetBlockRequest { height, txs } => {
                items.push(put_byte(8));
                items.push(put_u64(*height));
                items.push(put_bool(*txs));
            },
            Message::GetBlockResponse { block, txs } => {
                items.push(put_byte(9));
                items.push(block.encode());
                match txs {
                    Some(v) => {
                        items.push(encode_tickets(v));
                    },
                    None => {},
                }
            },
            Message::GetAccountRequest { id, data } => {
                items.push(put_byte(10));
                items.push(put_text(id));
                items.push(encode_texts(data));
            },
            Message::GetAccountResponse { acc, data } => {
                items.push(put_byte(11));
                items.push(acc.encode());
                items.push(encode_slots(data));
            },
        }
        let mut out: Vec<u8> = Vec::new();
        write_list(&mut out, &items);
        proof {
            assert(bodies(items@) =~= message_items(self@));
            assert(out@ =~= enc_message(self@));
        }
        out
    }

    /// The message that `data` is the bytes of, if it is the bytes of one.
    pub fn deserialize(data: &Vec<u8>) -> (r: Option<Message>)
        ensures
            match dec_message(data@) {
                Some(v) => r matches Some(m) && m@ == v,
                None => r is None,
            },
    {
        let items = read_list(data)?;
        let n: usize = items.len();
        if n < 2 || items[0].len() != 1 {
            return None;
        }
        let tag: u8 = items[0][0];
        if tag == 0 && n == 2 {
            let e = RemoteError::decode(&items[1])?;
            Some(Message::Exception(e))
        } else if tag == 1 && n == 5 {
            let id = get_text(&items[1])?;
            let transaction = get_bool(&items[2])?;
            let block = get_bool(&items[3])?;
            let contract_events = get_bool(&items[4])?;
            Some(Message::Subscribe { id, events: Events { transaction, block, contract_events } })
        } else if tag == 2 && n == 3 {
            let confirm = get_bool(&items[1])?;
            let tx = Transaction::decode(&items[2])?;
            Some(Message::PutTransactionRequest { confirm, tx })
        } else if tag == 3 && n == 2 {
            let hash = Ticket::from_bytes(&items[1])?;
            Some(Message::PutTransactionResponse { hash })
        } else if tag == 4 && n == 2 {
            let hash = Ticket::from_bytes(&items[1])?;
            Some(Message::GetTransactionRequest { hash })
        } else if tag == 5 && n == 2 {
            let tx = Transaction::decode(&items[1])?;
            Some(Message::GetTransactionResponse { tx })
        } else if tag == 6 && n == 2 {
            let hash = Ticket::from_bytes(&items[1])?;
            Some(Message::GetReceiptRequest { hash })
        } else if tag == 7 && n == 2 {
            let rx = Receipt::decode(&items[1])?;
            Some(Message::GetReceiptResponse { rx })
        } else if tag == 8 && n == 3 {
            let height = get_u64(&items[1])?;
            let txs = get_bool(&items[2])?;
            Some(Message::GetBlockRequest { height, txs })
        } else if tag == 9 && n == 2 {
            let block = Block::decode(&items[1])?;
            Some(Message::GetBlockResponse { block, txs: None })
        } else if tag == 9 && n == 3 {
            let block = Block::decode(&items[1])?;
            let v = decode_tickets(&items[2])?;
            Some(Message::GetBlockResponse { block, txs: Some(v) })
        } else if tag == 10 && n == 3 {
            let id = get_text(&items[1])?;
            let data = decode_texts(&items[2])?;
            Some(Message::GetAccountRequest { id, data })
        } else if tag == 11 && n == 3 {
            let acc = Account::decode(&items[1])?;
            let data = decode_slots(&items[2])?;
            Some(Message::GetAccountResponse { acc, data })
        } else {
            None
        }
    }
}

} // verus!
