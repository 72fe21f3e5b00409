use trinci_cli::bytes::{append_bytes, copy_range, push_be, push_u64, read_be, read_u64};
use trinci_cli::client::channel::{ChannelError, ClientChannel};
use trinci_cli::client::{name_of, Client, ClientError};
use trinci_cli::common::default_keypair;
use trinci_cli::fields::{
    get_bool, get_bytes, get_slot, get_text, get_u32, get_u64, put_bool, put_slot, put_text,
    put_u32, put_u64,
};
use trinci_cli::impexp::{
    encode_container, export_txs, import_block, reversed, ExportError, FileBlock, ImportError,
    ImportSession, ImportStep,
};
use trinci_cli::lists::{
    decode_slots, decode_texts, decode_tickets, decode_transactions, encode_slots, encode_texts,
    encode_tickets, encode_transactions,
};
use trinci_cli::message::{
    Account, Block, ErrorKind, Message, Receipt, RemoteError, Ticket, Transaction,
};
use trinci_cli::wire::{read_item, read_list, write_item, write_list, ItemError};

#[test]
fn numbers_are_written_big_endian() {
    let mut out = vec![0xEE];
    push_u64(&mut out, 0x0102030405060708);
    assert_eq!(out, vec![0xEE, 1, 2, 3, 4, 5, 6, 7, 8]);
    assert_eq!(read_u64(&out, 1), 0x0102030405060708);
    let mut out = Vec::new();
    push_be(&mut out, 0x0102030405060708, 3);
    assert_eq!(out, vec![6, 7, 8]);
    push_be(&mut out, 5, 0);
    assert_eq!(out, vec![6, 7, 8]);
    assert_eq!(read_be(&out, 0, 3), 0x060708);
    assert_eq!(read_be(&out, 1, 2), 0x0708);
    assert_eq!(read_be(&out, 3, 0), 0);
    let mut all = Vec::new();
    push_u64(&mut all, u64::MAX);
    assert_eq!(all, vec![0xff; 8]);
    assert_eq!(read_u64(&all, 0), u64::MAX);
}

#[test]
fn bytes_are_copied() {
    let mut out = vec![1];
    append_bytes(&mut out, &vec![2, 3]);
    assert_eq!(out, vec![1, 2, 3]);
    assert_eq!(copy_range(&out, 1, 3), vec![2, 3]);
    assert_eq!(copy_range(&out, 2, 2), Vec::<u8>::new());
    assert_eq!(get_bytes(&out), out);
    assert_eq!(reversed(vec![1, 2, 3]), vec![3, 2, 1]);
    assert_eq!(reversed(Vec::<u8>::new()), Vec::<u8>::new());
}

#[test]
fn items_carry_their_length() {
    let mut out = Vec::new();
    write_item(&mut out, &vec![7, 8, 9]);
    assert_eq!(out, vec![0, 0, 0, 0, 0, 0, 0, 3, 7, 8, 9]);
    write_item(&mut out, &vec![]);
    assert_eq!(read_item(&out, 0), Ok((vec![7, 8, 9], 11)));
    assert_eq!(read_item(&out, 11), Ok((vec![], 19)));
    assert_eq!(read_item(&out, 19), Err(ItemError::NoLength));
    assert_eq!(read_item(&out, 12), Err(ItemError::NoLength));
    assert_eq!(read_item(&out[..10].to_vec(), 0), Err(ItemError::Short));
    assert_eq!(read_item(&vec![0xff; 8], 0), Err(ItemError::Short));
}

#[test]
fn lists_carry_their_count() {
    let items = vec![vec![1u8], vec![], vec![2, 3]];
    let mut out = Vec::new();
    write_list(&mut out, &items);
    assert_eq!(
        out,
        vec![
            0, 0, 0, 0, 0, 0, 0, 3, 0, 0, 0, 0, 0, 0, 0, 1, 1, 0, 0, 0, 0, 0, 0, 0, 0, 0, 0, 0,
            0, 0, 0, 0, 2, 2, 3
        ]
    );
    assert_eq!(read_list(&out), Some(items));
    assert_eq!(read_list(&vec![0; 8]), Some(vec![]));
    assert_eq!(read_list(&vec![0; 7]), None);
    assert_eq!(read_list(&vec![0; 9]), None);
    assert_eq!(read_list(&out[..out.len() - 1].to_vec()), None);
    out[7] = 2;
    assert_eq!(read_list(&out), None);
    assert_eq!(read_list(&vec![0xff; 8]), None);
}

#[test]
fn fields_have_the_documented_bytes() {
    assert_eq!(put_u64(258), vec![0, 0, 0, 0, 0, 0, 1, 2]);
    assert_eq!(get_u64(&vec![0, 0, 0, 0, 0, 0, 1, 2]), Some(258));
    assert_eq!(get_u64(&vec![0, 0, 0, 0, 0, 1, 2]), None);
    assert_eq!(put_u32(258), vec![0, 0, 1, 2]);
    assert_eq!(get_u32(&vec![0xff; 4]), Some(u32::MAX));
    assert_eq!(get_u32(&vec![0; 5]), None);
    assert_eq!((put_bool(false), put_bool(true)), (vec![0], vec![1]));
    assert_eq!((get_bool(&vec![0]), get_bool(&vec![1])), (Some(false), Some(true)));
    assert_eq!((get_bool(&vec![2]), get_bool(&vec![]), get_bool(&vec![1, 1])), (None, None, None));
    assert_eq!(put_text(&"è".to_string()), vec![0xc3, 0xa8]);
    assert_eq!(get_text(&vec![0xc3, 0xa8]), Some("è".to_string()));
    assert_eq!(get_text(&vec![]), Some(String::new()));
    assert_eq!(get_text(&vec![0xc3]), None);
    assert_eq!(get_text(&vec![0xed, 0xa0, 0x80]), None);
    assert_eq!(put_slot(&None), vec![0]);
    assert_eq!(put_slot(&Some(vec![5, 6])), vec![1, 5, 6]);
    assert_eq!(get_slot(&vec![0]), Some(None));
    assert_eq!(get_slot(&vec![1]), Some(Some(vec![])));
    assert_eq!(get_slot(&vec![1, 0]), Some(Some(vec![0])));
    assert_eq!(get_slot(&vec![0, 0]), None);
    assert_eq!(get_slot(&vec![2]), None);
    assert_eq!(get_slot(&vec![]), None);
}

fn tx(n: u8) -> Transaction {
    Transaction {
        network: "skynet".to_string(),
        account: "a".to_string(),
        fuel_limit: 7,
        nonce: vec![n],
        contract: None,
        method: "m".to_string(),
        caller: vec![],
        args: vec![],
        signature: vec![],
    }
}

#[test]
fn records_round_trip_on_their_own() {
    let t = tx(3);
    assert_eq!(Transaction::decode(&t.encode()), Some(t));
    let rx = Receipt { height: 1, index: 2, burned_fuel: 3, success: true, returns: vec![9] };
    assert_eq!(Receipt::decode(&rx.encode()), Some(rx));
    let ticket = Ticket::new([4; 32]);
    let block = Block {
        height: 5,
        size: 6,
        prev_hash: ticket,
        txs_hash: ticket,
        rxs_hash: ticket,
        state_hash: ticket,
    };
    assert_eq!(Block::decode(&block.encode()), Some(block));
    let acc = Account { id: "id".to_string(), contract: None, data_hash: Some(ticket) };
    assert_eq!(Account::decode(&acc.encode()), Some(acc));
    let err = RemoteError { kind: ErrorKind::Tpm2Error, message: "tpm".to_string() };
    assert_eq!(RemoteError::decode(&err.encode()), Some(err));
    assert_eq!(Transaction::decode(&vec![]), None);
    assert_eq!(Receipt::decode(&tx(1).encode()), None);
    // A receipt is not taken for a transaction either.
    let rx = Receipt { height: 1, index: 2, burned_fuel: 3, success: true, returns: vec![] };
    assert_eq!(Transaction::decode(&rx.encode()), None);
}

#[test]
fn transaction_has_one_item_for_each_field() {
    let t = Transaction {
        network: "n".to_string(),
        account: "a".to_string(),
        fuel_limit: 1,
        nonce: vec![2],
        contract: None,
        method: "m".to_string(),
        caller: vec![3],
        args: vec![4],
        signature: vec![5],
    };
    let l = |n: u8| vec![0, 0, 0, 0, 0, 0, 0, n];
    let expected: Vec<u8> = [
        l(9),
        l(1),
        vec![b'n'],
        l(1),
        vec![b'a'],
        l(8),
        l(1),
        l(1),
        vec![2],
        l(0),
        l(1),
        vec![b'm'],
        l(1),
        vec![3],
        l(1),
        vec![4],
        l(1),
        vec![5],
    ]
    .concat();
    assert_eq!(t.encode(), expected);
}

#[test]
fn lists_round_trip_on_their_own() {
    let tickets = vec![Ticket::new([1; 32]), Ticket::new([2; 32])];
    assert_eq!(decode_tickets(&encode_tickets(&tickets)), Some(tickets));
    let texts = vec!["a".to_string(), String::new(), "è".to_string()];
    assert_eq!(decode_texts(&encode_texts(&texts)), Some(texts));
    let slots = vec![None, Some(vec![1]), Some(vec![])];
    assert_eq!(decode_slots(&encode_slots(&slots)), Some(slots));
    let txs = vec![tx(1), tx(2)];
    assert_eq!(decode_transactions(&encode_transactions(&txs)), Some(txs));
    assert_eq!(decode_tickets(&encode_texts(&vec!["short".to_string()])), None);
    assert_eq!(decode_texts(&encode_slots(&vec![Some(vec![0xff])])), None);
    assert_eq!(decode_slots(&encode_texts(&vec!["x".to_string()])), None);
    assert_eq!(decode_transactions(&encode_texts(&vec!["x".to_string()])), None);
    assert_eq!(decode_tickets(&vec![]), None);
}

#[test]
fn client_errors_say_what_went_wrong() {
    assert_eq!(ClientError::Malformed.message(), "Malformed response");
    assert_eq!(ClientError::Channel(ChannelError::BufferEmpty).message(), "buffer empty");
    let err = RemoteError { kind: ErrorKind::Other, message: "write only channel".to_string() };
    assert_eq!(ClientError::Remote(err).message(), "write only channel");
    let stray = Message::GetBlockRequest { height: 0, txs: true };
    assert_eq!(name_of(&stray), "GetBlockRequest");
    assert_eq!(ClientError::Unexpected(stray).message(), "Unexpected response GetBlockRequest");
}

/// A channel that answers from a list, whatever is sent.
#[derive(Clone)]
struct Script(Vec<Message>);

impl ClientChannel for Script {
    fn send(&mut self, _buf: Vec<u8>) -> Result<(), ChannelError> {
        Ok(())
    }

    fn recv(&mut self) -> Result<Vec<u8>, ChannelError> {
        if self.0.is_empty() {
            Err(ChannelError::Io("closed".to_string()))
        } else {
            Ok(self.0.remove(0).serialize())
        }
    }
}

fn header(height: u64) -> Block {
    let t = Ticket::new([0; 32]);
    Block { height, size: 0, prev_hash: t, txs_hash: t, rxs_hash: t, state_hash: t }
}

fn client(script: Vec<Message>) -> Client<Script> {
    Client::new(Script(script), false, "skynet".to_string(), default_keypair())
}

#[test]
fn export_refuses_a_chain_that_cannot_be_counted() {
    let mut c = client(vec![Message::GetBlockResponse { block: header(u64::MAX), txs: None }]);
    assert_eq!(export_txs(&mut c), Err(ExportError::TooManyBlocks));
}

#[test]
fn export_names_the_block_of_a_missing_transaction() {
    let missing = RemoteError { kind: ErrorKind::ResourceNotFound, message: "gone".to_string() };
    let mut c = client(vec![
        Message::GetBlockResponse { block: header(0), txs: None },
        Message::GetBlockResponse { block: header(0), txs: Some(vec![Ticket::new([1; 32])]) },
        Message::Exception(missing.clone()),
    ]);
    assert_eq!(
        export_txs(&mut c),
        Err(ExportError::Transaction { height: 0, error: ClientError::Remote(missing) })
    );
}

#[test]
fn import_fails_when_the_latest_block_cannot_be_fetched() {
    let mut c = client(vec![]);
    let mut session = ImportSession::begin(encode_container(&vec![]), 3, 1).unwrap();
    assert_eq!(
        session.advance(&mut c),
        ImportStep::Failed(ImportError::NoBlock(ClientError::Channel(ChannelError::Io(
            "closed".to_string()
        ))))
    );
}

#[test]
fn import_stops_at_a_transaction_that_is_not_accepted() {
    let refusal = RemoteError { kind: ErrorKind::InvalidSignature, message: "no".to_string() };
    let mut c = client(vec![
        Message::PutTransactionResponse { hash: Ticket::new([1; 32]) },
        Message::Exception(refusal.clone()),
        Message::PutTransactionResponse { hash: Ticket::new([3; 32]) },
        Message::GetBlockResponse { block: header(0), txs: None },
    ]);
    let bytes = encode_container(&vec![
        FileBlock { height: 5, txs: vec![tx(1), tx(2), tx(3)] },
        FileBlock { height: 6, txs: vec![tx(4)] },
    ]);
    let mut session = ImportSession::begin(bytes, 3, 1).unwrap();
    assert_eq!(
        session.advance(&mut c),
        ImportStep::Failed(ImportError::Submit { height: 5, error: ClientError::Remote(refusal) })
    );
    assert_eq!(session.blocks_imported(), 0);
    // Two answers were taken: nothing was sent after the refusal.
    assert_eq!(c.chan.0.len(), 2);
}

#[test]
fn a_block_is_submitted_up_to_the_first_failure() {
    let mut c = client(vec![
        Message::PutTransactionResponse { hash: Ticket::new([1; 32]) },
        Message::GetBlockRequest { height: 0, txs: true },
        Message::PutTransactionResponse { hash: Ticket::new([3; 32]) },
    ]);
    let block = FileBlock { height: 0, txs: vec![tx(1), tx(2), tx(3)] };
    assert_eq!(
        import_block(&mut c, block),
        Err(ClientError::Unexpected(Message::GetBlockRequest { height: 0, txs: true }))
    );
    assert_eq!(c.chan.0.len(), 1);
    let mut c = client(vec![Message::PutTransactionResponse { hash: Ticket::new([1; 32]) }]);
    let block = FileBlock { height: 0, txs: vec![tx(1), tx(2)] };
    assert_eq!(
        import_block(&mut c, block),
        Err(ClientError::Channel(ChannelError::Io("closed".to_string())))
    );
    let mut c = client(vec![]);
    assert_eq!(import_block(&mut c, FileBlock { height: 0, txs: vec![] }), Ok(vec![]));
}

#[test]
fn import_with_a_budget_of_zero_times_out_without_asking() {
    let mut c = client(vec![Message::PutTransactionResponse { hash: Ticket::new([2; 32]) }]);
    let bytes = encode_container(&vec![FileBlock { height: 4, txs: vec![tx(1)] }]);
    let mut session = ImportSession::begin(bytes, 0, 1).unwrap();
    assert_eq!(
        session.advance(&mut c),
        ImportStep::Failed(ImportError::Timeout { ticket: Ticket::new([2; 32]), height: 4 })
    );
}
