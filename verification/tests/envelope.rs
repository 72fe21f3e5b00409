use trinci_cli::message::{
    Account, Block, ErrorKind, Events, Message, Receipt, RemoteError, Ticket, Transaction,
};

fn tx(args: Vec<u8>, contract: Option<Ticket>) -> Transaction {
    Transaction {
        network: "skynet".to_string(),
        account: "QmTarget".to_string(),
        fuel_limit: 1_000_000,
        nonce: vec![0, 1, 2, 3, 4, 5, 6, 7],
        contract,
        method: "transfer".to_string(),
        caller: vec![0x04, 0xaf, 0xb0],
        args,
        signature: vec![0x5a; 96],
    }
}

fn block(height: u64) -> Block {
    Block {
        height,
        size: 3,
        prev_hash: Ticket::new([1; 32]),
        txs_hash: Ticket::new([2; 32]),
        rxs_hash: Ticket::new([3; 32]),
        state_hash: Ticket::new([4; 32]),
    }
}

fn every_kind() -> Vec<Message> {
    vec![
        Message::Exception(RemoteError {
            kind: ErrorKind::ResourceNotFound,
            message: "resource not found".to_string(),
        }),
        Message::Exception(RemoteError { kind: ErrorKind::Other, message: String::new() }),
        Message::Subscribe {
            id: "cli".to_string(),
            events: Events { transaction: true, block: false, contract_events: true },
        },
        Message::PutTransactionRequest { confirm: true, tx: tx(vec![1, 2, 3], None) },
        Message::PutTransactionRequest {
            confirm: false,
            tx: tx(vec![], Some(Ticket::new([9; 32]))),
        },
        Message::PutTransactionResponse { hash: Ticket::new([0xAA; 32]) },
        Message::GetTransactionRequest { hash: Ticket::new([0; 32]) },
        Message::GetTransactionResponse { tx: tx(vec![0xff; 300], Some(Ticket::new([8; 32]))) },
        Message::GetReceiptRequest { hash: Ticket::new([0x11; 32]) },
        Message::GetReceiptResponse {
            rx: Receipt {
                height: 7,
                index: 2,
                burned_fuel: 1234,
                success: true,
                returns: vec![0xc0],
            },
        },
        Message::GetBlockRequest { height: u64::MAX, txs: true },
        Message::GetBlockResponse { block: block(12), txs: None },
        Message::GetBlockResponse { block: block(12), txs: Some(vec![]) },
        Message::GetBlockResponse {
            block: block(0),
            txs: Some(vec![Ticket::new([5; 32]), Ticket::new([6; 32])]),
        },
        Message::GetAccountRequest { id: "QmAccount".to_string(), data: vec![] },
        Message::GetAccountRequest {
            id: "QmAccount".to_string(),
            data: vec!["config".to_string(), "àèì€".to_string()],
        },
        Message::GetAccountResponse {
            acc: Account {
                id: "QmAccount".to_string(),
                contract: Some(Ticket::new([7; 32])),
                data_hash: None,
            },
            data: vec![Some(vec![1, 2, 3]), None, Some(vec![])],
        },
    ]
}

#[test]
fn every_kind_of_message_round_trips() {
    for msg in every_kind() {
        let bytes = msg.serialize();
        assert_eq!(Message::deserialize(&bytes), Some(msg));
    }
}

#[test]
fn block_request_has_the_documented_bytes() {
    let msg = Message::GetBlockRequest { height: 1, txs: true };
    let expected: Vec<u8> = vec![
        0, 0, 0, 0, 0, 0, 0, 3, // three items
        0, 0, 0, 0, 0, 0, 0, 1, 8, // the tag
        0, 0, 0, 0, 0, 0, 0, 8, 0, 0, 0, 0, 0, 0, 0, 1, // the height
        0, 0, 0, 0, 0, 0, 0, 1, 1, // with the tickets
    ];
    assert_eq!(msg.serialize(), expected);
}

#[test]
fn put_response_is_its_tag_and_the_ticket() {
    let msg = Message::PutTransactionResponse { hash: Ticket::new([0xAA; 32]) };
    let mut expected: Vec<u8> = vec![0, 0, 0, 0, 0, 0, 0, 2, 0, 0, 0, 0, 0, 0, 0, 1, 3];
    expected.extend_from_slice(&[0, 0, 0, 0, 0, 0, 0, 32]);
    expected.extend_from_slice(&[0xAA; 32]);
    assert_eq!(msg.serialize(), expected);
}

#[test]
fn trailing_bytes_are_refused() {
    let mut bytes = Message::GetBlockRequest { height: 1, txs: true }.serialize();
    bytes.push(0);
    assert_eq!(Message::deserialize(&bytes), None);
}

#[test]
fn truncated_message_is_refused() {
    let bytes = Message::GetReceiptRequest { hash: Ticket::new([1; 32]) }.serialize();
    for cut in 0..bytes.len() {
        assert_eq!(Message::deserialize(&bytes[..cut].to_vec()), None);
    }
}

#[test]
fn unknown_tag_is_refused() {
    let mut bytes = Message::GetBlockRequest { height: 1, txs: true }.serialize();
    bytes[16] = 12;
    assert_eq!(Message::deserialize(&bytes), None);
}

#[test]
fn ticket_of_wrong_length_is_refused() {
    // A put response whose ticket has 31 bytes.
    let mut bytes: Vec<u8> = vec![0, 0, 0, 0, 0, 0, 0, 2, 0, 0, 0, 0, 0, 0, 0, 1, 3];
    bytes.extend_from_slice(&[0, 0, 0, 0, 0, 0, 0, 31]);
    bytes.extend_from_slice(&[0xAA; 31]);
    assert_eq!(Message::deserialize(&bytes), None);
}

#[test]
fn flag_other_than_zero_or_one_is_refused() {
    let mut bytes = Message::GetBlockRequest { height: 1, txs: true }.serialize();
    let last = bytes.len() - 1;
    bytes[last] = 2;
    assert_eq!(Message::deserialize(&bytes), None);
}

#[test]
fn text_that_is_not_utf8_is_refused() {
    let mut bytes =
        Message::GetAccountRequest { id: "ab".to_string(), data: vec![] }.serialize();
    // The account name is the second item: its two bytes follow the tag's
    // item and a length of eight bytes.
    let at = 8 + 9 + 8;
    assert_eq!(&bytes[at..at + 2], b"ab");
    bytes[at] = 0xff;
    assert_eq!(Message::deserialize(&bytes), None);
}

#[test]
fn error_kinds_keep_their_codes() {
    let kinds = [
        ErrorKind::MalformedData,
        ErrorKind::InvalidSignature,
        ErrorKind::DuplicatedConfirmedTx,
        ErrorKind::DuplicatedUnconfirmedTx,
        ErrorKind::ResourceNotFound,
        ErrorKind::WasmMachineFault,
        ErrorKind::SmartContractFault,
        ErrorKind::FuelError,
        ErrorKind::NotImplemented,
        ErrorKind::Tpm2Error,
        ErrorKind::WrongTxType,
        ErrorKind::BrokenIntegrity,
        ErrorKind::Other,
    ];
    for (i, kind) in kinds.iter().enumerate() {
        assert_eq!(kind.code(), i as u8);
        assert_eq!(ErrorKind::from_code(i as u8), Some(*kind));
    }
    assert_eq!(ErrorKind::from_code(13), None);
}

#[test]
fn ticket_from_bytes_wants_thirty_two() {
    assert_eq!(Ticket::from_bytes(&vec![3; 32]), Some(Ticket::new([3; 32])));
    assert_eq!(Ticket::from_bytes(&vec![3; 31]), None);
    assert_eq!(Ticket::from_bytes(&vec![3; 33]), None);
    assert_eq!(Ticket::new([3; 32]).to_bytes(), vec![3; 32]);
    assert!(Ticket::new([3; 32]).same(&Ticket::new([3; 32])));
    assert!(!Ticket::new([3; 32]).same(&Ticket::new([4; 32])));
}
