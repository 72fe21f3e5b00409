use trinci_cli::client::channel::{ChannelError, ClientChannel};
use trinci_cli::client::{
    decode_reply, get_account_reply, get_account_request, get_block_reply, get_block_request,
    get_receipt_reply, get_receipt_request, get_transaction_reply, get_transaction_request,
    put_transaction_reply, put_transaction_request, quiet, subscribe_request, Client, ClientError,
};
use trinci_cli::common::default_keypair;
use trinci_cli::console::count_transactions;
use trinci_cli::impexp::{
    decode_container, encode_container, export_block, export_txs, import_block, write_block,
    write_header, ContainerError, ExportError, FileBlock, ImportError, ImportSession, ImportStep,
};
use trinci_cli::message::{
    Account, Block, ErrorKind, Events, Message, Receipt, RemoteError, Ticket, Transaction,
};

/// A service in memory. It answers every request from a chain of blocks,
/// accepts every transaction, and has the receipt of a transaction ready
/// once it was asked for it `ready_after` times.
#[derive(Clone)]
struct Node {
    chain: Vec<Vec<Transaction>>,
    ready_after: u32,
    asked: Vec<(Ticket, u32)>,
    requests: Vec<Message>,
    reply: Option<Vec<u8>>,
    broken_receipts: bool,
}

fn ticket_of(tx: &Transaction) -> Ticket {
    let mut bytes = [0u8; 32];
    for (i, b) in tx.encode().iter().enumerate() {
        bytes[i % 32] = bytes[i % 32].wrapping_mul(31).wrapping_add(*b);
    }
    Ticket::new(bytes)
}

fn header(height: u64) -> Block {
    Block {
        height,
        size: 0,
        prev_hash: Ticket::new([0; 32]),
        txs_hash: Ticket::new([1; 32]),
        rxs_hash: Ticket::new([2; 32]),
        state_hash: Ticket::new([height as u8; 32]),
    }
}

fn not_found() -> Message {
    Message::Exception(RemoteError {
        kind: ErrorKind::ResourceNotFound,
        message: "resource not found".to_string(),
    })
}

impl Node {
    fn with_chain(chain: Vec<Vec<Transaction>>) -> Self {
        Node {
            chain,
            ready_after: 1,
            asked: Vec::new(),
            requests: Vec::new(),
            reply: None,
            broken_receipts: false,
        }
    }

    fn answer(&mut self, request: &Message) -> Message {
        match request {
            Message::PutTransactionRequest { tx, .. } => {
                if self.chain.is_empty() {
                    self.chain.push(Vec::new());
                }
                self.chain.last_mut().unwrap().push(tx.clone());
                Message::PutTransactionResponse { hash: ticket_of(tx) }
            }
            Message::GetTransactionRequest { hash } => {
                for block in &self.chain {
                    for tx in block {
                        if ticket_of(tx) == *hash {
                            return Message::GetTransactionResponse { tx: tx.clone() };
                        }
                    }
                }
                not_found()
            }
            Message::GetReceiptRequest { hash } => {
                if self.broken_receipts {
                    return Message::Exception(RemoteError {
                        kind: ErrorKind::Other,
                        message: "database is down".to_string(),
                    });
                }
                let at = match self.asked.iter().position(|(t, _)| t == hash) {
                    Some(at) => at,
                    None => {
                        self.asked.push((*hash, 0));
                        self.asked.len() - 1
                    }
                };
                self.asked[at].1 += 1;
                if self.asked[at].1 >= self.ready_after {
                    Message::GetReceiptResponse {
                        rx: Receipt {
                            height: 0,
                            index: at as u32,
                            burned_fuel: 1,
                            success: true,
                            returns: vec![],
                        },
                    }
                } else {
                    not_found()
                }
            }
            Message::GetBlockRequest { height, txs } => {
                if self.chain.is_empty() {
                    return not_found();
                }
                let at = if *height == u64::MAX { self.chain.len() as u64 - 1 } else { *height };
                match self.chain.get(at as usize) {
                    Some(block) => Message::GetBlockResponse {
                        block: header(at),
                        txs: if *txs { Some(block.iter().map(ticket_of).collect()) } else { None },
                    },
                    None => not_found(),
                }
            }
            Message::GetAccountRequest { id, data } => Message::GetAccountResponse {
                acc: Account { id: id.clone(), contract: None, data_hash: None },
                data: data.iter().map(|key| if key == "none" { None } else { Some(key.as_bytes().to_vec()) }).collect(),
            },
            other => other.clone(),
        }
    }
}

impl ClientChannel for Node {
    fn send(&mut self, buf: Vec<u8>) -> Result<(), ChannelError> {
        let request = Message::deserialize(&buf).expect("the client sends messages");
        let reply = self.answer(&request);
        self.requests.push(request);
        self.reply = Some(reply.serialize());
        Ok(())
    }

    fn recv(&mut self) -> Result<Vec<u8>, ChannelError> {
        self.reply.take().ok_or(ChannelError::BufferEmpty)
    }
}

fn tx(n: u8) -> Transaction {
    Transaction {
        network: "skynet".to_string(),
        account: format!("account-{}", n),
        fuel_limit: n as u64,
        nonce: vec![n; 8],
        contract: None,
        method: "transfer".to_string(),
        caller: vec![n],
        args: vec![n, n],
        signature: vec![n; 4],
    }
}

fn chain() -> Vec<Vec<Transaction>> {
    vec![vec![tx(1), tx(2)], vec![], vec![tx(5), tx(4), tx(3)]]
}

fn blocks() -> Vec<FileBlock> {
    chain()
        .into_iter()
        .enumerate()
        .map(|(i, txs)| FileBlock { height: i as u64, txs })
        .collect()
}

fn client(node: Node) -> Client<Node> {
    Client::new(node, false, "skynet".to_string(), default_keypair())
}

#[test]
fn requests_are_what_the_protocol_says() {
    let t = Ticket::new([3; 32]);
    assert_eq!(
        put_transaction_request(tx(1)),
        Message::PutTransactionRequest { confirm: true, tx: tx(1) }
    );
    assert_eq!(get_transaction_request(t), Message::GetTransactionRequest { hash: t });
    assert_eq!(get_receipt_request(t), Message::GetReceiptRequest { hash: t });
    assert_eq!(get_block_request(7), Message::GetBlockRequest { height: 7, txs: true });
    assert_eq!(
        subscribe_request(),
        Message::Subscribe {
            id: "cli".to_string(),
            events: Events { transaction: true, block: true, contract_events: true },
        }
    );
}

#[test]
fn account_request_splits_at_the_first_colon() {
    assert_eq!(
        get_account_request("QmAcc".to_string()),
        Message::GetAccountRequest { id: "QmAcc".to_string(), data: vec![] }
    );
    assert_eq!(
        get_account_request("QmAcc:config".to_string()),
        Message::GetAccountRequest { id: "QmAcc".to_string(), data: vec!["config".to_string()] }
    );
    assert_eq!(
        get_account_request("QmAcc:a:b".to_string()),
        Message::GetAccountRequest { id: "QmAcc".to_string(), data: vec!["a:b".to_string()] }
    );
    assert_eq!(
        get_account_request(":".to_string()),
        Message::GetAccountRequest { id: String::new(), data: vec![String::new()] }
    );
    assert_eq!(
        get_account_request("è:ù".to_string()),
        Message::GetAccountRequest { id: "è".to_string(), data: vec!["ù".to_string()] }
    );
}

#[test]
fn replies_are_matched_against_the_request() {
    let t = Ticket::new([3; 32]);
    let err = RemoteError { kind: ErrorKind::FuelError, message: "no fuel".to_string() };
    let rx = Receipt { height: 1, index: 2, burned_fuel: 3, success: false, returns: vec![4] };
    let acc = Account { id: "a".to_string(), contract: Some(t), data_hash: Some(t) };
    let stray = Message::GetBlockRequest { height: 0, txs: false };

    assert_eq!(put_transaction_reply(Message::PutTransactionResponse { hash: t }), Ok(t));
    assert_eq!(get_transaction_reply(Message::GetTransactionResponse { tx: tx(1) }), Ok(tx(1)));
    assert_eq!(get_receipt_reply(Message::GetReceiptResponse { rx: rx.clone() }), Ok(rx.clone()));
    assert_eq!(
        get_block_reply(Message::GetBlockResponse { block: header(3), txs: Some(vec![t]) }),
        Ok((header(3), vec![t]))
    );
    assert_eq!(
        get_block_reply(Message::GetBlockResponse { block: header(3), txs: None }),
        Ok((header(3), vec![]))
    );
    assert_eq!(
        get_account_reply(Message::GetAccountResponse { acc: acc.clone(), data: vec![None] }),
        Ok((acc, vec![None]))
    );

    let exception = Message::Exception(err.clone());
    assert_eq!(put_transaction_reply(exception.clone()), Err(ClientError::Remote(err.clone())));
    assert_eq!(get_transaction_reply(exception.clone()), Err(ClientError::Remote(err.clone())));
    assert_eq!(get_receipt_reply(exception.clone()), Err(ClientError::Remote(err.clone())));
    assert_eq!(get_block_reply(exception.clone()), Err(ClientError::Remote(err.clone())));
    assert_eq!(get_account_reply(exception), Err(ClientError::Remote(err)));

    assert_eq!(put_transaction_reply(stray.clone()), Err(ClientError::Unexpected(stray.clone())));
    assert_eq!(get_transaction_reply(stray.clone()), Err(ClientError::Unexpected(stray.clone())));
    assert_eq!(get_receipt_reply(stray.clone()), Err(ClientError::Unexpected(stray.clone())));
    assert_eq!(get_block_reply(stray.clone()), Err(ClientError::Unexpected(stray.clone())));
    assert_eq!(get_account_reply(stray.clone()), Err(ClientError::Unexpected(stray.clone())));
    // The response to another request is as unexpected as anything else.
    let other = Message::GetReceiptResponse { rx };
    assert_eq!(get_transaction_reply(other.clone()), Err(ClientError::Unexpected(other)));
}

#[test]
fn received_bytes_are_decoded_or_refused() {
    let msg = Message::GetBlockRequest { height: 3, txs: true };
    assert_eq!(decode_reply(Ok(msg.serialize())), Ok(msg));
    assert_eq!(decode_reply(Ok(vec![1, 2, 3])), Err(ClientError::Malformed));
    assert_eq!(
        decode_reply(Err(ChannelError::BufferEmpty)),
        Err(ClientError::Channel(ChannelError::BufferEmpty))
    );
}

#[test]
fn quiet_sets_the_failure_aside() {
    assert_eq!(quiet::<u8>(Ok(3)), (Some(3), None));
    assert_eq!(quiet::<u8>(Err(ClientError::Malformed)), (None, Some(ClientError::Malformed)));
}

#[test]
fn strict_operations_go_through_the_channel() {
    let mut c = client(Node::with_chain(chain()));
    let t = c.put_transaction_err(tx(9)).unwrap();
    assert_eq!(t, ticket_of(&tx(9)));
    assert_eq!(c.get_transaction_err(t), Ok(tx(9)));
    assert!(c.get_receipt_err(t).is_ok());
    let (latest, tickets) = c.get_block_err(u64::MAX).unwrap();
    assert_eq!(latest.height, 2);
    assert_eq!(tickets.len(), 4);
    let (acc, data) = c.get_account_err("QmAcc:none".to_string()).unwrap();
    assert_eq!(acc.id, "QmAcc");
    assert_eq!(data, vec![None]);
    let (_, data) = c.get_account_err("QmAcc:key".to_string()).unwrap();
    assert_eq!(data, vec![Some(b"key".to_vec())]);
    assert_eq!(
        c.chan.requests[0],
        Message::PutTransactionRequest { confirm: true, tx: tx(9) }
    );
    assert_eq!(c.failure, None);
}

#[test]
fn a_missing_resource_is_a_remote_error() {
    let mut c = client(Node::with_chain(chain()));
    let err = c.get_transaction_err(Ticket::new([9; 32])).unwrap_err();
    assert!(err.is_not_found());
    assert!(c.get_block_err(99).unwrap_err().is_not_found());
}

#[test]
fn quiet_operations_give_nothing_and_keep_the_failure() {
    let mut c = client(Node::with_chain(chain()));
    assert_eq!(c.get_transaction(Ticket::new([9; 32])), None);
    assert!(c.failure.as_ref().unwrap().is_not_found());
    assert_eq!(c.get_block(0).map(|(b, t)| (b.height, t.len())), Some((0, 2)));
    assert_eq!(c.failure, None);
    assert_eq!(c.get_receipt(ticket_of(&tx(1))).map(|r| r.success), Some(true));
    assert_eq!(c.get_account("QmAcc:key".to_string()).map(|a| a.id), Some("QmAcc".to_string()));
    let t = c.put_transaction(tx(7));
    assert_eq!(t, Some(ticket_of(&tx(7))));
    c.subscribe();
    assert_eq!(c.failure, None);
}

#[test]
fn verbose_forms_restore_the_flag() {
    let mut c = client(Node::with_chain(chain()));
    assert!(!c.verbose);
    assert_eq!(c._put_transaction_verb(tx(7)), Some(ticket_of(&tx(7))));
    assert!(c.get_transaction_verb(ticket_of(&tx(1))).is_some());
    assert!(c.get_receipt_verb(ticket_of(&tx(1))).is_some());
    assert!(c.get_block_verb(1).is_some());
    assert!(c.get_account_verb("id".to_string()).is_some());
    assert!(!c.verbose);
    c.verbose = true;
    assert_eq!(c.get_block_verb(99), None);
    assert!(c.verbose);
}

#[test]
fn subscription_ends_when_the_channel_fails() {
    let mut c = client(Node::with_chain(vec![]));
    assert_eq!(c.subscribe_err(), Ok(()));
    // The node of this test echoes the subscription once.
    assert_eq!(c.next_event(), Some(subscribe_request()));
    assert_eq!(c.next_event(), None);
}

#[test]
fn duplicate_has_a_channel_of_its_own() {
    let mut first = client(Node::with_chain(chain()));
    let mut second = first.duplicate();
    assert_eq!(second.network, "skynet");
    assert_eq!(second.keypair, default_keypair());
    second.put_transaction_err(tx(9)).unwrap();
    assert_eq!(second.chan.requests.len(), 1);
    assert_eq!(first.chan.requests.len(), 0);
    assert_eq!(first.get_block_err(u64::MAX).unwrap().1.len(), 3);
}

#[test]
fn transactions_are_counted_over_all_blocks() {
    let mut c = client(Node::with_chain(chain()));
    assert_eq!(count_transactions(&mut c), Some(5));
    let mut empty = client(Node::with_chain(vec![]));
    assert_eq!(count_transactions(&mut empty), None);
}

#[test]
fn export_writes_every_block_in_order() {
    let mut c = client(Node::with_chain(chain()));
    let (bytes, last) = export_txs(&mut c).unwrap();
    assert_eq!(last, header(2));
    assert_eq!(bytes, encode_container(&blocks()));
    assert_eq!(decode_container(bytes), Ok(blocks()));
    // The latest block first, then each block and its transactions.
    assert_eq!(c.chan.requests[0], get_block_request(u64::MAX));
    assert_eq!(c.chan.requests[1], get_block_request(0));
    assert_eq!(c.chan.requests[2], get_transaction_request(ticket_of(&tx(1))));
    assert_eq!(c.chan.requests[3], get_transaction_request(ticket_of(&tx(2))));
    assert_eq!(c.chan.requests[4], get_block_request(1));
    assert_eq!(c.chan.requests.len(), 1 + 3 + 5);
}

#[test]
fn export_of_one_block_keeps_the_order_of_the_block() {
    let mut c = client(Node::with_chain(chain()));
    assert_eq!(export_block(&mut c, 2), Ok(blocks()[2].clone()));
    assert!(matches!(export_block(&mut c, 3), Err(ExportError::Block { height: 3, .. })));
}

#[test]
fn export_without_a_chain_fails() {
    let mut c = client(Node::with_chain(vec![]));
    assert!(matches!(export_txs(&mut c), Err(ExportError::NoBlock(_))));
}

#[test]
fn import_of_a_block_submits_in_order() {
    let mut c = client(Node::with_chain(vec![]));
    let tickets = import_block(&mut c, blocks()[2].clone());
    assert_eq!(tickets, Ok(vec![ticket_of(&tx(5)), ticket_of(&tx(4)), ticket_of(&tx(3))]));
    assert_eq!(c.chan.chain, vec![vec![tx(5), tx(4), tx(3)]]);
}

/// Runs a session to its end and gives the last step, the pauses and the
/// number of calls of `advance`.
fn run(session: &mut ImportSession, c: &mut Client<Node>) -> (ImportStep, Vec<u64>) {
    let mut pauses = Vec::new();
    loop {
        match session.advance(c) {
            ImportStep::Pause(secs) => pauses.push(secs),
            other => return (other, pauses),
        }
    }
}

#[test]
fn import_replays_what_export_wrote() {
    let mut source = client(Node::with_chain(chain()));
    let (bytes, _) = export_txs(&mut source).unwrap();

    let mut target = client(Node::with_chain(vec![]));
    let mut session = ImportSession::begin(bytes, 10, 1).unwrap();
    assert_eq!(session.num_blocks(), 3);
    let (end, pauses) = run(&mut session, &mut target);
    // The node of this test keeps everything in one block, so the chain
    // it makes differs in length from the one that was exported.
    assert_eq!(end, ImportStep::Finished { differs: true, last: header(0) });
    assert_eq!(pauses, Vec::<u64>::new());
    assert_eq!(session.blocks_imported(), 3);
    assert_eq!(target.chan.chain, vec![vec![tx(1), tx(2), tx(5), tx(4), tx(3)]]);

    // Each block is submitted, then confirmed, before the next is read.
    let kinds: Vec<&str> = target
        .chan
        .requests
        .iter()
        .map(|m| match m {
            Message::PutTransactionRequest { .. } => "put",
            Message::GetReceiptRequest { .. } => "rx",
            Message::GetBlockRequest { .. } => "blk",
            _ => "other",
        })
        .collect();
    assert_eq!(
        kinds,
        vec!["put", "put", "rx", "rx", "put", "put", "put", "rx", "rx", "rx", "blk"]
    );
}

#[test]
fn import_waits_for_each_receipt_in_turn() {
    let mut node = Node::with_chain(vec![]);
    node.ready_after = 3;
    let mut target = client(node);
    let bytes = encode_container(&vec![FileBlock { height: 0, txs: vec![tx(1), tx(2)] }]);
    let mut session = ImportSession::begin(bytes, 10, 1).unwrap();
    let (end, pauses) = run(&mut session, &mut target);
    assert!(matches!(end, ImportStep::Finished { differs: false, .. }));
    // Two answers of "not found" for each ticket.
    assert_eq!(pauses, vec![1, 1, 1, 1]);
    assert_eq!(target.chan.asked, vec![(ticket_of(&tx(1)), 3), (ticket_of(&tx(2)), 3)]);
}

#[test]
fn import_times_out_when_the_budget_is_used_up() {
    let mut node = Node::with_chain(vec![]);
    node.ready_after = 4;
    let mut target = client(node);
    let bytes = encode_container(&vec![FileBlock { height: 6, txs: vec![tx(1)] }]);
    let mut session = ImportSession::begin(bytes, 3, 2).unwrap();
    let (end, pauses) = run(&mut session, &mut target);
    assert_eq!(
        end,
        ImportStep::Failed(ImportError::Timeout { ticket: ticket_of(&tx(1)), height: 6 })
    );
    assert_eq!(pauses, vec![2, 2]);
    assert_eq!(target.chan.asked, vec![(ticket_of(&tx(1)), 3)]);
    assert_eq!(session.blocks_imported(), 0);
}

#[test]
fn import_does_not_retry_other_failures() {
    let mut node = Node::with_chain(vec![]);
    node.broken_receipts = true;
    let mut target = client(node);
    let bytes = encode_container(&vec![FileBlock { height: 0, txs: vec![tx(1)] }]);
    let mut session = ImportSession::begin(bytes, 5, 1).unwrap();
    let (end, pauses) = run(&mut session, &mut target);
    assert!(matches!(
        end,
        ImportStep::Failed(ImportError::Receipt { height: 0, error: ClientError::Remote(_), .. })
    ));
    assert_eq!(pauses, Vec::<u64>::new());
    let polls = target
        .chan
        .requests
        .iter()
        .filter(|m| matches!(m, Message::GetReceiptRequest { .. }))
        .count();
    assert_eq!(polls, 1);
}

#[test]
fn import_with_bad_magic_submits_nothing() {
    let mut bytes = encode_container(&blocks());
    bytes[15] ^= 0xff;
    assert!(matches!(ImportSession::begin(bytes, 10, 1), Err(ContainerError::BadMagic)));
}

#[test]
fn import_of_a_truncated_container_stops_at_the_cut() {
    for k in 0..3usize {
        let mut kept = Vec::new();
        write_header(&mut kept, 3);
        for block in &blocks()[..k] {
            write_block(&mut kept, block);
        }
        let mut target = client(Node::with_chain(vec![]));
        let mut session = ImportSession::begin(kept, 10, 1).unwrap();
        let (end, _) = run(&mut session, &mut target);
        assert_eq!(
            end,
            ImportStep::Failed(ImportError::Container(ContainerError::EarlyTermination))
        );
        assert_eq!(session.blocks_imported(), k as u64);
        // The latest block is not asked for.
        assert!(target
            .chan
            .requests
            .iter()
            .all(|m| !matches!(m, Message::GetBlockRequest { .. })));
        if k == 0 {
            assert!(target.chan.requests.is_empty());
        }
        let submitted: Vec<Transaction> = blocks()[..k].iter().flat_map(|b| b.txs.clone()).collect();
        let got: Vec<Transaction> = target.chan.chain.into_iter().flatten().collect();
        assert_eq!(got, submitted);
    }
}

#[test]
fn import_reports_a_chain_of_the_announced_length() {
    // The target already has two blocks, and the container announces
    // three: the transactions go to the latest block.
    let mut target = client(Node::with_chain(vec![vec![], vec![], vec![]]));
    let mut session = ImportSession::begin(encode_container(&blocks()), 10, 1).unwrap();
    let (end, _) = run(&mut session, &mut target);
    assert_eq!(end, ImportStep::Finished { differs: false, last: header(2) });
}
