use trinci_cli::client::channel::{ChannelError, ClientChannel};
use trinci_cli::client::{Client, ClientError};
use trinci_cli::common::default_keypair;
use trinci_cli::message::{ErrorKind, Message, RemoteError, Ticket, Transaction};

#[derive(Clone)]
struct MockChannel {
    sent: Vec<Vec<u8>>,
    replies: Vec<Result<Vec<u8>, ChannelError>>,
}

impl MockChannel {
    fn answering(replies: Vec<Result<Vec<u8>, ChannelError>>) -> Self {
        MockChannel { sent: Vec::new(), replies }
    }
}

impl ClientChannel for MockChannel {
    fn send(&mut self, buf: Vec<u8>) -> Result<(), ChannelError> {
        self.sent.push(buf);
        Ok(())
    }

    fn recv(&mut self) -> Result<Vec<u8>, ChannelError> {
        if self.replies.is_empty() {
            Err(ChannelError::Io("connection closed".to_string()))
        } else {
            self.replies.remove(0)
        }
    }
}

fn sample_tx() -> Transaction {
    Transaction {
        network: "skynet".to_string(),
        account: "QmAccount".to_string(),
        fuel_limit: 1000,
        nonce: vec![1, 2, 3, 4, 5, 6, 7, 8],
        contract: Some(Ticket::new([7u8; 32])),
        method: "transfer".to_string(),
        caller: vec![4, 5, 6],
        args: vec![0x81, 0xa1, 0x61, 0x01],
        signature: vec![9; 64],
    }
}

fn client_with(reply: Message) -> Client<MockChannel> {
    let chan = MockChannel::answering(vec![Ok(reply.serialize())]);
    Client::new(chan, false, "skynet".to_string(), default_keypair())
}

#[test]
fn submit_returns_the_ticket_of_the_response() {
    let ticket = Ticket::new([0xAA; 32]);
    let mut client = client_with(Message::PutTransactionResponse { hash: ticket });
    assert_eq!(client.put_transaction_err(sample_tx()), Ok(ticket));
    let expected = Message::PutTransactionRequest { confirm: true, tx: sample_tx() };
    assert_eq!(client.chan.sent, vec![expected.serialize()]);
}

#[test]
fn submit_wraps_the_exception_of_the_remote() {
    let err = RemoteError { kind: ErrorKind::InvalidSignature, message: "bad signature".to_string() };
    let mut client = client_with(Message::Exception(err.clone()));
    assert_eq!(client.put_transaction_err(sample_tx()), Err(ClientError::Remote(err)));
}

#[test]
fn submit_refuses_any_other_message() {
    let other = Message::GetTransactionResponse { tx: sample_tx() };
    let mut client = client_with(other.clone());
    assert_eq!(client.put_transaction_err(sample_tx()), Err(ClientError::Unexpected(other)));
}
