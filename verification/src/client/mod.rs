//! The protocol client: every operation sends one request over the channel,
//! receives one message, and takes the answer out of it.
//!
//! What to send and what to make of an answer are functions of their own
//! here, with exact contracts (`*_request`, `*_reply`, `decode_reply`). The
//! operations of `Client` put them around the two calls of the channel.
//!
//! Nothing is known of what a channel receives. So the client keeps a
//! transcript of what it handed to the channel and of what the channel
//! gave back, and every operation says which exchange it added to the
//! transcript and that its result is what the protocol makes of that
//! exchange.

pub mod bridge;
pub mod channel;
pub mod file;
pub mod http;
pub mod stdio;

use crate::client::channel::{
    channel_error_message, ChannelError, ChannelErrorView, ClientChannel,
};
use crate::common::KeyPair;
use crate::envelope::{dec_message, enc_message};
use crate::fields::get_bytes;
use crate::message::{
    slots_view, tickets_view, Account, AccountView, Block, BlockView, ErrorKind, Events, Message,
    MessageView, Receipt, ReceiptView, RemoteError, RemoteErrorView, Ticket, Transaction,
    TransactionView,
};
use crate::text::{append_chars, append_range, from_chars, to_chars};
use vstd::prelude::*;

verus! {

/// Why an operation of the client failed.
#[derive(Clone, Debug, PartialEq, Eq)]
pub enum ClientError {
    /// The channel could not send or receive.
    Channel(ChannelError),
    /// What was received is not the bytes of any message.
    Malformed,
    /// The remote service reported a failure in place of the response.
    Remote(RemoteError),
    /// The message received is neither the response that the request asks
    /// for nor the report of a failure.
    Unexpected(Message),
}

pub enum ClientErrorView {
    Channel(ChannelErrorView),
    Malformed,
    Remote(RemoteErrorView),
    Unexpected(MessageView),
}

impl View for ClientError {
    type V = ClientErrorView;

    open spec fn view(&self) -> ClientErrorView {
        match *self {
            ClientError::Channel(e) => ClientErrorView::Channel(e@),
            ClientError::Malformed => ClientErrorView::Malformed,
            ClientError::Remote(e) => ClientErrorView::Remote(e@),
            ClientError::Unexpected(m) => ClientErrorView::Unexpected(m@),
        }
    }
}

impl ClientError {
    /// Whether the remote service reported that what was asked for does not
    /// exist. For a receipt this means that the transaction was not
    /// executed yet.
    pub open spec fn not_found(self) -> bool {
        self@ matches ClientErrorView::Remote(e) && e.kind == ErrorKind::ResourceNotFound
    }

    /// Whether the remote service reported that what was asked for does not
    /// exist.
    pub fn is_not_found(&self) -> (b: bool)
        ensures
            b == self.not_found(),
    {
        match self {
            ClientError::Remote(e) => match e.kind {
                ErrorKind::ResourceNotFound => true,
                _ => false,
            },
            _ => false,
        }
    }
}

/// The name of the kind of a message.
pub open spec fn kind_name(m: MessageView) -> Seq<char> {
    match m {
        MessageView::Exception(_) => "Exception"@,
        MessageView::Subscribe { .. } => "Subscribe"@,
        MessageView::PutTransactionRequest { .. } => "PutTransactionRequest"@,
        MessageView::PutTransactionResponse { .. } => "PutTransactionResponse"@,
        MessageView::GetTransactionRequest { .. } => "GetTransactionRequest"@,
        MessageView::GetTransactionResponse { .. } => "GetTransactionResponse"@,
        MessageView::GetReceiptRequest { .. } => "GetReceiptRequest"@,
        MessageView::GetReceiptResponse { .. } => "GetReceiptResponse"@,
        MessageView::GetBlockRequest { .. } => "GetBlockRequest"@,
        MessageView::GetBlockResponse { .. } => "GetBlockResponse"@,
        MessageView::GetAccountRequest { .. } => "GetAccountRequest"@,
        MessageView::GetAccountResponse { .. } => "GetAccountResponse"@,
    }
}

/// The sentence that says what went wrong with an operation.
pub open spec fn client_error_message(e: ClientErrorView) -> Seq<char> {
    match e {
        ClientErrorView::Channel(e) => channel_error_message(e),
        ClientErrorView::Malformed => "Malformed response"@,
        ClientErrorView::Remote(e) => e.message,
        ClientErrorView::Unexpected(m) => "Unexpected response "@ + kind_name(m),
    }
}

/// The name of the kind of the message `m`.
pub fn name_of(m: &Message) -> (name: String)
    ensures
        name@ == kind_name(m@),
{
    match m {
        Message::Exception(_) => "Exception".to_owned(),
        Message::Subscribe { .. } => "Subscribe".to_owned(),
        Message::PutTransactionRequest { .. } => "PutTransactionRequest".to_owned(),
        Message::PutTransactionResponse { .. } => "PutTransactionResponse".to_owned(),
        Message::GetTransactionRequest { .. } => "GetTransactionRequest".to_owned(),
        Message::GetTransactionResponse { .. } => "GetTransactionResponse".to_owned(),
        Message::GetReceiptRequest { .. } => "GetReceiptRequest".to_owned(),
        Message::GetReceiptResponse { .. } => "GetReceiptResponse".to_owned(),
        Message::GetBlockRequest { .. } => "GetBlockRequest".to_owned(),
        Message::GetBlockResponse { .. } => "GetBlockResponse".to_owned(),
        Message::GetAccountRequest { .. } => "GetAccountRequest".to_owned(),
        Message::GetAccountResponse { .. } => "GetAccountResponse".to_owned(),
    }
}

impl ClientError {
    /// A sentence that says what went wrong: for a failure of the channel
    /// what the channel says, for a failure that the service reported what
    /// the service says, and for an unexpected message the name of its
    /// kind.
    pub fn message(&self) -> (s: String)
        ensures
            s@ == client_error_message(self@),
    {
        match self {
            ClientError::Channel(e) => e.message(),
            ClientError::Malformed => "Malformed response".to_owned(),
            ClientError::Remote(e) => e.message.clone(),
            ClientError::Unexpected(m) => {
                let mut text = to_chars("Unexpected response ");
                let name = name_of(m);
                let tail = to_chars(name.as_str());
                append_chars(&mut text, &tail);
                from_chars(&text)
            },
        }
    }
}

// ---------------------------------------------------------------------
// The requests

/// The request to submit `tx`. It asks the service to answer only once the
/// transaction is accepted.
pub fn put_transaction_request(tx: Transaction) -> (m: Message)
    ensures
        m@ == (MessageView::PutTransactionRequest { confirm: true, tx: tx@ }),
{
    Message::PutTransactionRequest { confirm: true, tx }
}

/// The request for the transaction with the ticket `hash`.
pub fn get_transaction_request(hash: Ticket) -> (m: Message)
    ensures
        m@ == (MessageView::GetTransactionRequest { hash: hash@ }),
{
    Message::GetTransactionRequest { hash }
}

/// The request for the receipt of the transaction with the ticket `hash`.
pub fn get_receipt_request(hash: Ticket) -> (m: Message)
    ensures
        m@ == (MessageView::GetReceiptRequest { hash: hash@ }),
{
    Message::GetReceiptRequest { hash }
}

/// The request for the block at `height`, with the tickets of its
/// transactions. The largest height stands for the latest block.
pub fn get_block_request(height: u64) -> (m: Message)
    ensures
        m@ == (MessageView::GetBlockRequest { height, txs: true }),
{
    Message::GetBlockRequest { height, txs: true }
}

/// The first position at or after `from` at which `s` holds a colon.
pub open spec fn first_colon(s: Seq<char>, from: int) -> Option<int>
    decreases s.len() - from,
{
    if from < 0 || from >= s.len() {
        None
    } else if s[from] == ':' {
        Some(from)
    } else {
        first_colon(s, from + 1)
    }
}

/// The account and the data keys that the text `id` asks for: what stands
/// before the first colon is the account and what stands after it is one
/// key; without a colon the whole is the account and no key is asked for.
pub open spec fn account_query(id: Seq<char>) -> (Seq<char>, Seq<Seq<char>>) {
    match first_colon(id, 0) {
        Some(i) => (id.subrange(0, i), seq![id.subrange(i + 1, id.len() as int)]),
        None => (id, Seq::empty()),
    }
}

/// The request for the account that `id` names, with one data slot if `id`
/// names a key after a colon.
pub fn get_account_request(id: String) -> (m: Message)
    ensures
        m@ == (MessageView::GetAccountRequest {
            id: account_query(id@).0,
            data: account_query(id@).1,
        }),
{
    let chars = to_chars(id.as_str());
    let mut i: usize = 0;
    while i < chars.len()
        invariant
            i <= chars.len(),
            chars@ == id@,
            first_colon(chars@, 0) == first_colon(chars@, i as int),
        decreases chars.len() - i,
    {
        if chars[i] == ':' {
            let mut account: Vec<char> = Vec::new();
            append_range(&mut account, &chars, 0, i);
            let mut key: Vec<char> = Vec::new();
            append_range(&mut key, &chars, i + 1, chars.len());
            let mut data: Vec<String> = Vec::new();
            data.push(from_chars(&key));
            let m = Message::GetAccountRequest { id: from_chars(&account), data };
            proof {
                assert(account@ =~= chars@.subrange(0, i as int));
                assert(key@ =~= chars@.subrange(i + 1, chars@.len() as int));
                assert(crate::message::texts_view(data@) =~= seq![key@]);
            }
            return m;
        }
        i += 1;
    }
    let data: Vec<String> = Vec::new();
    proof {
        assert(crate::message::texts_view(data@) =~= Seq::<Seq<char>>::empty());
    }
    Message::GetAccountRequest { id, data }
}

/// The request to be told of every transaction, block and contract event.
pub fn subscribe_request() -> (m: Message)
    ensures
        m@ == (MessageView::Subscribe {
            id: "cli"@,
            events: Events { transaction: true, block: true, contract_events: true },
        }),
{
    Message::Subscribe {
        id: "cli".to_owned(),
        events: Events { transaction: true, block: true, contract_events: true },
    }
}

// ---------------------------------------------------------------------
// The answers

/// What was received, as a message: bytes that are no message are
/// malformed, and a failure of the channel stays one.
pub open spec fn message_of(received: Result<Seq<u8>, ChannelErrorView>) -> Result<
    MessageView,
    ClientErrorView,
> {
    match received {
        Ok(buf) => match dec_message(buf) {
            Some(m) => Ok(m),
            None => Err(ClientErrorView::Malformed),
        },
        Err(e) => Err(ClientErrorView::Channel(e)),
    }
}

/// What the answer to a submission comes to: the ticket of the response,
/// the failure that the service reports, or the message itself as
/// unexpected.
pub open spec fn ticket_in(answer: Result<MessageView, ClientErrorView>) -> Result<
    Seq<u8>,
    ClientErrorView,
> {
    match answer {
        Ok(MessageView::PutTransactionResponse { hash }) => Ok(hash),
        Ok(MessageView::Exception(e)) => Err(ClientErrorView::Remote(e)),
        Ok(other) => Err(ClientErrorView::Unexpected(other)),
        Err(e) => Err(e),
    }
}

/// What the answer to a request for a transaction comes to.
pub open spec fn transaction_in(answer: Result<MessageView, ClientErrorView>) -> Result<
    TransactionView,
    ClientErrorView,
> {
    match answer {
        Ok(MessageView::GetTransactionResponse { tx }) => Ok(tx),
        Ok(MessageView::Exception(e)) => Err(ClientErrorView::Remote(e)),
        Ok(other) => Err(ClientErrorView::Unexpected(other)),
        Err(e) => Err(e),
    }
}

/// What the answer to a request for a receipt comes to.
pub open spec fn receipt_in(answer: Result<MessageView, ClientErrorView>) -> Result<
    ReceiptView,
    ClientErrorView,
> {
    match answer {
        Ok(MessageView::GetReceiptResponse { rx }) => Ok(rx),
        Ok(MessageView::Exception(e)) => Err(ClientErrorView::Remote(e)),
        Ok(other) => Err(ClientErrorView::Unexpected(other)),
        Err(e) => Err(e),
    }
}

/// What the answer to a request for a block comes to: the header and the
/// tickets of the transactions, none where the response lists none.
pub open spec fn block_in(answer: Result<MessageView, ClientErrorView>) -> Result<
    (BlockView, Seq<Seq<u8>>),
    ClientErrorView,
> {
    match answer {
        Ok(MessageView::GetBlockResponse { block, txs }) => Ok(
            (
                block,
                match txs {
                    Some(v) => v,
                    None => Seq::empty(),
                },
            ),
        ),
        Ok(MessageView::Exception(e)) => Err(ClientErrorView::Remote(e)),
        Ok(other) => Err(ClientErrorView::Unexpected(other)),
        Err(e) => Err(e),
    }
}

/// What the answer to a request for an account comes to: the account and
/// its data slots, a slot that the account does not hold being `None`.
pub open spec fn account_in(answer: Result<MessageView, ClientErrorView>) -> Result<
    (AccountView, Seq<Option<Seq<u8>>>),
    ClientErrorView,
> {
    match answer {
        Ok(MessageView::GetAccountResponse { acc, data }) => Ok((acc, data)),
        Ok(MessageView::Exception(e)) => Err(ClientErrorView::Remote(e)),
        Ok(other) => Err(ClientErrorView::Unexpected(other)),
        Err(e) => Err(e),
    }
}

/// The result `r` is `expected`, value for value.
pub open spec fn agrees<T: View>(r: Result<T, ClientError>, expected: Result<
    T::V,
    ClientErrorView,
>) -> bool {
    match expected {
        Ok(v) => r matches Ok(x) && x@ == v,
        Err(e) => r matches Err(x) && x@ == e,
    }
}

/// The header and tickets `r` are `expected`, value for value.
pub open spec fn agrees_block(
    r: Result<(Block, Vec<Ticket>), ClientError>,
    expected: Result<(BlockView, Seq<Seq<u8>>), ClientErrorView>,
) -> bool {
    match expected {
        Ok((block, tickets)) => r matches Ok((b, t)) && b@ == block && tickets_view(t@)
            == tickets,
        Err(e) => r matches Err(x) && x@ == e,
    }
}

/// The account and slots `r` are `expected`, value for value.
pub open spec fn agrees_account(
    r: Result<(Account, Vec<Option<Vec<u8>>>), ClientError>,
    expected: Result<(AccountView, Seq<Option<Seq<u8>>>), ClientErrorView>,
) -> bool {
    match expected {
        Ok((acc, data)) => r matches Ok((a, d)) && a@ == acc && slots_view(d@) == data,
        Err(e) => r matches Err(x) && x@ == e,
    }
}

/// The view of what a channel gave when it was asked to receive.
pub open spec fn seen(received: Result<Vec<u8>, ChannelError>) -> Result<
    Seq<u8>,
    ChannelErrorView,
> {
    match received {
        Ok(buf) => Ok(buf@),
        Err(e) => Err(e@),
    }
}

/// What was received, as a message.
pub fn decode_reply(received: Result<Vec<u8>, ChannelError>) -> (r: Result<Message, ClientError>)
    ensures
        agrees(r, message_of(seen(received))),
{
    match received {
        Ok(buf) => match Message::deserialize(&buf) {
            Some(m) => Ok(m),
            None => Err(ClientError::Malformed),
        },
        Err(e) => Err(ClientError::Channel(e)),
    }
}

/// The ticket in the answer to a submission.
pub fn put_transaction_reply(reply: Message) -> (r: Result<Ticket, ClientError>)
    ensures
        agrees(r, ticket_in(Ok(reply@))),
{
    match reply {
        Message::PutTransactionResponse { hash } => Ok(hash),
        Message::Exception(err) => Err(ClientError::Remote(err)),
        res => Err(ClientError::Unexpected(res)),
    }
}

/// The transaction in the answer to a request for one.
pub fn get_transaction_reply(reply: Message) -> (r: Result<Transaction, ClientError>)
    ensures
        agrees(r, transaction_in(Ok(reply@))),
{
    match reply {
        Message::GetTransactionResponse { tx } => Ok(tx),
        Message::Exception(err) => Err(ClientError::Remote(err)),
        res => Err(ClientError::Unexpected(res)),
    }
}

/// The receipt in the answer to a request for one.
pub fn get_receipt_reply(reply: Message) -> (r: Result<Receipt, ClientError>)
    ensures
        agrees(r, receipt_in(Ok(reply@))),
{
    match reply {
        Message::GetReceiptResponse { rx } => Ok(rx),
        Message::Exception(err) => Err(ClientError::Remote(err)),
        res => Err(ClientError::Unexpected(res)),
    }
}

/// The header and the tickets in the answer to a request for a block. An
/// answer without a list of tickets gives no tickets.
pub fn get_block_reply(reply: Message) -> (r: Result<(Block, Vec<Ticket>), ClientError>)
    ensures
        agrees_block(r, block_in(Ok(reply@))),
{
    match reply {
        Message::GetBlockResponse { block, txs } => {
            let tickets = match txs {
                Some(v) => v,
                None => Vec::new(),
            };
            proof {
                if txs is None {
                    assert(tickets_view(tickets@) =~= Seq::<Seq<u8>>::empty());
                }
            }
            Ok((block, tickets))
        },
        Message::Exception(err) => Err(ClientError::Remote(err)),
        res => Err(ClientError::Unexpected(res)),
    }
}

/// The account and the data slots in the answer to a request for an
/// account. A slot that the account does not hold is `None` in the list.
pub fn get_account_reply(reply: Message) -> (r: Result<
    (Account, Vec<Option<Vec<u8>>>),
    ClientError,
>)
    ensures
        agrees_account(r, account_in(Ok(reply@))),
{
    match reply {
        Message::GetAccountResponse { acc, data } => Ok((acc, data)),
        Message::Exception(err) => Err(ClientError::Remote(err)),
        res => Err(ClientError::Unexpected(res)),
    }
}

/// The quiet form of an answer: the value, or nothing with the failure set
/// aside.
pub fn quiet<T>(answer: Result<T, ClientError>) -> (r: (Option<T>, Option<ClientError>))
    ensures
        match answer {
            Ok(v) => r.0 == Some(v) && r.1 is None,
            Err(e) => r.0 is None && r.1 == Some(e),
        },
{
    match answer {
        Ok(v) => (Some(v), None),
        Err(e) => (None, Some(e)),
    }
}

// ---------------------------------------------------------------------
// The transcript

/// One call of the channel, as the client saw it.
pub enum Event {
    /// These bytes were handed to the channel to send; it took them, or
    /// failed in this way.
    Sent { bytes: Seq<u8>, failure: Option<ChannelErrorView> },
    /// The channel was asked to receive and gave this.
    Received(Result<Seq<u8>, ChannelErrorView>),
}

/// What came of one request.
pub enum Reply {
    /// The channel failed to send the request, so nothing was received.
    NotSent(ChannelErrorView),
    /// The request was sent, and this was received after it.
    Got(Result<Seq<u8>, ChannelErrorView>),
}

/// The calls of the channel that one request makes: the request is sent,
/// and if it was sent, something is received.
pub open spec fn exchange(request: Seq<u8>, reply: Reply) -> Seq<Event> {
    match reply {
        Reply::NotSent(e) => seq![Event::Sent { bytes: request, failure: Some(e) }],
        Reply::Got(x) => seq![Event::Sent { bytes: request, failure: None }, Event::Received(x)],
    }
}

/// What came of the request that a transcript ends with.
pub open spec fn last_reply(log: Seq<Event>) -> Reply {
    if log.len() == 0 {
        Reply::Got(Err(ChannelErrorView::BufferEmpty))
    } else {
        match log.last() {
            Event::Sent { failure: Some(e), .. } => Reply::NotSent(e),
            Event::Sent { failure: None, .. } => Reply::Got(Err(ChannelErrorView::BufferEmpty)),
            Event::Received(x) => Reply::Got(x),
        }
    }
}

/// What was received for a request: the failure to send it counts as
/// what was received.
pub open spec fn received(reply: Reply) -> Result<Seq<u8>, ChannelErrorView> {
    match reply {
        Reply::NotSent(e) => Err(e),
        Reply::Got(x) => x,
    }
}

/// The transcript `after` is the transcript `before` and one exchange
/// more, in which the bytes of the message `request` were sent.
pub open spec fn asked(before: Seq<Event>, after: Seq<Event>, request: MessageView) -> bool {
    after == before + exchange(enc_message(request), last_reply(after))
}

/// The answer of the exchange that a transcript ends with, as a message.
pub open spec fn answer(log: Seq<Event>) -> Result<MessageView, ClientErrorView> {
    message_of(received(last_reply(log)))
}

/// The value and the failure of a quiet operation are those of the result
/// `expected`: the value if there is one, else nothing and the failure set
/// aside.
pub open spec fn quietly<T: View>(
    r: Option<T>,
    failure: Option<ClientError>,
    expected: Result<T::V, ClientErrorView>,
) -> bool {
    match expected {
        Ok(v) => r matches Some(x) && x@ == v && failure is None,
        Err(e) => r is None && (failure matches Some(x) && x@ == e),
    }
}

// ---------------------------------------------------------------------
// The client

/// The protocol client: the settings of the caller, and the one channel
/// that it owns.
pub struct Client<C: ClientChannel> {
    /// Whether the caller wants to be shown what is sent and received.
    pub verbose: bool,
    /// The key material of the caller.
    pub keypair: KeyPair,
    /// The name of the network that transactions are made for.
    pub network: String,
    /// The transport; this client is its only owner.
    pub chan: C,
    /// Why the last quiet operation gave nothing, if it gave nothing.
    pub failure: Option<ClientError>,
    /// Every call of the channel that this client made, in order.
    log: Ghost<Seq<Event>>,
}

impl<C: ClientChannel> Client<C> {
    /// What a call does not change: the verbosity, the key material and
    /// the network.
    pub closed spec fn settings(&self) -> (bool, KeyPair, String) {
        (self.verbose, self.keypair, self.network)
    }

    /// The failure that the last quiet operation set aside, if it set one
    /// aside.
    pub closed spec fn failed(&self) -> Option<ClientError> {
        self.failure
    }

    /// The channel that the client owns.
    pub closed spec fn channel(&self) -> C {
        self.chan
    }

    /// Every call of the channel that this client made, in order. Only the
    /// operations of the client add to it.
    pub closed spec fn transcript(&self) -> Seq<Event> {
        self.log@
    }

    /// A client of the network `network` that owns the channel `chan`.
    pub fn new(chan: C, verbose: bool, network: String, keypair: KeyPair) -> (c: Self)
        ensures
            c.settings() == (verbose, keypair, network),
            c.channel() == chan,
            c.failed() is None,
            c.transcript().len() == 0,
    {
        Client { verbose, keypair, network, chan, failure: None, log: Ghost(Seq::empty()) }
    }

    fn send(&mut self, msg: Message) -> (r: Result<(), ClientError>)
        ensures
            final(self).settings() == old(self).settings(),
            final(self).failed() == old(self).failed(),
            match r {
                Ok(_) => final(self).transcript() == old(self).transcript().push(
                    Event::Sent { bytes: enc_message(msg@), failure: None },
                ),
                Err(e) => e matches ClientError::Channel(x) && final(self).transcript() == old(
                    self,
                ).transcript().push(Event::Sent { bytes: enc_message(msg@), failure: Some(x@) }),
            },
    {
        let buf = msg.serialize();
        let ghost bytes = buf@;
        match self.chan.send(buf) {
            Ok(()) => {
                self.log = Ghost(self.log@.push(Event::Sent { bytes, failure: None }));
                Ok(())
            },
            Err(e) => {
                self.log = Ghost(self.log@.push(Event::Sent { bytes, failure: Some(e@) }));
                Err(ClientError::Channel(e))
            },
        }
    }

    fn recv(&mut self) -> (r: Result<Message, ClientError>)
        ensures
            final(self).settings() == old(self).settings(),
            final(self).failed() == old(self).failed(),
            final(self).transcript().len() == old(self).transcript().len() + 1,
            final(self).transcript().drop_last() == old(self).transcript(),
            final(self).transcript().last() matches Event::Received(x) && agrees(r, message_of(x)),
    {
        let received = self.chan.recv();
        self.log = Ghost(self.log@.push(Event::Received(seen(received))));
        proof {
            assert(self.log@.drop_last() =~= old(self).log@);
        }
        decode_reply(received)
    }

    fn send_recv(&mut self, msg: Message) -> (r: Result<Message, ClientError>)
        ensures
            final(self).settings() == old(self).settings(),
            final(self).failed() == old(self).failed(),
            asked(old(self).transcript(), final(self).transcript(), msg@),
            agrees(r, answer(final(self).transcript())),
    {
        let ghost before = self.log@;
        let ghost request = enc_message(msg@);
        match self.send(msg) {
            Ok(()) => {
                let r = self.recv();
                proof {
                    let after = self.log@;
                    let sent = Event::Sent { bytes: request, failure: None };
                    assert(after.drop_last() == before.push(sent));
                    assert(after =~= after.drop_last().push(after.last()));
                    match after.last() {
                        Event::Received(x) => {
                            assert(last_reply(after) == Reply::Got(x));
                            assert(after =~= before + seq![sent, Event::Received(x)]);
                        },
                        _ => {},
                    }
                }
                r
            },
            Err(e) => {
                proof {
                    let after = self.log@;
                    match e@ {
                        ClientErrorView::Channel(x) => {
                            let sent = Event::Sent { bytes: request, failure: Some(x) };
                            assert(after == before.push(sent));
                            assert(last_reply(after) == Reply::NotSent(x));
                            assert(after =~= before + seq![sent]);
                        },
                        _ => {},
                    }
                }
                Err(e)
            },
        }
    }

    /// Submits `tx` and gives its ticket.
    ///
    /// One exchange is made: the request to submit `tx`, with the flag set
    /// that asks the service to answer once the transaction is accepted.
    /// The result is the ticket of the response; the failure that the
    /// service reports in place of it; the failure of the channel; or, for
    /// any other message, that message as unexpected.
    pub fn put_transaction_err(&mut self, tx: Transaction) -> (r: Result<Ticket, ClientError>)
        ensures
            final(self).settings() == old(self).settings(),
            final(self).failed() == old(self).failed(),
            asked(
                old(self).transcript(),
                final(self).transcript(),
                MessageView::PutTransactionRequest { confirm: true, tx: tx@ },
            ),
            agrees(r, ticket_in(answer(final(self).transcript()))),
    {
        let req = put_transaction_request(tx);
        match self.send_recv(req) {
            Ok(reply) => put_transaction_reply(reply),
            Err(e) => Err(e),
        }
    }

    /// Fetches the transaction with the ticket `hash`, in one exchange.
    pub fn get_transaction_err(&mut self, hash: Ticket) -> (r: Result<Transaction, ClientError>)
        ensures
            final(self).settings() == old(self).settings(),
            final(self).failed() == old(self).failed(),
            asked(
                old(self).transcript(),
                final(self).transcript(),
                MessageView::GetTransactionRequest { hash: hash@ },
            ),
            agrees(r, transaction_in(answer(final(self).transcript()))),
    {
        let req = get_transaction_request(hash);
        match self.send_recv(req) {
            Ok(reply) => get_transaction_reply(reply),
            Err(e) => Err(e),
        }
    }

    /// Fetches the receipt of the transaction with the ticket `hash`, in
    /// one exchange.
    pub fn get_receipt_err(&mut self, hash: Ticket) -> (r: Result<Receipt, ClientError>)
        ensures
            final(self).settings() == old(self).settings(),
            final(self).failed() == old(self).failed(),
            asked(
                old(self).transcript(),
                final(self).transcript(),
                MessageView::GetReceiptRequest { hash: hash@ },
            ),
            agrees(r, receipt_in(answer(final(self).transcript()))),
    {
        let req = get_receipt_request(hash);
        match self.send_recv(req) {
            Ok(reply) => get_receipt_reply(reply),
            Err(e) => Err(e),
        }
    }

    /// Fetches the header of the block at `height` and the tickets of its
    /// transactions, in one exchange.
    pub fn get_block_err(&mut self, height: u64) -> (r: Result<(Block, Vec<Ticket>), ClientError>)
        ensures
            final(self).settings() == old(self).settings(),
            final(self).failed() == old(self).failed(),
            asked(
                old(self).transcript(),
                final(self).transcript(),
                MessageView::GetBlockRequest { height, txs: true },
            ),
            agrees_block(r, block_in(answer(final(self).transcript()))),
    {
        let req = get_block_request(height);
        match self.send_recv(req) {
            Ok(reply) => get_block_reply(reply),
            Err(e) => Err(e),
        }
    }

    /// Fetches the account that `id` names, and the data slot that `id`
    /// names after a colon, if it names one, in one exchange.
    pub fn get_account_err(&mut self, id: String) -> (r: Result<
        (Account, Vec<Option<Vec<u8>>>),
        ClientError,
    >)
        ensures
            final(self).settings() == old(self).settings(),
            final(self).failed() == old(self).failed(),
            asked(
                old(self).transcript(),
                final(self).transcript(),
                MessageView::GetAccountRequest {
                    id: account_query(id@).0,
                    data: account_query(id@).1,
                },
            ),
            agrees_account(r, account_in(answer(final(self).transcript()))),
    {
        let req = get_account_request(id);
        match self.send_recv(req) {
            Ok(reply) => get_account_reply(reply),
            Err(e) => Err(e),
        }
    }

    /// Asks to be told of every transaction, block and contract event: the
    /// request is sent, and nothing is received. What the service sends
    /// after that is had with `next_event`, one message at a time.
    pub fn subscribe_err(&mut self) -> (r: Result<(), ClientError>)
        ensures
            final(self).settings() == old(self).settings(),
            final(self).failed() == old(self).failed(),
            final(self).transcript().len() == old(self).transcript().len() + 1,
            final(self).transcript().drop_last() == old(self).transcript(),
            final(self).transcript().last() matches Event::Sent { bytes, failure } && bytes
                == enc_message(
                MessageView::Subscribe {
                    id: "cli"@,
                    events: Events { transaction: true, block: true, contract_events: true },
                },
            ) && match failure {
                None => r is Ok,
                Some(e) => r matches Err(ClientError::Channel(x)) && x@ == e,
            },
    {
        let r = self.send(subscribe_request());
        proof {
            assert(self.log@.drop_last() =~= old(self).log@);
        }
        r
    }

    /// The next message of a subscription: the channel is asked to receive
    /// once. There is no message once the channel fails to receive, or
    /// receives what is no message: then the subscription is over.
    pub fn next_event(&mut self) -> (r: Option<Message>)
        ensures
            final(self).settings() == old(self).settings(),
            final(self).failed() == old(self).failed(),
            final(self).transcript().len() == old(self).transcript().len() + 1,
            final(self).transcript().drop_last() == old(self).transcript(),
            final(self).transcript().last() matches Event::Received(x) && match message_of(x) {
                Ok(m) => r matches Some(msg) && msg@ == m,
                Err(_) => r is None,
            },
    {
        match self.recv() {
            Ok(msg) => Some(msg),
            Err(_) => None,
        }
    }

    /// Submits `tx` as `put_transaction_err` does; a failure is set aside
    /// in `failure`.
    pub fn put_transaction(&mut self, tx: Transaction) -> (r: Option<Ticket>)
        ensures
            final(self).settings() == old(self).settings(),
            asked(
                old(self).transcript(),
                final(self).transcript(),
                MessageView::PutTransactionRequest { confirm: true, tx: tx@ },
            ),
            quietly(r, final(self).failed(), ticket_in(answer(final(self).transcript()))),
    {
        let (value, failure) = quiet(self.put_transaction_err(tx));
        self.failure = failure;
        value
    }

    /// Fetches a transaction as `get_transaction_err` does; a failure is
    /// set aside in `failure`.
    pub fn get_transaction(&mut self, hash: Ticket) -> (r: Option<Transaction>)
        ensures
            final(self).settings() == old(self).settings(),
            asked(
                old(self).transcript(),
                final(self).transcript(),
                MessageView::GetTransactionRequest { hash: hash@ },
            ),
            quietly(r, final(self).failed(), transaction_in(answer(final(self).transcript()))),
    {
        let (value, failure) = quiet(self.get_transaction_err(hash));
        self.failure = failure;
        value
    }

    /// Fetches a receipt as `get_receipt_err` does; a failure is set aside
    /// in `failure`.
    pub fn get_receipt(&mut self, hash: Ticket) -> (r: Option<Receipt>)
        ensures
            final(self).settings() == old(self).settings(),
            asked(
                old(self).transcript(),
                final(self).transcript(),
                MessageView::GetReceiptRequest { hash: hash@ },
            ),
            quietly(r, final(self).failed(), receipt_in(answer(final(self).transcript()))),
    {
        let (value, failure) = quiet(self.get_receipt_err(hash));
        self.failure = failure;
        value
    }

    /// Fetches a block as `get_block_err` does; a failure is set aside in
    /// `failure`.
    pub fn get_block(&mut self, height: u64) -> (r: Option<(Block, Vec<Ticket>)>)
        ensures
            final(self).settings() == old(self).settings(),
            asked(
                old(self).transcript(),
                final(self).transcript(),
                MessageView::GetBlockRequest { height, txs: true },
            ),
            match block_in(answer(final(self).transcript())) {
                Ok((block, tickets)) => r matches Some((b, t)) && b@ == block && tickets_view(t@)
                    == tickets && final(self).failed() is None,
                Err(e) => r is None && (final(self).failed() matches Some(x) && x@ == e),
            },
    {
        let (value, failure) = quiet(self.get_block_err(height));
        self.failure = failure;
        value
    }

    /// Fetches an account as `get_account_err` does; a failure is set
    /// aside in `failure`. The data slots of the answer are dropped.
    pub fn get_account(&mut self, id: String) -> (r: Option<Account>)
        ensures
            final(self).settings() == old(self).settings(),
            asked(
                old(self).transcript(),
                final(self).transcript(),
                MessageView::GetAccountRequest {
                    id: account_query(id@).0,
                    data: account_query(id@).1,
                },
            ),
            match account_in(answer(final(self).transcript())) {
                Ok((acc, _)) => r matches Some(a) && a@ == acc && final(self).failed() is None,
                Err(e) => r is None && (final(self).failed() matches Some(x) && x@ == e),
            },
    {
        let (value, failure) = quiet(self.get_account_err(id));
        self.failure = failure;
        match value {
            Some((acc, _)) => Some(acc),
            None => None,
        }
    }

    /// Asks to be told of events as `subscribe_err` does; a failure is set
    /// aside in `failure`.
    pub fn subscribe(&mut self)
        ensures
            final(self).settings() == old(self).settings(),
            final(self).transcript().len() == old(self).transcript().len() + 1,
            final(self).transcript().drop_last() == old(self).transcript(),
            final(self).transcript().last() matches Event::Sent { failure, .. } && (failure
                is None <==> final(self).failed() is None),
    {
        let (_, failure) = quiet(self.subscribe_err());
        self.failure = failure;
    }

    /// Submits `tx` as `put_transaction` does, verbose for the time of the
    /// call.
    pub fn _put_transaction_verb(&mut self, tx: Transaction) -> (r: Option<Ticket>)
        ensures
            final(self).settings() == old(self).settings(),
            asked(
                old(self).transcript(),
                final(self).transcript(),
                MessageView::PutTransactionRequest { confirm: true, tx: tx@ },
            ),
            quietly(r, final(self).failed(), ticket_in(answer(final(self).transcript()))),
    {
        let prev_verbose = self.verbose;
        self.verbose = true;
        let res = self.put_transaction(tx);
        self.verbose = prev_verbose;
        res
    }

    /// Fetches a transaction as `get_transaction` does, verbose for the
    /// time of the call.
    pub fn get_transaction_verb(&mut self, hash: Ticket) -> (r: Option<Transaction>)
        ensures
            final(self).settings() == old(self).settings(),
            asked(
                old(self).transcript(),
                final(self).transcript(),
                MessageView::GetTransactionRequest { hash: hash@ },
            ),
            quietly(r, final(self).failed(), transaction_in(answer(final(self).transcript()))),
    {
        let prev_verbose = self.verbose;
        self.verbose = true;
        let res = self.get_transaction(hash);
        self.verbose = prev_verbose;
        res
    }

    /// Fetches a receipt as `get_receipt` does, verbose for the time of the
    /// call.
    pub fn get_receipt_verb(&mut self, hash: Ticket) -> (r: Option<Receipt>)
        ensures
            final(self).settings() == old(self).settings(),
            asked(
                old(self).transcript(),
                final(self).transcript(),
                MessageView::GetReceiptRequest { hash: hash@ },
            ),
            quietly(r, final(self).failed(), receipt_in(answer(final(self).transcript()))),
    {
        let prev_verbose = self.verbose;
        self.verbose = true;
        let res = self.get_receipt(hash);
        self.verbose = prev_verbose;
        res
    }

    /// Fetches a block as `get_block` does, verbose for the time of the
    /// call.
    pub fn get_block_verb(&mut self, height: u64) -> (r: Option<(Block, Vec<Ticket>)>)
        ensures
            final(self).settings() == old(self).settings(),
            asked(
                old(self).transcript(),
                final(self).transcript(),
                MessageView::GetBlockRequest { height, txs: true },
            ),
            match block_in(answer(final(self).transcript())) {
                Ok((block, tickets)) => r matches Some((b, t)) && b@ == block && tickets_view(t@)
                    == tickets && final(self).failed() is None,
                Err(e) => r is None && (final(self).failed() matches Some(x) && x@ == e),
            },
    {
        let prev_verbose = self.verbose;
        self.verbose = true;
        let res = self.get_block(height);
        self.verbose = prev_verbose;
        res
    }

    /// Fetches an account as `get_account` does, verbose for the time of
    /// the call.
    pub fn get_account_verb(&mut self, id: String) -> (r: Option<Account>)
        ensures
            final(self).settings() == old(self).settings(),
            asked(
                old(self).transcript(),
                final(self).transcript(),
                MessageView::GetAccountRequest {
                    id: account_query(id@).0,
                    data: account_query(id@).1,
                },
            ),
            match account_in(answer(final(self).transcript())) {
                Ok((acc, _)) => r matches Some(a) && a@ == acc && final(self).failed() is None,
                Err(e) => r is None && (final(self).failed() matches Some(x) && x@ == e),
            },
    {
        let prev_verbose = self.verbose;
        self.verbose = true;
        let res = self.get_account(id);
        self.verbose = prev_verbose;
        res
    }
}

impl<C: ClientChannel + Clone> Client<C> {
    /// A client with the same settings and a channel of its own: a clone of
    /// the channel of this client. Its transcript is empty.
    pub fn duplicate(&self) -> (c: Self)
        ensures
            c.settings().0 == self.settings().0,
            c.settings().1@ == self.settings().1@,
            c.settings().2@ == self.settings().2@,
            cloned(self.channel(), c.channel()),
            c.failed() is None,
            c.transcript().len() == 0,
    {
        Client {
            verbose: self.verbose,
            keypair: KeyPair {
                public_key: get_bytes(&self.keypair.public_key),
                private_key: get_bytes(&self.keypair.private_key),
            },
            network: self.network.clone(),
            chan: self.chan.clone(),
            failure: None,
            log: Ghost(Seq::empty()),
        }
    }
}

} // verus!
