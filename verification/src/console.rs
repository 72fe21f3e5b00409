//! The commands of the console: what a line that was typed in asks for.

use crate::client::channel::ClientChannel;
use crate::client::{block_in, exchange, last_reply, message_of, received, Client, Event, Reply};
use crate::envelope::enc_message;
use crate::message::MessageView;
use crate::message::Ticket;
use crate::text::{
    ascii_lowered, chars_are, chars_range, find_char, first_index, from_chars, lowered,
    parse_unsigned, read_unsigned, to_chars,
};
use vstd::prelude::*;
use vstd::string::StringSliceAdditionalSpecFns;
use vstd::utf8::encode_utf8;

verus! {

/// What a line of the console asks for.
#[derive(Clone, Debug, PartialEq, Eq)]
pub enum Command {
    Help,
    Quit,
    /// Make a transaction from what is typed in and submit it.
    PutTx,
    /// Make a bulk transaction from what is typed in and submit it.
    PutBulkTx,
    GetTx(Ticket),
    GetRx(Ticket),
    GetAccount(String),
    /// The block at a height; the largest height stands for the latest.
    GetBlock(u64),
    /// Count the transactions of the chain.
    GetTxs,
    ExportTxs(String),
    ImportTxs(String),
    Cheats,
    /// A ticket was asked for, and none or a malformed one was given.
    BadTicket,
    /// An account was asked for, and none was given.
    BadAccount,
    /// A height was asked for, and none or a malformed one was given.
    BadHeight,
    /// A file was asked for, and none was given.
    BadFile,
    /// The first word is no command.
    NotFound,
}

pub enum CommandView {
    Help,
    Quit,
    PutTx,
    PutBulkTx,
    GetTx(Seq<u8>),
    GetRx(Seq<u8>),
    GetAccount(Seq<char>),
    GetBlock(u64),
    GetTxs,
    ExportTxs(Seq<char>),
    ImportTxs(Seq<char>),
    Cheats,
    BadTicket,
    BadAccount,
    BadHeight,
    BadFile,
    NotFound,
}

impl View for Command {
    type V = CommandView;

    open spec fn view(&self) -> CommandView {
        match *self {
            Command::Help => CommandView::Help,
            Command::Quit => CommandView::Quit,
            Command::PutTx => CommandView::PutTx,
            Command::PutBulkTx => CommandView::PutBulkTx,
            Command::GetTx(t) => CommandView::GetTx(t@),
            Command::GetRx(t) => CommandView::GetRx(t@),
            Command::GetAccount(id) => CommandView::GetAccount(id@),
            Command::GetBlock(h) => CommandView::GetBlock(h),
            Command::GetTxs => CommandView::GetTxs,
            Command::ExportTxs(f) => CommandView::ExportTxs(f@),
            Command::ImportTxs(f) => CommandView::ImportTxs(f@),
            Command::Cheats => CommandView::Cheats,
            Command::BadTicket => CommandView::BadTicket,
            Command::BadAccount => CommandView::BadAccount,
            Command::BadHeight => CommandView::BadHeight,
            Command::BadFile => CommandView::BadFile,
            Command::NotFound => CommandView::NotFound,
        }
    }
}

/// What stands before the first blank of `s`, or the whole of `s` if it
/// holds no blank.
pub open spec fn first_word(s: Seq<char>) -> Seq<char> {
    match first_index(s, ' ', 0) {
        Some(i) => s.subrange(0, i),
        None => s,
    }
}

/// What stands after the first blank of `s`, if it holds one.
pub open spec fn after_blank(s: Seq<char>) -> Option<Seq<char>> {
    match first_index(s, ' ', 0) {
        Some(i) => Some(s.subrange(i + 1, s.len() as int)),
        None => None,
    }
}

/// The argument of the command on `line`: what stands between the first
/// blank and the second.
pub open spec fn argument(line: Seq<char>) -> Option<Seq<char>> {
    match after_blank(line) {
        Some(rest) => Some(first_word(rest)),
        None => None,
    }
}

/// The height that `s` names: `max`, in any case, is the largest height;
/// anything else is read as a number.
pub open spec fn height_of(s: Seq<char>) -> Option<u64> {
    if ascii_lowered(s) == "max"@ {
        Some(u64::MAX)
    } else {
        match parse_unsigned(s, u64::MAX as nat) {
            Some(n) => Some(n as u64),
            None => None,
        }
    }
}

/// What `line` asks for. The first word names the command; a command that
/// takes an argument takes the word after it.
pub open spec fn command_of(line: Seq<char>) -> CommandView {
    let word = first_word(line);
    let arg = argument(line);
    if word == "put-tx"@ {
        CommandView::PutTx
    } else if word == "put-bulk-tx"@ {
        CommandView::PutBulkTx
    } else if word == "get-tx"@ {
        match arg {
            Some(a) => match Ticket::of_hex(encode_utf8(a)) {
                Some(t) => CommandView::GetTx(t),
                None => CommandView::BadTicket,
            },
            None => CommandView::BadTicket,
        }
    } else if word == "get-rx"@ {
        match arg {
            Some(a) => match Ticket::of_hex(encode_utf8(a)) {
                Some(t) => CommandView::GetRx(t),
                None => CommandView::BadTicket,
            },
            None => CommandView::BadTicket,
        }
    } else if word == "get-acc"@ {
        match arg {
            Some(a) => CommandView::GetAccount(a),
            None => CommandView::BadAccount,
        }
    } else if word == "get-blk"@ {
        match arg {
            Some(a) => match height_of(a) {
                Some(h) => CommandView::GetBlock(h),
                None => CommandView::BadHeight,
            },
            None => CommandView::BadHeight,
        }
    } else if word == "get-txs"@ {
        CommandView::GetTxs
    } else if word == "export-txs"@ {
        match arg {
            Some(a) => CommandView::ExportTxs(a),
            None => CommandView::BadFile,
        }
    } else if word == "import-txs"@ {
        match arg {
            Some(a) => CommandView::ImportTxs(a),
            None => CommandView::BadFile,
        }
    } else if word == "cheats"@ {
        CommandView::Cheats
    } else if word == "quit"@ {
        CommandView::Quit
    } else if word == "help"@ {
        CommandView::Help
    } else {
        CommandView::NotFound
    }
}

/// The two parts of `s` around its first blank.
fn split_at_blank(s: &Vec<char>) -> (r: (Vec<char>, Option<Vec<char>>))
    ensures
        r.0@ == first_word(s@),
        match after_blank(s@) {
            Some(rest) => r.1 matches Some(v) && v@ == rest,
            None => r.1 is None,
        },
{
    match find_char(s, ' ') {
        Some(i) => (chars_range(s, 0, i), Some(chars_range(s, i + 1, s.len()))),
        None => {
            let whole = chars_range(s, 0, s.len());
            assert(whole@ =~= s@);
            (whole, None)
        },
    }
}

/// The height that the characters of `s` name.
pub fn read_height(s: &Vec<char>) -> (r: Option<u64>)
    ensures
        r == height_of(s@),
{
    let low = lowered(s);
    if chars_are(&low, "max") {
        Some(u64::MAX)
    } else {
        read_unsigned(s, u64::MAX)
    }
}

fn read_ticket(arg: &Option<Vec<char>>) -> (r: Option<Ticket>)
    ensures
        match *arg {
            Some(a) => match Ticket::of_hex(encode_utf8(a@)) {
                Some(t) => r matches Some(x) && x@ == t,
                None => r is None,
            },
            None => r is None,
        },
{
    match arg {
        Some(a) => {
            let text = from_chars(a);
            Ticket::from_hex(text.as_str())
        },
        None => None,
    }
}

/// What the line `line` of the console asks for.
pub fn parse_command(line: &str) -> (c: Command)
    ensures
        c@ == command_of(line@),
{
    let chars = to_chars(line);
    let (word, rest) = split_at_blank(&chars);
    let arg: Option<Vec<char>> = match rest {
        Some(r) => {
            let (first, _) = split_at_blank(&r);
            Some(first)
        },
        None => None,
    };
    if chars_are(&word, "put-tx") {
        Command::PutTx
    } else if chars_are(&word, "put-bulk-tx") {
        Command::PutBulkTx
    } else if chars_are(&word, "get-tx") {
        match read_ticket(&arg) {
            Some(t) => Command::GetTx(t),
            None => Command::BadTicket,
        }
    } else if chars_are(&word, "get-rx") {
        match read_ticket(&arg) {
            Some(t) => Command::GetRx(t),
            None => Command::BadTicket,
        }
    } else if chars_are(&word, "get-acc") {
        match arg {
            Some(a) => Command::GetAccount(from_chars(&a)),
            None => Command::BadAccount,
        }
    } else if chars_are(&word, "get-blk") {
        match arg {
            Some(a) => match read_height(&a) {
                Some(h) => Command::GetBlock(h),
                None => Command::BadHeight,
            },
            None => Command::BadHeight,
        }
    } else if chars_are(&word, "get-txs") {
        Command::GetTxs
    } else if chars_are(&word, "export-txs") {
        match arg {
            Some(a) => Command::ExportTxs(from_chars(&a)),
            None => Command::BadFile,
        }
    } else if chars_are(&word, "import-txs") {
        match arg {
            Some(a) => Command::ImportTxs(from_chars(&a)),
            None => Command::BadFile,
        }
    } else if chars_are(&word, "cheats") {
        Command::Cheats
    } else if chars_are(&word, "quit") {
        Command::Quit
    } else if chars_are(&word, "help") {
        Command::Help
    } else {
        Command::NotFound
    }
}

/// `total` and `more` added up, or the largest number if the sum is
/// larger.
pub open spec fn capped_sum(total: u64, more: nat) -> u64 {
    if total + more > u64::MAX {
        u64::MAX
    } else {
        (total + more) as u64
    }
}

/// The number of tickets in the answer to a request for a block; an answer
/// that gives no block counts for nothing.
pub open spec fn tickets_in(reply: Reply) -> nat {
    match block_in(message_of(received(reply))) {
        Ok((_, tickets)) => tickets.len(),
        Err(_) => 0,
    }
}

/// The calls of the channel that ask for the blocks at the heights from 0
/// on, one exchange for each; `replies[i]` is what came of the request for
/// the height `i`.
pub open spec fn level_exchanges(replies: Seq<Reply>) -> Seq<Event>
    decreases replies.len(),
{
    if replies.len() == 0 {
        Seq::empty()
    } else {
        level_exchanges(replies.drop_last()) + exchange(
            enc_message(
                MessageView::GetBlockRequest { height: (replies.len() - 1) as u64, txs: true },
            ),
            replies.last(),
        )
    }
}

/// The tickets of `first` tickets and of those in the answers `replies`,
/// added up one after the other, the sum never going beyond the largest
/// number.
pub open spec fn counted(first: nat, replies: Seq<Reply>) -> u64
    decreases replies.len(),
{
    if replies.len() == 0 {
        capped_sum(0, first)
    } else {
        capped_sum(counted(first, replies.drop_last()), tickets_in(replies.last()))
    }
}

/// What a count did and gave. The latest block was asked for, and `latest`
/// came of it. Where that gave no block, nothing more was asked and there
/// is no count. Else every block below the latest was asked for, from the
/// height 0 up, and the count is the number of tickets of the latest block
/// and of all the answers that gave a block.
pub open spec fn count_made(
    before: Seq<Event>,
    after: Seq<Event>,
    r: Option<u64>,
    latest: Reply,
    replies: Seq<Reply>,
) -> bool {
    &&& after == before + exchange(
        enc_message(MessageView::GetBlockRequest { height: u64::MAX, txs: true }),
        latest,
    ) + level_exchanges(replies)
    &&& match block_in(message_of(received(latest))) {
        Err(_) => r is None && replies.len() == 0,
        Ok((header, tickets)) => replies.len() == header.height && r == Some(
            counted(tickets.len(), replies),
        ),
    }
}

/// There are replies of which `count_made` holds.
pub open spec fn was_counted(before: Seq<Event>, after: Seq<Event>, r: Option<u64>) -> bool {
    exists|latest: Reply, replies: Seq<Reply>| #[trigger]
        count_made(before, after, r, latest, replies)
}

/// Counts the transactions of the chain: those of the latest block and
/// those of every block below it. A block below the latest that cannot be
/// fetched counts for nothing. There is no count if the latest block
/// cannot be fetched.
pub fn count_transactions<C: ClientChannel>(client: &mut Client<C>) -> (r: Option<u64>)
    ensures
        final(client).settings() == old(client).settings(),
        was_counted(old(client).transcript(), final(client).transcript(), r),
{
    let ghost before = client.transcript();
    let first = client.get_block(u64::MAX);
    let ghost latest = last_reply(client.transcript());
    let ghost start = client.transcript();
    let (height, mut counter): (u64, u64) = match first {
        Some((blk, txs)) => (blk.height, add_count(0, txs.len())),
        None => {
            proof {
                let none = Seq::<Reply>::empty();
                assert(start + level_exchanges(none) =~= start);
                assert(count_made(before, client.transcript(), None, latest, none));
            }
            return None;
        },
    };
    let ghost found = tickets_in(latest);
    let ghost mut replies: Seq<Reply> = Seq::empty();
    let mut i: u64 = 0;
    proof {
        assert(start + level_exchanges(replies) =~= start);
    }
    while i < height
        invariant
            i <= height,
            replies.len() == i,
            counter == counted(found, replies),
            client.transcript() == start + level_exchanges(replies),
            client.settings() == old(client).settings(),
        decreases height - i,
    {
        let fetched = client.get_block(i);
        proof {
            let reply = last_reply(client.transcript());
            assert(replies.push(reply).drop_last() =~= replies);
            assert(client.transcript() =~= start + level_exchanges(replies.push(reply)));
        }
        match fetched {
            Some((_, txs)) => {
                counter = add_count(counter, txs.len());
            },
            None => {},
        }
        proof {
            let reply = last_reply(client.transcript());
            replies = replies.push(reply);
        }
        i += 1;
    }
    proof {
        assert(count_made(before, client.transcript(), Some(counter), latest, replies));
    }
    Some(counter)
}

/// `total` and `more` added up, or the largest number if the sum is
/// larger.
pub fn add_count(total: u64, more: usize) -> (r: u64)
    ensures
        r == capped_sum(total, more as nat),
{
    let m: u64 = more as u64;
    if m > u64::MAX - total {
        u64::MAX
    } else {
        total + m
    }
}

} // verus!
