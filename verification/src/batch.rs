//! The decisions of a batch run: a batch file lists, block by block, files
//! that each hold one request to submit a transaction.

use crate::message::{Message, MessageView, Transaction};
use crate::text::{append_chars, ascii_lowered, chars_are, from_chars, lowered, to_chars};
use vstd::prelude::*;

verus! {

/// Whether the answer `s` to a question says yes: it is empty, or `y` or
/// `yes` in any case.
pub open spec fn says_yes(s: Seq<char>) -> bool {
    s.len() == 0 || ascii_lowered(s) == "y"@ || ascii_lowered(s) == "yes"@
}

/// Whether the answer `input` to a question says yes.
pub fn confirmed(input: &str) -> (b: bool)
    ensures
        b == says_yes(input@),
{
    let chars = to_chars(input);
    if chars.len() == 0 {
        return true;
    }
    let low = lowered(&chars);
    chars_are(&low, "y") || chars_are(&low, "yes")
}

/// The transaction that the message asks to submit, if it asks for that.
pub fn transaction_of(msg: Message) -> (r: Option<Transaction>)
    ensures
        match msg@ {
            MessageView::PutTransactionRequest { tx, .. } => r matches Some(t) && t@ == tx,
            _ => r is None,
        },
{
    match msg {
        Message::PutTransactionRequest { confirm: _, tx } => Some(tx),
        _ => None,
    }
}

/// The path of the file `file` that a batch file in the directory `dir`
/// names.
pub fn entry_path(dir: &str, file: &str) -> (p: String)
    ensures
        p@ == dir@ + "/"@ + file@,
{
    let mut text = to_chars(dir);
    let slash = to_chars("/");
    append_chars(&mut text, &slash);
    let name = to_chars(file);
    append_chars(&mut text, &name);
    from_chars(&text)
}

/// What to do with the next transaction of a batch.
#[derive(Clone, Copy, Debug, PartialEq, Eq, Structural)]
pub enum Step {
    Submit,
    Skip,
}

/// Whether the next transaction is submitted: always in a batch that does
/// not ask, and in one that asks if the answer says yes.
pub fn next_step(interactive: bool, answer: &str) -> (s: Step)
    ensures
        s == if !interactive || says_yes(answer@) {
            Step::Submit
        } else {
            Step::Skip
        },
{
    if !interactive || confirmed(answer) {
        Step::Submit
    } else {
        Step::Skip
    }
}

/// Whether the batch stops after a transaction was not accepted: it does
/// if the answer to that question says yes.
pub fn stop_after_failure(answer: &str) -> (stop: bool)
    ensures
        stop == says_yes(answer@),
{
    confirmed(answer)
}

} // verus!
