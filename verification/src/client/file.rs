//! The channel that only writes: every buffer that is sent goes to a file
//! of its own, and nothing can be received.

use crate::client::channel::ChannelError;
use crate::envelope::enc_message;
use crate::message::{ErrorKind, Message, MessageView, RemoteError, RemoteErrorView};
use crate::text::{append_chars, decimal, from_chars, push_decimal, to_chars};
use vstd::prelude::*;

verus! {

/// The channel that only writes. It holds nothing.
#[derive(Clone)]
pub struct FileChannel;

/// What the channel answers to every attempt to receive.
pub open spec fn write_only() -> MessageView {
    MessageView::Exception(
        RemoteErrorView { kind: ErrorKind::Other, message: "write only channel"@ },
    )
}

impl FileChannel {
    /// The channel that only writes.
    pub fn new() -> (c: Self)
        ensures
            c == FileChannel,
    {
        FileChannel
    }

    /// The name of the file for a buffer that is sent `secs` seconds after
    /// the start of 1970. Two buffers sent within one second get one name.
    pub fn file_name(&self, secs: u64) -> (name: String)
        ensures
            name@ == "out-"@ + decimal(secs as nat) + ".bin"@,
    {
        let mut text = to_chars("out-");
        push_decimal(&mut text, secs);
        let tail = to_chars(".bin");
        append_chars(&mut text, &tail);
        from_chars(&text)
    }

    /// Receiving gives, each time, the bytes of a message that reports
    /// that this channel only writes.
    pub fn recv(&mut self) -> (r: Result<Vec<u8>, ChannelError>)
        ensures
            r matches Ok(buf) && buf@ == enc_message(write_only()),
    {
        let res = Message::Exception(
            RemoteError { kind: ErrorKind::Other, message: "write only channel".to_owned() },
        );
        Ok(res.serialize())
    }
}

} // verus!
