//! The channel of the terminal: what is sent is shown as hexadecimal text,
//! and what is received is typed in as hexadecimal text.

use crate::client::channel::ChannelError;
use crate::hexcode::{hex_decode, hex_decoded, hex_encode, hex_text};
use crate::text::{append_chars, from_chars, to_chars};
use vstd::prelude::*;
use vstd::string::StringSliceAdditionalSpecFns;

verus! {

/// The channel of the terminal. It holds nothing.
#[derive(Clone)]
pub struct StdioChannel;

impl StdioChannel {
    /// The channel of the terminal.
    pub fn new() -> (c: Self)
        ensures
            c == StdioChannel,
    {
        StdioChannel
    }

    /// What sending `buf` shows: a label, then `buf` in hexadecimal.
    pub fn output(&self, buf: &Vec<u8>) -> (line: String)
        ensures
            line@ == "\nOUTPUT: "@ + hex_text(buf@),
    {
        let mut text = to_chars("\nOUTPUT: ");
        let hex = hex_encode(buf);
        let tail = to_chars(hex.as_str());
        append_chars(&mut text, &tail);
        from_chars(&text)
    }

    /// What is shown before a buffer is typed in.
    pub fn prompt(&self) -> (p: String)
        ensures
            p@ == "\nINPUT: "@,
    {
        "\nINPUT: ".to_owned()
    }

    /// The buffer that was typed in as `line`: the bytes that `line` is the
    /// hexadecimal form of. A line that is no hexadecimal text is refused
    /// with its first fault.
    pub fn input(&self, line: &str) -> (r: Result<Vec<u8>, ChannelError>)
        ensures
            match hex_decoded(line.spec_bytes()) {
                Ok(b) => r matches Ok(v) && v@ == b,
                Err(e) => r matches Err(ChannelError::Hex(x)) && x == e,
            },
    {
        match hex_decode(line) {
            Ok(v) => Ok(v),
            Err(e) => Err(ChannelError::Hex(e)),
        }
    }
}

} // verus!
