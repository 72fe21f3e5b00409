//! The transport under the client: something that sends a buffer of bytes
//! and receives one.

use crate::hexcode::{hex_error_message, HexError};
use crate::text::{append_chars, from_chars, to_chars};
use vstd::prelude::*;

verus! {

/// Why a channel could not send or receive.
#[derive(Clone, Debug, PartialEq, Eq)]
pub enum ChannelError {
    /// Nothing was sent before, so there is no answer to receive.
    BufferEmpty,
    /// The remote side answered with an error status; this is the body of
    /// its answer.
    Status(String),
    /// The request could not be made; this says why.
    Post(String),
    /// What was typed in is not hexadecimal.
    Hex(HexError),
    /// The transport failed; this says how.
    Io(String),
}

pub enum ChannelErrorView {
    BufferEmpty,
    Status(Seq<char>),
    Post(Seq<char>),
    Hex(HexError),
    Io(Seq<char>),
}

impl View for ChannelError {
    type V = ChannelErrorView;

    open spec fn view(&self) -> ChannelErrorView {
        match *self {
            ChannelError::BufferEmpty => ChannelErrorView::BufferEmpty,
            ChannelError::Status(s) => ChannelErrorView::Status(s@),
            ChannelError::Post(s) => ChannelErrorView::Post(s@),
            ChannelError::Hex(e) => ChannelErrorView::Hex(e),
            ChannelError::Io(s) => ChannelErrorView::Io(s@),
        }
    }
}

/// The sentence that says what went wrong with a channel.
pub open spec fn channel_error_message(e: ChannelErrorView) -> Seq<char> {
    match e {
        ChannelErrorView::BufferEmpty => "buffer empty"@,
        ChannelErrorView::Status(body) => body,
        ChannelErrorView::Post(why) => "POST error "@ + why,
        ChannelErrorView::Hex(e) => hex_error_message(e),
        ChannelErrorView::Io(how) => how,
    }
}

impl ChannelError {
    /// A sentence that says what went wrong.
    pub fn message(&self) -> (s: String)
        ensures
            s@ == channel_error_message(self@),
    {
        match self {
            ChannelError::BufferEmpty => "buffer empty".to_owned(),
            ChannelError::Status(body) => body.clone(),
            ChannelError::Post(why) => {
                let mut text = to_chars("POST error ");
                let tail = to_chars(why.as_str());
                append_chars(&mut text, &tail);
                from_chars(&text)
            },
            ChannelError::Hex(e) => e.message(),
            ChannelError::Io(how) => how.clone(),
        }
    }
}

/// A transport that carries whole buffers. `send` hands one buffer to the
/// remote side; `recv` gives the next buffer that came from it. Nothing is
/// promised of either: a transport may fail at any time, and what it
/// receives is whatever the remote side chose to send.
pub trait ClientChannel: ClientChannelClone + Send {
    fn send(&mut self, buf: Vec<u8>) -> Result<(), ChannelError>;

    fn recv(&mut self) -> Result<Vec<u8>, ChannelError>;
}

/// A channel can be copied for another owner. The copy has a transport of
/// its own: it shares nothing with the channel it was made from.
pub trait ClientChannelClone: Sized {
    fn clone_box(&self) -> Box<Self>;
}

impl<T> ClientChannelClone for T where T: 'static + ClientChannel + Clone {
    /// The copy of a channel that can be cloned is its clone, in a box.
    fn clone_box(&self) -> (b: Box<Self>)
        ensures
            cloned(*self, *b),
    {
        Box::new(self.clone())
    }
}

} // verus!
