//! The channel over HTTP: every buffer is posted to the service, and the
//! body of the answer is kept until it is received.

use crate::client::channel::ChannelError;
use crate::text::{append_chars, from_chars, to_chars};
use vstd::prelude::*;
use vstd::utf8::{decode_utf8, valid_utf8};

verus! {

/// What a POST came to.
#[derive(Clone, Debug, PartialEq, Eq)]
pub enum HttpOutcome {
    /// The service answered with a success status and this body.
    Success(Vec<u8>),
    /// The service answered with an error status and this body.
    Status(Vec<u8>),
    /// No answer was had; this says why.
    Failure(String),
}

/// The channel over HTTP: the address of the service, and the answer to
/// the last buffer that was posted, as long as it was not received.
#[derive(Clone)]
pub struct HttpChannel {
    url: String,
    res: Option<Result<Vec<u8>, String>>,
}

/// The answer that a channel keeps: the body of a success, or the text of
/// the body of an error status.
pub enum Kept {
    Nothing,
    Body(Seq<u8>),
    Refusal(Seq<char>),
}

/// The text that the standard library's lossy decoding of UTF-8 makes of
/// bytes: what they encode, with a replacement character wherever they
/// encode nothing.
pub uninterp spec fn utf8_lossy(b: Seq<u8>) -> Seq<char>;

/// `String::from_utf8_lossy` of the standard library, as an owned text: the
/// lossy decoding of `body`, which is the text that `body` encodes where
/// `body` is valid UTF-8.
#[verifier::external_body]
pub(crate) fn lossy_text(body: &Vec<u8>) -> (s: String)
    ensures
        s@ == utf8_lossy(body@),
        valid_utf8(body@) ==> s@ == decode_utf8(body@),
{
    String::from_utf8_lossy(body).into_owned()
}

impl HttpChannel {
    /// The address of the service.
    pub closed spec fn url(&self) -> Seq<char> {
        self.url@
    }

    /// The answer that is kept for the next `recv`.
    pub closed spec fn kept(&self) -> Kept {
        match self.res {
            None => Kept::Nothing,
            Some(Ok(body)) => Kept::Body(body@),
            Some(Err(text)) => Kept::Refusal(text@),
        }
    }

    /// A channel to the service at `url`. It keeps no answer yet.
    pub fn new(url: String) -> (c: Self)
        ensures
            c.url() == url@,
            c.kept() is Nothing,
    {
        HttpChannel { url, res: None }
    }

    /// The address that buffers are posted to.
    pub fn endpoint(&self) -> (target: String)
        ensures
            target@ == self.url() + "/message"@,
    {
        let mut text = to_chars(self.url.as_str());
        let tail = to_chars("/message");
        append_chars(&mut text, &tail);
        from_chars(&text)
    }

    /// Takes what the POST of a buffer came to. An answer of the service,
    /// with whatever status, is kept for the next `recv` in place of the
    /// answer kept before, and the sending has succeeded; of an answer with
    /// an error status the lossy decoding of the body is kept. Without an answer
    /// the sending has failed, and what was kept stays.
    pub fn sent(&mut self, outcome: HttpOutcome) -> (r: Result<(), ChannelError>)
        ensures
            final(self).url() == old(self).url(),
            match outcome {
                HttpOutcome::Success(body) => r is Ok && final(self).kept() == Kept::Body(body@),
                HttpOutcome::Status(body) => r is Ok && final(self).kept() == Kept::Refusal(
                    utf8_lossy(body@),
                ) && (valid_utf8(body@) ==> utf8_lossy(body@) == decode_utf8(body@)),
                HttpOutcome::Failure(why) => r matches Err(ChannelError::Post(text)) && text@
                    == why@ && final(self).kept() == old(self).kept(),
            },
    {
        match outcome {
            HttpOutcome::Success(body) => {
                self.res = Some(Ok(body));
                Ok(())
            },
            HttpOutcome::Status(body) => {
                let msg = lossy_text(&body);
                self.res = Some(Err(msg));
                Ok(())
            },
            HttpOutcome::Failure(why) => Err(ChannelError::Post(why)),
        }
    }

    /// Gives the answer that was kept, and keeps nothing after that: the
    /// body of a success as it is, the body of an error status as the text
    /// of a failure. Where nothing was kept the buffer is empty.
    pub fn recv(&mut self) -> (r: Result<Vec<u8>, ChannelError>)
        ensures
            final(self).url() == old(self).url(),
            final(self).kept() is Nothing,
            match old(self).kept() {
                Kept::Body(body) => r matches Ok(buf) && buf@ == body,
                Kept::Refusal(text) => r matches Err(ChannelError::Status(s)) && s@ == text,
                Kept::Nothing => r matches Err(ChannelError::BufferEmpty),
            },
    {
        match self.res.take() {
            Some(Ok(buf)) => Ok(buf),
            Some(Err(s)) => Err(ChannelError::Status(s)),
            None => Err(ChannelError::BufferEmpty),
        }
    }
}

} // verus!
