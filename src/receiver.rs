use vstd::prelude::*;
use postgres_protocol::message::backend::Header;
use crate::parameters::ParameterMap;
use crate::registry::ResponseRegistry;
use crate::request::{BackendMessages, FrontendMessage, Response};
use crate::wire::{append_terminate, new_buffer, take_bytes, terminate_frame};

verus! {

/// An asynchronous message, which answers no request.
pub enum AsyncMessage {
    Notice,
    Notification,
    ParameterStatus { name: String, value: String },
    /// Any other kind: the frame decoder promises never to hand one over.
    Other,
}

/// One frame from the server, as the frame transport decoded it.
pub enum InboundFrame {
    Async(AsyncMessage),
    Normal { messages: BackendMessages, request_complete: bool },
}

/// A condition that tears the whole connection down.
#[derive(Debug, PartialEq, Eq)]
pub enum ReceiverError {
    /// The socket read failed.
    Io,
    /// An inbound message is malformed.
    Parse,
    /// The server reported a fatal error that no request waits for; the
    /// messages of that reply, starting with the `ErrorResponse`.
    Database(Vec<u8>),
    /// The server replied while no request was waiting.
    UnexpectedMessage,
    /// The frame decoder handed over an asynchronous message of no known kind.
    UnknownAsync,
}

/// Whether the length field of a backend message header is valid: as a
/// big-endian `i32` it is at least four.
pub open spec fn header_length_valid(s: Seq<u8>) -> bool {
    &&& s[1] < 0x80
    &&& s[1] as int * 0x100_0000 + s[2] as int * 0x1_0000 + s[3] as int * 0x100 + s[4] as int >= 4
}

/// Tag of the first message header in `s`: none below five bytes, an error
/// where the length field is invalid.
pub open spec fn header_tag(s: Seq<u8>) -> Result<Option<u8>, ReceiverError> {
    if s.len() < 5 {
        Ok(None)
    } else if !header_length_valid(s) {
        Err(ReceiverError::Parse)
    } else {
        Ok(Some(s[0]))
    }
}

/// Relies on `postgres_protocol::message::backend::Header::parse`: no header
/// below five bytes; an error where the length is under four; else the tag.
#[verifier::external_body]
fn first_tag(data: &[u8]) -> (r: Result<Option<u8>, ReceiverError>)
    ensures
        r == header_tag(data@),
{
    match Header::parse(data) {
        Ok(h) => Ok(h.map(|h| h.tag())),
        Err(_) => Err(ReceiverError::Parse),
    }
}

/// The tag of an `ErrorResponse` message.
pub const ERROR_RESPONSE_TAG: u8 = 0x45;

/// What a reply that no request waits for means: a fatal server error where it
/// starts with an `ErrorResponse`, a parse error where its first header is
/// malformed, else a reply that the server should not have sent.
pub open spec fn orphan_error(data: Vec<u8>) -> ReceiverError {
    if data@.len() < 5 {
        ReceiverError::UnexpectedMessage
    } else if !header_length_valid(data@) {
        ReceiverError::Parse
    } else if data@[0] == ERROR_RESPONSE_TAG {
        ReceiverError::Database(data)
    } else {
        ReceiverError::UnexpectedMessage
    }
}

pub fn classify_orphan(messages: BackendMessages) -> (r: ReceiverError)
    ensures
        r == orphan_error(messages.data),
{
    match first_tag(messages.data.as_slice()) {
        Ok(Some(tag)) => {
            if tag == ERROR_RESPONSE_TAG {
                ReceiverError::Database(messages.data)
            } else {
                ReceiverError::UnexpectedMessage
            }
        },
        Ok(None) => ReceiverError::UnexpectedMessage,
        Err(e) => e,
    }
}

/// The message sent to the server on the way out after a fatal condition.
pub fn terminate_message() -> (r: FrontendMessage)
    ensures
        r matches FrontendMessage::Raw(b) && b@ == terminate_frame(),
{
    let mut buf = new_buffer(8);
    append_terminate(&mut buf);
    FrontendMessage::Raw(take_bytes(&mut buf))
}

/// The state of the read loop: the live session parameters and the reply
/// destinations of the requests on the wire. It alone consumes the registry.
pub struct Receiver {
    parameters: ParameterMap,
    registry: ResponseRegistry,
}

impl Receiver {
    pub closed spec fn wf(&self) -> bool {
        self.parameters.wf() && self.registry.wf()
    }

    pub closed spec fn parameters(&self) -> Map<Seq<char>, Seq<char>> {
        self.parameters@
    }

    pub closed spec fn registry(&self) -> ResponseRegistry {
        self.registry
    }

    pub fn new(parameters: ParameterMap) -> (r: Receiver)
        requires
            parameters.wf(),
        ensures
            r.wf(),
            r.parameters() == parameters@,
            r.registry().pending() == Seq::<Response>::empty(),
            r.registry().registered() == Seq::<Response>::empty(),
            r.registry().delivered() == Seq::<nat>::empty(),
            r.registry().sent_to().len() == 0,
    {
        Receiver { parameters, registry: ResponseRegistry::new() }
    }

    /// Registers the reply destination of a request written to the wire.
    pub fn register(&mut self, rsp: Response)
        requires
            old(self).wf(),
        ensures
            final(self).wf(),
            final(self).parameters() == old(self).parameters(),
            final(self).registry().pending() == old(self).registry().pending().push(rsp),
            final(self).registry().registered() == old(self).registry().registered().push(rsp),
            final(self).registry().completed() == old(self).registry().completed(),
            final(self).registry().delivered() == old(self).registry().delivered(),
            final(self).registry().sent_to() == old(self).registry().sent_to(),
    {
        self.registry.push(rsp);
    }

    /// The value of a session parameter, if the server reported one.
    pub fn parameter(&self, name: &String) -> (r: Option<&String>)
        requires
            self.wf(),
        ensures
            r is None <==> !self.parameters().contains_key(name@),
            r matches Some(v) ==> v@ == self.parameters()[name@],
    {
        self.parameters.get(name)
    }

    /// Number of requests still waiting for replies.
    pub fn pending_len(&self) -> (r: usize)
        ensures
            r == self.registry().pending().len(),
    {
        self.registry.len()
    }

    /// Handles one inbound frame. Notices and notifications change nothing; a
    /// parameter status updates the parameters; a normal frame goes to the
    /// oldest waiting request, which it completes where `request_complete`
    /// says so. An error is fatal to the connection.
    pub fn handle_frame(&mut self, frame: InboundFrame) -> (r: Result<(), ReceiverError>)
        requires
            old(self).wf(),
        ensures
            final(self).wf(),
            final(self).registry().registered() == old(self).registry().registered(),
            match frame {
                InboundFrame::Async(AsyncMessage::ParameterStatus { name, value }) => {
                    &&& r is Ok
                    &&& final(self).parameters() == old(self).parameters().insert(name@, value@)
                    &&& final(self).registry() == old(self).registry()
                },
                InboundFrame::Async(AsyncMessage::Other) => {
                    &&& r == Err::<(), ReceiverError>(ReceiverError::UnknownAsync)
                    &&& *final(self) == *old(self)
                },
                InboundFrame::Async(_) => {
                    &&& r is Ok
                    &&& *final(self) == *old(self)
                },
                InboundFrame::Normal { messages, request_complete } => {
                    &&& final(self).parameters() == old(self).parameters()
                    &&& if old(self).registry().pending().len() == 0 {
                        &&& r == Err::<(), ReceiverError>(orphan_error(messages.data))
                        &&& final(self).registry() == old(self).registry()
                    } else {
                        &&& r is Ok
                        &&& final(self).registry().delivered()
                            == old(self).registry().delivered().push(old(self).registry().completed())
                        &&& final(self).registry().sent_to()
                            == old(self).registry().sent_to().push(old(self).registry().pending()[0].sender)
                        &&& final(self).registry().pending() == if request_complete {
                            old(self).registry().pending().drop_first()
                        } else {
                            old(self).registry().pending()
                        }
                        &&& final(self).registry().completed() == old(self).registry().completed()
                            + if request_complete { 1nat } else { 0nat }
                    }
                },
            },
    {
        match frame {
            InboundFrame::Async(AsyncMessage::Notice) => Ok(()),
            InboundFrame::Async(AsyncMessage::Notification) => Ok(()),
            InboundFrame::Async(AsyncMessage::ParameterStatus { name, value }) => {
                self.parameters.insert(name, value);
                Ok(())
            },
            InboundFrame::Async(AsyncMessage::Other) => Err(ReceiverError::UnknownAsync),
            InboundFrame::Normal { messages, request_complete } => {
                if self.registry.len() == 0 {
                    Err(classify_orphan(messages))
                } else {
                    self.registry.forward(messages, request_complete);
                    Ok(())
                }
            },
        }
    }
}

} // verus!
