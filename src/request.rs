use vstd::prelude::*;
use may::sync::mpsc::Sender;
use crate::wire::{copy_data_frame, MAX_COPY_DATA};

verus! {

#[verifier::external_type_specification]
#[verifier::external_body]
#[verifier::reject_recursive_types(T)]
pub struct ExSender<T>(Sender<T>);

/// One outbound protocol message.
pub enum FrontendMessage {
    /// A message already laid out on the wire by the caller.
    Raw(Vec<u8>),
    /// The payload of a `CopyData` message; the frame is built when encoded.
    CopyData(Vec<u8>),
}

/// What a request puts on the wire.
pub enum RequestMessages {
    Single(FrontendMessage),
    /// Bulk-load data: every message the source yielded, in order.
    CopyIn(Vec<FrontendMessage>),
}

/// The decoded backend messages of one reply, as the frame transport handed them over.
pub struct BackendMessages {
    pub data: Vec<u8>,
}

/// A request together with the channel that receives its replies.
pub struct Request {
    pub messages: RequestMessages,
    pub sender: Sender<BackendMessages>,
}

/// The reply destination of a request whose bytes are on their way to the server.
pub struct Response {
    pub sender: Sender<BackendMessages>,
}

/// Bytes that one message puts on the wire.
pub open spec fn message_bytes(m: FrontendMessage) -> Seq<u8> {
    match m {
        FrontendMessage::Raw(b) => b@,
        FrontendMessage::CopyData(d) => copy_data_frame(d@),
    }
}

/// Whether a message can be encoded: a `CopyData` length must fit its field.
pub open spec fn message_fits(m: FrontendMessage) -> bool {
    match m {
        FrontendMessage::Raw(_) => true,
        FrontendMessage::CopyData(d) => d@.len() <= MAX_COPY_DATA,
    }
}

/// Bytes of a sequence of messages, encoded one after the other.
pub open spec fn messages_bytes(ms: Seq<FrontendMessage>) -> Seq<u8>
    decreases ms.len(),
{
    if ms.len() == 0 {
        Seq::empty()
    } else {
        messages_bytes(ms.drop_last()) + message_bytes(ms.last())
    }
}

pub open spec fn messages_fit(ms: Seq<FrontendMessage>) -> bool {
    forall|i: int| 0 <= i < ms.len() ==> message_fits(#[trigger] ms[i])
}

/// Bytes that a request puts on the wire.
pub open spec fn request_bytes(rm: RequestMessages) -> Seq<u8> {
    match rm {
        RequestMessages::Single(m) => message_bytes(m),
        RequestMessages::CopyIn(ms) => messages_bytes(ms@),
    }
}

pub open spec fn request_fits(rm: RequestMessages) -> bool {
    match rm {
        RequestMessages::Single(m) => message_fits(m),
        RequestMessages::CopyIn(ms) => messages_fit(ms@),
    }
}

/// Bytes of a batch of requests, encoded in order.
pub open spec fn batch_bytes(reqs: Seq<Request>) -> Seq<u8>
    decreases reqs.len(),
{
    if reqs.len() == 0 {
        Seq::empty()
    } else {
        batch_bytes(reqs.drop_last()) + request_bytes(reqs.last().messages)
    }
}

pub open spec fn batch_fits(reqs: Seq<Request>) -> bool {
    forall|i: int| 0 <= i < reqs.len() ==> request_fits(#[trigger] reqs[i].messages)
}

proof fn lemma_batch_bytes_concat(a: Seq<Request>, b: Seq<Request>)
    ensures
        batch_bytes(a + b) == batch_bytes(a) + batch_bytes(b),
    decreases b.len(),
{
    if b.len() == 0 {
        assert(a + b =~= a);
        assert(batch_bytes(a) + batch_bytes(b) =~= batch_bytes(a));
    } else {
        assert((a + b).drop_last() =~= a + b.drop_last());
        assert((a + b).last() == b.last());
        lemma_batch_bytes_concat(a, b.drop_last());
        assert(batch_bytes(a + b) =~= batch_bytes(a) + batch_bytes(b));
    }
}

/// Within one batch, every request's bytes, all the messages of a bulk-load
/// request included, stand together at the request's own position: after the
/// bytes of the requests before it and before those of the requests after it.
pub proof fn lemma_request_contiguous(reqs: Seq<Request>, j: int)
    requires
        0 <= j < reqs.len(),
    ensures
        batch_bytes(reqs) == batch_bytes(reqs.take(j)) + request_bytes(reqs[j].messages)
            + batch_bytes(reqs.subrange(j + 1, reqs.len() as int)),
{
    let head = reqs.take(j + 1);
    let tail = reqs.subrange(j + 1, reqs.len() as int);
    assert(head + tail =~= reqs);
    lemma_batch_bytes_concat(head, tail);
    assert(head.drop_last() =~= reqs.take(j));
    assert(head.last() == reqs[j]);
}

/// Relies on `may::sync::mpsc::Sender::send`: the messages go on this
/// sender's channel; a receiver that is gone is no error here.
#[verifier::external_body]
pub(crate) fn deliver(sender: &Sender<BackendMessages>, messages: BackendMessages) -> (to: Ghost<
    Sender<BackendMessages>,
>)
    ensures
        to@ == *sender,
{
    let _ = sender.send(messages);
    Ghost(*sender)
}

} // verus!
