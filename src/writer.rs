use vstd::prelude::*;
use bytes::BytesMut;
use std::collections::VecDeque;
use crate::request::{
    batch_bytes, batch_fits, message_bytes, message_fits, messages_bytes, messages_fit, request_bytes,
    request_fits, FrontendMessage, Request, RequestMessages, Response,
};
use crate::wire::{append_bytes, append_copy_data, buffer_bytes, new_buffer, take_bytes, MAX_COPY_DATA};

verus! {

/// Why a request could not be encoded.
#[derive(Debug, PartialEq, Eq, Structural)]
pub enum EncodeError {
    /// A `CopyData` payload is too long for the frame's length field.
    MessageTooLong,
}

/// The accumulating buffer of the current drainer: bytes encoded and not yet flushed.
pub struct WriteBuffer {
    buf: BytesMut,
}

/// Whether a message can be encoded.
pub fn fits(m: &FrontendMessage) -> (r: bool)
    ensures
        r == message_fits(*m),
{
    match m {
        FrontendMessage::Raw(_) => true,
        FrontendMessage::CopyData(d) => d.len() <= MAX_COPY_DATA,
    }
}

impl WriteBuffer {
    /// Bytes waiting for the next physical write.
    pub closed spec fn pending(&self) -> Seq<u8> {
        buffer_bytes(self.buf)
    }

    pub fn new() -> (r: WriteBuffer)
        ensures
            r.pending() == Seq::<u8>::empty(),
    {
        WriteBuffer { buf: new_buffer(1024) }
    }

    /// Appends the wire form of one message.
    pub fn encode_message(&mut self, m: &FrontendMessage) -> (r: Result<(), EncodeError>)
        ensures
            r is Ok <==> message_fits(*m),
            r is Ok ==> final(self).pending() == old(self).pending() + message_bytes(*m),
            r is Err ==> final(self).pending() == old(self).pending(),
    {
        match m {
            FrontendMessage::Raw(b) => {
                append_bytes(&mut self.buf, b.as_slice());
                Ok(())
            },
            FrontendMessage::CopyData(d) => {
                if d.len() > MAX_COPY_DATA {
                    Err(EncodeError::MessageTooLong)
                } else {
                    append_copy_data(&mut self.buf, d.as_slice());
                    Ok(())
                }
            },
        }
    }

    /// Appends the wire form of a request and hands back its reply destination.
    /// A bulk-load request puts all its messages in this buffer, and gets one
    /// destination for all of them. A request that cannot be encoded leaves
    /// the buffer as it was.
    pub fn encode_request(&mut self, req: Request) -> (r: Result<Response, EncodeError>)
        ensures
            r is Ok <==> request_fits(req.messages),
            r matches Ok(rsp) ==> rsp.sender == req.sender
                && final(self).pending() == old(self).pending() + request_bytes(req.messages),
            r is Err ==> final(self).pending() == old(self).pending(),
    {
        let Request { messages, sender } = req;
        match messages {
            RequestMessages::Single(m) => {
                self.encode_message(&m)?;
            },
            RequestMessages::CopyIn(ms) => {
                let mut k: usize = 0;
                while k < ms.len()
                    invariant
                        0 <= k <= ms@.len(),
                        req.messages == RequestMessages::CopyIn(ms),
                        self.pending() == old(self).pending(),
                        forall|j: int| 0 <= j < k ==> message_fits(#[trigger] ms@[j]),
                    decreases ms@.len() - k,
                {
                    if !fits(&ms[k]) {
                        assert(!messages_fit(ms@));
                        return Err(EncodeError::MessageTooLong);
                    }
                    k = k + 1;
                }
                let ghost start = self.pending();
                let mut i: usize = 0;
                while i < ms.len()
                    invariant
                        0 <= i <= ms@.len(),
                        req.messages == RequestMessages::CopyIn(ms),
                        messages_fit(ms@),
                        self.pending() == start + messages_bytes(ms@.take(i as int)),
                    decreases ms@.len() - i,
                {
                    let ok = self.encode_message(&ms[i]);
                    if ok.is_err() {
                        return Err(EncodeError::MessageTooLong);
                    }
                    assert(ms@.take(i as int + 1).drop_last() == ms@.take(i as int));
                    assert(ms@.take(i as int + 1).last() == ms@[i as int]);
                    assert(self.pending() =~= start + messages_bytes(ms@.take(i as int + 1)));
                    i = i + 1;
                }
                assert(ms@.take(ms@.len() as int) == ms@);
            },
        }
        Ok(Response { sender })
    }

    /// Hands over every pending byte for one physical write, leaving the buffer empty.
    pub fn take_batch(&mut self) -> (r: Vec<u8>)
        ensures
            r@ == old(self).pending(),
            final(self).pending() == Seq::<u8>::empty(),
    {
        take_bytes(&mut self.buf)
    }
}

/// One drain pass: the requests of `intake` are taken in order and each is
/// encoded into `out`; right after its bytes, its reply destination is
/// appended to `registered`, so that replies, which come in wire order, find
/// their callers. The pass stops at the first request that cannot be encoded:
/// that request is taken and dropped, with no destination, and the requests
/// behind it stay in `intake`.
pub fn drain_pass(out: &mut WriteBuffer, intake: &mut VecDeque<Request>, registered: &mut Vec<
    Response,
>) -> (r: Result<(), EncodeError>)
    ensures
        ({
            let n = old(registered)@.len();
            let k = final(registered)@.len() - n;
            &&& n <= final(registered)@.len()
            &&& k <= old(intake)@.len()
            &&& final(registered)@.subrange(0, n as int) == old(registered)@
            &&& forall|i: int| 0 <= i < k ==> #[trigger] final(registered)@[n + i].sender
                == old(intake)@[i].sender
            &&& final(out).pending() == old(out).pending() + batch_bytes(old(intake)@.take(k))
            &&& batch_fits(old(intake)@.take(k))
            &&& (r is Ok <==> batch_fits(old(intake)@))
            &&& r is Ok ==> k == old(intake)@.len() && final(intake)@.len() == 0
            &&& r is Err ==> k < old(intake)@.len()
                && !request_fits(old(intake)@[k].messages)
                && final(intake)@ == old(intake)@.subrange(k + 1, old(intake)@.len() as int)
        }),
{
    let ghost all = intake@;
    let ghost start = out.pending();
    let ghost n = registered@.len();
    let ghost before = registered@;
    let ghost mut k: int = 0;
    while intake.len() > 0
        invariant
            all == old(intake)@,
            n == old(registered)@.len(),
            before == old(registered)@,
            start == old(out).pending(),
            registered@.len() == n + k,
            registered@.subrange(0, n as int) == before,
            0 <= k,
            k + intake@.len() == all.len(),
            intake@ == all.subrange(k as int, all.len() as int),
            batch_fits(all.take(k as int)),
            forall|i: int| 0 <= i < k ==> #[trigger] registered@[n + i].sender == all[i].sender,
            out.pending() == start + batch_bytes(all.take(k as int)),
        decreases intake@.len(),
    {
        let req = intake.pop_front().unwrap();
        assert(req == all[k as int]);
        match out.encode_request(req) {
            Ok(rsp) => {
                registered.push(rsp);
                assert(all.take(k as int + 1).drop_last() == all.take(k as int));
                assert(all.take(k as int + 1).last() == all[k as int]);
                assert(out.pending() =~= start + batch_bytes(all.take(k as int + 1)));
                assert forall|j: int| 0 <= j < k + 1 implies
                    request_fits(#[trigger] all.take(k as int + 1)[j].messages) by {
                    if j < k {
                        assert(all.take(k as int)[j] == all.take(k as int + 1)[j]);
                    }
                }
                assert(registered@.subrange(0, n as int) =~= before);
                proof {
                    k = k + 1;
                }
            },
            Err(e) => {
                assert(!request_fits(all[k as int].messages));
                assert(!batch_fits(all));
                assert(intake@ =~= all.subrange(k + 1, all.len() as int));
                return Err(e);
            },
        }
    }
    assert(all.take(all.len() as int) == all);
    Ok(())
}

/// Election: the caller whose increment of the pending counter read zero
/// becomes the drainer of the new batch.
pub fn becomes_drainer(prior: usize) -> (r: bool)
    ensures
        r == (prior == 0),
{
    prior == 0
}

/// After a flush the drainer subtracts the `drained` requests of its pass (as
/// many as the counter showed when the pass started) from the pending
/// counter, which read `prior`. The role ends only where nothing arrived
/// meanwhile; else the drainer serves the new work.
pub fn pass_ends(prior: usize, drained: usize) -> (r: bool)
    ensures
        r == (prior == drained),
{
    prior == drained
}

} // verus!
