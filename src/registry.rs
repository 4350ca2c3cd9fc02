use vstd::prelude::*;
use std::collections::VecDeque;
use may::sync::mpsc::Sender;
use crate::request::{deliver, BackendMessages, Response};

verus! {

/// Reply destinations of the requests on the wire, oldest first. The server
/// answers in request order, so the oldest entry owns the next reply.
///
/// Beside the entries it keeps, as ghost state, every entry ever registered,
/// how many of them are complete, and for each reply forwarded the position
/// (in registration order) of the entry it went to and the channel it was sent on.
pub struct ResponseRegistry {
    entries: VecDeque<Response>,
    registered: Ghost<Seq<Response>>,
    completed: Ghost<nat>,
    delivered: Ghost<Seq<nat>>,
    sent_to: Ghost<Seq<Sender<BackendMessages>>>,
}

impl ResponseRegistry {
    /// Entries still waiting for replies, oldest first.
    pub closed spec fn pending(&self) -> Seq<Response> {
        self.entries@
    }

    /// Every entry registered so far, in registration order.
    pub closed spec fn registered(&self) -> Seq<Response> {
        self.registered@
    }

    /// How many entries got their last reply.
    pub closed spec fn completed(&self) -> nat {
        self.completed@
    }

    /// For each reply forwarded so far, the position of its entry in `registered()`.
    pub closed spec fn delivered(&self) -> Seq<nat> {
        self.delivered@
    }

    /// For each reply forwarded so far, the channel it was sent on.
    pub closed spec fn sent_to(&self) -> Seq<Sender<BackendMessages>> {
        self.sent_to@
    }

    pub closed spec fn wf(&self) -> bool {
        &&& self.completed@ <= self.registered@.len()
        &&& self.entries@ == self.registered@.subrange(self.completed@ as int, self.registered@.len() as int)
        &&& forall|i: int| 0 <= i < self.delivered@.len() ==> {
            &&& #[trigger] self.delivered@[i] <= self.completed@
            &&& self.delivered@[i] < self.registered@.len()
        }
        &&& forall|i: int, j: int| 0 <= i < j < self.delivered@.len()
            ==> #[trigger] self.delivered@[i] <= #[trigger] self.delivered@[j]
        &&& self.sent_to@.len() == self.delivered@.len()
        &&& forall|i: int| 0 <= i < self.sent_to@.len()
            ==> #[trigger] self.sent_to@[i] == self.registered@[self.delivered@[i] as int].sender
    }

    pub fn new() -> (r: ResponseRegistry)
        ensures
            r.wf(),
            r.pending() == Seq::<Response>::empty(),
            r.registered() == Seq::<Response>::empty(),
            r.delivered() == Seq::<nat>::empty(),
            r.sent_to() == Seq::<Sender<BackendMessages>>::empty(),
    {
        let r = ResponseRegistry {
            entries: VecDeque::new(),
            registered: Ghost(Seq::empty()),
            completed: Ghost(0),
            delivered: Ghost(Seq::empty()),
            sent_to: Ghost(Seq::empty()),
        };
        assert(r.entries@ =~= r.registered@.subrange(0, 0));
        r
    }

    pub fn len(&self) -> (r: usize)
        ensures
            r == self.pending().len(),
    {
        self.entries.len()
    }

    /// Appends the destination of a request whose bytes were just encoded.
    pub fn push(&mut self, rsp: Response)
        requires
            old(self).wf(),
        ensures
            final(self).wf(),
            final(self).pending() == old(self).pending().push(rsp),
            final(self).registered() == old(self).registered().push(rsp),
            final(self).completed() == old(self).completed(),
            final(self).delivered() == old(self).delivered(),
            final(self).sent_to() == old(self).sent_to(),
    {
        self.entries.push_back(rsp);
        self.registered = Ghost(self.registered@.push(rsp));
        assert(self.entries@ =~= self.registered@.subrange(
            self.completed@ as int,
            self.registered@.len() as int,
        ));
    }

    /// The oldest entry, left in place.
    pub fn peek(&self) -> (r: Option<&Response>)
        ensures
            self.pending().len() == 0 ==> r is None,
            self.pending().len() > 0 ==> r == Some(&self.pending()[0]),
    {
        if self.entries.len() == 0 {
            None
        } else {
            Some(&self.entries[0])
        }
    }

    /// Removes the oldest entry, whose request got its last reply.
    pub fn pop(&mut self) -> (r: Option<Response>)
        requires
            old(self).wf(),
        ensures
            final(self).wf(),
            final(self).registered() == old(self).registered(),
            final(self).delivered() == old(self).delivered(),
            final(self).sent_to() == old(self).sent_to(),
            old(self).pending().len() == 0 ==> r is None && final(self).pending() == old(self).pending()
                && final(self).completed() == old(self).completed(),
            old(self).pending().len() > 0 ==> r == Some(old(self).pending()[0])
                && final(self).pending() == old(self).pending().drop_first()
                && final(self).completed() == old(self).completed() + 1,
    {
        let r = self.entries.pop_front();
        if r.is_some() {
            self.completed = Ghost(self.completed@ + 1);
            assert(self.entries@ =~= self.registered@.subrange(
                self.completed@ as int,
                self.registered@.len() as int,
            ));
        }
        r
    }

    /// Forwards a reply to the oldest entry, and removes that entry where the
    /// reply completes its request. Returns false, and changes nothing, where
    /// no entry is waiting.
    pub fn forward(&mut self, messages: BackendMessages, request_complete: bool) -> (r: bool)
        requires
            old(self).wf(),
        ensures
            final(self).wf(),
            r == (old(self).pending().len() > 0),
            final(self).registered() == old(self).registered(),
            !r ==> final(self).pending() == old(self).pending()
                && final(self).completed() == old(self).completed()
                && final(self).delivered() == old(self).delivered()
                && final(self).sent_to() == old(self).sent_to(),
            r ==> final(self).delivered() == old(self).delivered().push(old(self).completed()),
            r ==> final(self).sent_to() == old(self).sent_to().push(old(self).pending()[0].sender),
            r && request_complete ==> final(self).pending() == old(self).pending().drop_first()
                && final(self).completed() == old(self).completed() + 1,
            r && !request_complete ==> final(self).pending() == old(self).pending()
                && final(self).completed() == old(self).completed(),
    {
        if self.entries.len() == 0 {
            return false;
        }
        let to = deliver(&self.entries[0].sender, messages);
        self.sent_to = Ghost(self.sent_to@.push(to@));
        self.delivered = Ghost(self.delivered@.push(self.completed@));
        if request_complete {
            self.pop();
        }
        true
    }
}

/// Replies reach callers in registration order, which is wire order: the
/// entries still waiting are the registered ones after the completed ones,
/// every reply was sent on the channel of the oldest entry not complete at
/// that time, and so the positions of the entries that replies went to never
/// decrease.
pub proof fn lemma_replies_in_order(r: ResponseRegistry)
    requires
        r.wf(),
    ensures
        r.completed() <= r.registered().len(),
        r.pending() == r.registered().subrange(r.completed() as int, r.registered().len() as int),
        forall|i: int| 0 <= i < r.delivered().len() ==> #[trigger] r.delivered()[i] <= r.completed()
            && r.delivered()[i] < r.registered().len(),
        forall|i: int, j: int| 0 <= i < j < r.delivered().len()
            ==> #[trigger] r.delivered()[i] <= #[trigger] r.delivered()[j],
        r.sent_to().len() == r.delivered().len(),
        forall|i: int| 0 <= i < r.sent_to().len()
            ==> #[trigger] r.sent_to()[i] == r.registered()[r.delivered()[i] as int].sender,
{
}

} // verus!
