//! A model of the batching writer's shared state, stepped one atomic action
//! at a time, in any interleaving of the callers.
use vstd::prelude::*;

verus! {

/// One atomic action on the writer's shared state.
pub enum WriterEvent {
    /// A caller appends request `id` to the intake queue.
    Push(nat),
    /// A caller that pushed increments the pending counter; where it read zero,
    /// the caller is elected drainer and goes for the write lock.
    Increment,
    /// An elected caller takes the write lock.
    Acquire,
    /// The lock holder starts a pass: it reads the counter, and that many
    /// requests are the pass's quota.
    Start,
    /// The lock holder takes the oldest request of the intake queue and encodes it.
    Pop,
    /// Its quota taken, the lock holder flushes and subtracts what it drained
    /// from the counter; it releases the lock where the counter read exactly
    /// that much.
    Finish,
}

/// The writer's shared state, with a record of what happened to it.
pub struct WriterModel {
    /// The pending counter.
    pub count: int,
    /// Requests in the intake queue, oldest first.
    pub intake: Seq<nat>,
    /// Callers that pushed and have not incremented yet.
    pub uncounted: nat,
    /// Callers elected drainer that wait for the lock.
    pub waiting: nat,
    /// Whether some drainer holds the lock.
    pub holder: bool,
    /// Requests the holder's current pass has still to take.
    pub quota: int,
    /// Requests drained in the holder's current pass.
    pub drained: int,
    /// Requests encoded so far, in wire order.
    pub wire: Seq<nat>,
    /// Requests pushed so far, in order.
    pub submitted: Seq<nat>,
    /// Sum of all increments of the counter.
    pub increments: nat,
    /// Sum of all decrements of the counter.
    pub decrements: nat,
    /// How many callers were elected drainer.
    pub elections: nat,
    /// How many drainers released the lock for good.
    pub releases: nat,
    /// Physical writes made.
    pub flushes: nat,
}

/// An idle writer, as a new connection has it.
pub open spec fn idle() -> WriterModel {
    WriterModel {
        count: 0,
        intake: Seq::empty(),
        uncounted: 0,
        waiting: 0,
        holder: false,
        quota: 0,
        drained: 0,
        wire: Seq::empty(),
        submitted: Seq::empty(),
        increments: 0,
        decrements: 0,
        elections: 0,
        releases: 0,
        flushes: 0,
    }
}

/// Nobody drains, waits for the lock, or is between its push and its increment.
pub open spec fn quiescent(s: WriterModel) -> bool {
    !s.holder && s.waiting == 0 && s.uncounted == 0
}

/// How many callers hold the drainer role: the lock holder and those elected
/// that wait for the lock.
pub open spec fn drainers(s: WriterModel) -> nat {
    s.waiting + if s.holder { 1nat } else { 0nat }
}

pub open spec fn enabled(s: WriterModel, e: WriterEvent) -> bool {
    match e {
        WriterEvent::Push(_) => true,
        WriterEvent::Increment => s.uncounted > 0,
        WriterEvent::Acquire => s.waiting > 0 && !s.holder,
        WriterEvent::Start => s.holder && s.quota == 0 && s.drained == 0,
        WriterEvent::Pop => s.holder && s.quota > 0 && s.intake.len() > 0,
        WriterEvent::Finish => s.holder && s.quota == 0 && s.drained > 0,
    }
}

/// The state after one action.
pub open spec fn step(s: WriterModel, e: WriterEvent) -> WriterModel {
    match e {
        WriterEvent::Push(id) => WriterModel {
            intake: s.intake.push(id),
            submitted: s.submitted.push(id),
            uncounted: s.uncounted + 1,
            ..s
        },
        WriterEvent::Increment => {
            let elected = s.count == 0;
            WriterModel {
                count: s.count + 1,
                uncounted: (s.uncounted - 1) as nat,
                increments: s.increments + 1,
                waiting: if elected { s.waiting + 1 } else { s.waiting },
                elections: if elected { s.elections + 1 } else { s.elections },
                ..s
            }
        },
        WriterEvent::Acquire => WriterModel { waiting: (s.waiting - 1) as nat, holder: true, ..s },
        WriterEvent::Start => WriterModel { quota: s.count, ..s },
        WriterEvent::Pop => WriterModel {
            intake: s.intake.drop_first(),
            wire: s.wire.push(s.intake[0]),
            quota: s.quota - 1,
            drained: s.drained + 1,
            ..s
        },
        WriterEvent::Finish => {
            let prior = s.count;
            let release = prior == s.drained;
            WriterModel {
                count: s.count - s.drained,
                holder: !release,
                drained: 0,
                decrements: (s.decrements + s.drained) as nat,
                flushes: s.flushes + 1,
                releases: if release { s.releases + 1 } else { s.releases },
                ..s
            }
        },
    }
}

/// Whether every action of `evs` is enabled where it happens.
pub open spec fn valid_run(s: WriterModel, evs: Seq<WriterEvent>) -> bool
    decreases evs.len(),
{
    if evs.len() == 0 {
        true
    } else {
        enabled(s, evs[0]) && valid_run(step(s, evs[0]), evs.drop_first())
    }
}

/// The state after the actions of `evs`, in order.
pub open spec fn run(s: WriterModel, evs: Seq<WriterEvent>) -> WriterModel
    decreases evs.len(),
{
    if evs.len() == 0 {
        s
    } else {
        run(step(s, evs[0]), evs.drop_first())
    }
}

/// What holds of the writer in every reachable state.
pub open spec fn consistent(s: WriterModel) -> bool {
    &&& s.drained >= 0
    &&& s.quota >= 0
    &&& s.count >= 0
    &&& s.count == s.intake.len() + s.drained - s.uncounted
    &&& s.count == s.increments - s.decrements
    &&& !s.holder ==> s.drained == 0 && s.quota == 0
    &&& s.holder ==> s.count >= s.drained + s.quota
    &&& (s.count == 0) == (drainers(s) == 0)
    &&& drainers(s) <= 1
    &&& s.elections == s.releases + drainers(s)
    &&& s.submitted == s.wire + s.intake
    &&& s.wire.len() == s.decrements + s.drained
    &&& s.increments + s.uncounted == s.submitted.len()
}

proof fn lemma_idle_consistent()
    ensures
        consistent(idle()),
{
    assert(idle().submitted =~= idle().wire + idle().intake);
}

proof fn lemma_step_consistent(s: WriterModel, e: WriterEvent)
    requires
        consistent(s),
        enabled(s, e),
    ensures
        consistent(step(s, e)),
{
    let t = step(s, e);
    match e {
        WriterEvent::Push(_) => {
            assert(t.submitted =~= t.wire + t.intake);
        },
        WriterEvent::Pop => {
            assert(t.submitted =~= t.wire + t.intake);
        },
        _ => {},
    }
}

proof fn lemma_run_consistent(s: WriterModel, evs: Seq<WriterEvent>)
    requires
        consistent(s),
        valid_run(s, evs),
    ensures
        consistent(run(s, evs)),
    decreases evs.len(),
{
    if evs.len() > 0 {
        lemma_step_consistent(s, evs[0]);
        lemma_run_consistent(step(s, evs[0]), evs.drop_first());
    }
}

proof fn lemma_run_concat(s: WriterModel, a: Seq<WriterEvent>, b: Seq<WriterEvent>)
    ensures
        run(s, a + b) == run(run(s, a), b),
        valid_run(s, a + b) == (valid_run(s, a) && valid_run(run(s, a), b)),
    decreases a.len(),
{
    if a.len() == 0 {
        assert(a + b =~= b);
    } else {
        assert((a + b).drop_first() =~= a.drop_first() + b);
        assert((a + b)[0] == a[0]);
        lemma_run_concat(step(s, a[0]), a.drop_first(), b);
    }
}

proof fn lemma_run_one(s: WriterModel, e: WriterEvent)
    ensures
        run(s, seq![e]) == step(s, e),
        valid_run(s, seq![e]) == enabled(s, e),
{
    let evs = seq![e];
    assert(evs.drop_first() =~= Seq::<WriterEvent>::empty());
    assert(run(step(s, e), Seq::<WriterEvent>::empty()) == step(s, e));
    assert(valid_run(step(s, e), Seq::<WriterEvent>::empty()));
}

/// One drainer at most, in any interleaving of the callers: every reachable
/// state has at most one caller in the drainer role, a caller is elected
/// exactly where nobody holds the role, and every election but the current
/// drainer's was ended by a release. So callers racing on an idle connection
/// elect exactly one drainer until the writer is quiescent again. A pass takes
/// exactly as many requests as the counter showed at its start, so the counter
/// never goes below zero and never reads zero while a drainer is at work.
pub proof fn lemma_single_drainer(evs: Seq<WriterEvent>)
    requires
        valid_run(idle(), evs),
    ensures
        drainers(run(idle(), evs)) <= 1,
        run(idle(), evs).elections == run(idle(), evs).releases + drainers(run(idle(), evs)),
        run(idle(), evs).count >= 0,
        run(idle(), evs).uncounted > 0 ==> ((step(run(idle(), evs), WriterEvent::Increment).elections
            == run(idle(), evs).elections + 1) <==> drainers(run(idle(), evs)) == 0),
        drainers(step(run(idle(), evs), WriterEvent::Increment)) <= 1,
{
    lemma_idle_consistent();
    lemma_run_consistent(idle(), evs);
}

/// Callers racing to send on an idle connection, whatever the interleaving of
/// their pushes and increments: where at least one has incremented, exactly
/// one of them, the first to increment, is elected drainer.
pub proof fn lemma_racing_on_idle(evs: Seq<WriterEvent>)
    requires
        valid_run(idle(), evs),
        arrivals_only(evs),
    ensures
        run(idle(), evs).increments > 0 ==> run(idle(), evs).elections == 1,
        run(idle(), evs).increments == 0 ==> run(idle(), evs).elections == 0,
{
    lemma_arrivals(idle(), evs);
}

/// Whether `evs` holds only callers' arrivals: pushes and increments.
pub open spec fn arrivals_only(evs: Seq<WriterEvent>) -> bool {
    forall|i: int| 0 <= i < evs.len() ==> (#[trigger] evs[i] is Push || evs[i] is Increment)
}

proof fn lemma_arrivals(s: WriterModel, evs: Seq<WriterEvent>)
    requires
        s.count == s.increments,
        s.elections == (if s.increments > 0 { 1nat } else { 0nat }),
        arrivals_only(evs),
    ensures
        run(s, evs).count == run(s, evs).increments,
        run(s, evs).elections == (if run(s, evs).increments > 0 { 1nat } else { 0nat }),
    decreases evs.len(),
{
    if evs.len() > 0 {
        assert(evs[0] is Push || evs[0] is Increment);
        let rest = evs.drop_first();
        assert forall|i: int| 0 <= i < rest.len() implies (#[trigger] rest[i] is Push
            || rest[i] is Increment) by {
            assert(rest[i] == evs[i + 1]);
        }
        lemma_arrivals(step(s, evs[0]), rest);
    }
}

/// Flush accounting: across any run the counter equals the sum of its
/// increments less the sum of its decrements, every request pushed is either
/// still queued or encoded once, in push order, and whenever the writer is
/// quiescent the counter is zero and both sums equal the number of requests
/// sent, all of them on the wire. Where every caller has incremented, the
/// drainers' own actions bring the writer back to that state.
pub proof fn lemma_flush_accounting(evs: Seq<WriterEvent>)
    requires
        valid_run(idle(), evs),
    ensures
        run(idle(), evs).count == run(idle(), evs).increments - run(idle(), evs).decrements,
        run(idle(), evs).submitted == run(idle(), evs).wire + run(idle(), evs).intake,
        quiescent(run(idle(), evs)) ==> run(idle(), evs).count == 0
            && run(idle(), evs).increments == run(idle(), evs).submitted.len()
            && run(idle(), evs).decrements == run(idle(), evs).wire.len()
            && run(idle(), evs).increments == run(idle(), evs).decrements
            && run(idle(), evs).wire == run(idle(), evs).submitted,
        run(idle(), evs).uncounted == 0 ==> settles(run(idle(), evs)),
{
    lemma_idle_consistent();
    lemma_run_consistent(idle(), evs);
    let t = run(idle(), evs);
    if quiescent(t) {
        assert(t.wire + t.intake =~= t.wire);
    }
    if t.uncounted == 0 {
        lemma_settles(t);
    }
}

/// Whether some sequence of the drainers' own actions leads from `s` to a
/// quiescent state with every request pushed on the wire and the counter at zero.
pub open spec fn settles(s: WriterModel) -> bool {
    exists|evs: Seq<WriterEvent>| {
        &&& valid_run(s, evs)
        &&& quiescent(#[trigger] run(s, evs))
        &&& run(s, evs).count == 0
        &&& run(s, evs).wire == s.submitted
        &&& run(s, evs).increments == s.increments
        &&& run(s, evs).decrements == s.increments
    }
}

/// The next action of the drainer role, where no caller is between its push
/// and its increment.
pub open spec fn drainer_next(s: WriterModel) -> WriterEvent {
    if !s.holder {
        WriterEvent::Acquire
    } else if s.quota > 0 {
        WriterEvent::Pop
    } else if s.drained == 0 {
        WriterEvent::Start
    } else {
        WriterEvent::Finish
    }
}

proof fn lemma_settles(s: WriterModel)
    requires
        consistent(s),
        s.uncounted == 0,
    ensures
        settles(s),
    decreases (s.intake.len() - s.quota) as nat, s.quota as nat, s.drained as nat, s.waiting,
{
    if !s.holder && s.waiting == 0 {
        let evs = Seq::<WriterEvent>::empty();
        assert(run(s, evs) == s);
        assert(s.wire + s.intake =~= s.wire);
        assert(valid_run(s, evs));
    } else {
        let e = drainer_next(s);
        assert(enabled(s, e));
        lemma_step_consistent(s, e);
        let t = step(s, e);
        lemma_settles(t);
        let evs2 = choose|evs: Seq<WriterEvent>| {
            &&& valid_run(t, evs)
            &&& quiescent(#[trigger] run(t, evs))
            &&& run(t, evs).count == 0
            &&& run(t, evs).wire == t.submitted
            &&& run(t, evs).increments == t.increments
            &&& run(t, evs).decrements == t.increments
        };
        lemma_run_one(s, e);
        lemma_run_concat(s, seq![e], evs2);
        assert(quiescent(run(s, seq![e] + evs2)));
    }
}

} // verus!
