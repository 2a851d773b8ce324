//! The way back to the owning thread: which thread holds the engine, the mailbox that every
//! other thread leaves its work in, and the pass that empties it.

use vstd::prelude::*;
use vstd::std_specs::convert::FromSpec;
use vstd::string::StringExecFns;
use std::collections::VecDeque;
use crate::channel::{
    bounded_ends, channel_recv, channel_send, channel_try_recv, unbounded_ends, Admits,
    ReceivingEnd, SendingEnd,
};
use crate::lua::bridge::LuaState;

verus! {

/// std's atomic pointer, which is only ever named as a marker and never made.
#[verifier::external_type_specification]
#[verifier::external_body]
#[verifier::reject_recursive_types(T)]
pub struct ExAtomicPtr<T>(core::sync::atomic::AtomicPtr<T>);

/// Marks what type of engine access a job is for. The marker can be sent to any thread,
/// whether or not the engine access itself can.
pub type EngineMarker<S> = core::marker::PhantomData<core::sync::atomic::AtomicPtr<S>>;

/// The purpose of a mailbox: it takes every message.
pub struct Everything;

impl<T> Admits<T> for Everything {
    open spec fn admits(&self, msg: T) -> bool {
        true
    }
}

/// The purpose of the channel that a call answers on: it takes what `func` may return.
#[verifier::reject_recursive_types(S)]
#[verifier::reject_recursive_types(F)]
pub struct AnswerOf<'a, S, F> {
    pub func: &'a F,
    pub engine: EngineMarker<S>,
}

impl<'a, S, F: FnOnce(S) -> (S, R), R> Admits<R> for AnswerOf<'a, S, F> {
    open spec fn admits(&self, msg: R) -> bool {
        may_return::<S, F, R>(*self.func, msg)
    }
}

/// The capacity of the channel that a call answers on: the answer is handed over, from the
/// thread that has it to the thread that waits for it, and never lies in between.
pub const ANSWER_CAPACITY: usize = 0;

/// The engine access of one thread: present for the span of a callback that the engine
/// issued on this thread, absent at every other time and on every other thread.
pub struct ThreadAffinity<S> {
    current: Option<S>,
}

impl<S> ThreadAffinity<S> {
    /// The engine access that the cell holds.
    pub closed spec fn current(self) -> Option<S> {
        self.current
    }

    /// The state of the engine that the cell gives access to.
    pub open spec fn engine(self) -> Option<crate::lua::bridge::EngineView> where S: LuaState {
        match self.current() {
            Some(state) => Some(state@),
            None => None,
        }
    }

    /// The cell of a thread that has no engine access.
    pub fn new() -> (cell: Self)
        ensures
            cell.current() is None,
    {
        ThreadAffinity { current: None }
    }
}

/// The engine access of this thread, if it has any.
pub fn get_lua_state<S>(cell: &mut ThreadAffinity<S>) -> (state: Option<&mut S>)
    ensures
        old(cell).current() is None ==> state is None && final(cell).current() is None,
        old(cell).current() matches Some(held) ==> state matches Some(s) && *s == held
            && final(cell).current() == Some(*final(s)),
{
    match &mut cell.current {
        Some(state) => Some(state),
        None => None,
    }
}

/// Installs `raw` as this thread's engine access, on entry to a callback of the engine.
pub fn set_lua_state_raw<S>(cell: &mut ThreadAffinity<S>, raw: S)
    ensures
        final(cell).current() == Some(raw),
{
    cell.current = Some(raw);
}

/// Clears this thread's engine access, on exit from the callback, and hands it back.
pub fn unset_lua_state_raw<S>(cell: &mut ThreadAffinity<S>) -> (held: Option<S>)
    ensures
        held == old(cell).current(),
        final(cell).current() is None,
{
    cell.current.take()
}

/// Work that a thread without engine access leaves for the owning thread. The job is
/// handed the engine access of the owning thread and hands it back when it is done.
pub trait RemoteJob<S> {
    /// What running the job may do to the engine.
    spec fn runs(&self, before: S, after: S) -> bool;

    /// Runs the job with the engine access of the owning thread.
    fn run(self, state: S) -> (after: S)
        ensures
            self.runs(state, after),
    ;
}

/// The unit of work that crosses threads.
pub enum InternalMessage<J> {
    /// Free this reference.
    ReferenceFree(i32),
    /// Run this job.
    RemoteExecute(J),
}

/// The queue of work for the owning thread. Any thread may send; only the owning thread
/// receives.
#[verifier::reject_recursive_types(J)]
pub struct Mailbox<J> {
    sender: SendingEnd<InternalMessage<J>>,
    receiver: ReceivingEnd<InternalMessage<J>>,
}

impl<J> Mailbox<J> {
    /// The mailbox takes every message.
    #[verifier::type_invariant]
    spec fn open_to_all(self) -> bool {
        forall|msg: InternalMessage<J>| #[trigger] (self.sender.accepts())(msg)
    }

    /// An empty mailbox.
    pub fn new() -> Self {
        let (sender, receiver) = unbounded_ends(&Everything);
        Mailbox { sender, receiver }
    }
}

/// Leaves `msg` in the mailbox. It never waits.
pub fn send_internal_message<J>(mailbox: &Mailbox<J>, msg: InternalMessage<J>) {
    proof {
        use_type_invariant(mailbox);
    }
    channel_send(&mailbox.sender, msg)
}

/// The message that asks the owning thread to free `reference`.
pub fn free_request<J>(reference: i32) -> (msg: InternalMessage<J>)
    ensures
        msg == InternalMessage::<J>::ReferenceFree(reference),
{
    InternalMessage::ReferenceFree(reference)
}

/// Queues a reference to be freed later.
pub fn remote_reference_free<J>(mailbox: &Mailbox<J>, reference: i32) {
    send_internal_message(mailbox, free_request(reference));
}

/// A call that waits for its answer: the function to run on the owning thread, and the
/// channel on which the caller waits for what it returns.
#[verifier::reject_recursive_types(S)]
#[verifier::reject_recursive_types(F)]
#[verifier::reject_recursive_types(R)]
pub struct RemoteCall<S, F: FnOnce(S) -> (S, R), R> {
    func: F,
    reply: SendingEnd<R>,
    engine: EngineMarker<S>,
}

/// Whether `func` may return `result`, on whatever engine.
pub open spec fn may_return<S, F: FnOnce(S) -> (S, R), R>(func: F, result: R) -> bool {
    exists|before: S, after: S| #[trigger] call_ensures(func, (before,), (after, result))
}

impl<S, F: FnOnce(S) -> (S, R), R> RemoteCall<S, F, R> {
    /// The function can be run on any engine, and the reply takes nothing but what the
    /// function may return.
    #[verifier::type_invariant]
    spec fn callable(self) -> bool {
        &&& forall|state: S| call_requires(self.func, (state,))
        &&& forall|result: R| #[trigger]
            (self.reply.accepts())(result) <==> may_return::<S, F, R>(self.func, result)
    }

    /// The function that the call runs.
    pub closed spec fn func(self) -> F {
        self.func
    }

    /// What the reply of the call takes.
    pub closed spec fn answers(self) -> spec_fn(R) -> bool {
        self.reply.accepts()
    }
}

/// The call that runs `func` and answers on a channel of its own, with the end of that
/// channel on which the answer is waited for.
fn remote_call<S, F: FnOnce(S) -> (S, R), R>(func: F) -> (made: (
    RemoteCall<S, F, R>,
    ReceivingEnd<R>,
))
    requires
        forall|state: S| call_requires(func, (state,)),
    ensures
        made.0.func() == func,
        forall|result: R| #[trigger]
            (made.0.answers())(result) <==> may_return::<S, F, R>(func, result),
        made.1.accepts() == made.0.answers(),
{
    let (reply, answer) = bounded_ends(
        ANSWER_CAPACITY,
        &(AnswerOf::<S, F> { func: &func, engine: core::marker::PhantomData }),
    );
    (RemoteCall { func, reply, engine: core::marker::PhantomData }, answer)
}

/// The message that asks the owning thread to run `call`.
pub fn execute_request<S, J, F, R>(call: RemoteCall<S, F, R>) -> (msg: InternalMessage<J>) where
    F: FnOnce(S) -> (S, R),
    J: From<RemoteCall<S, F, R>>,

    ensures
        msg is RemoteExecute,
        J::obeys_from_spec() ==> msg == InternalMessage::RemoteExecute(J::from_spec(call)),
{
    InternalMessage::RemoteExecute(J::from(call))
}

impl<S, F: FnOnce(S) -> (S, R), R> RemoteJob<S> for RemoteCall<S, F, R> {
    /// The function has run once, on the engine that the pass was given, nothing else has
    /// touched the engine, and what the function returned is what the reply takes.
    open spec fn runs(&self, before: S, after: S) -> bool {
        exists|result: R|
            call_ensures(self.func(), (before,), (after, result)) && (self.answers())(result)
    }

    fn run(self, state: S) -> (after: S) {
        proof {
            use_type_invariant(&self);
        }
        let ghost job = self;
        let ghost before = state;
        let (after, result) = (self.func)(state);
        assert(call_ensures(job.func(), (before,), (after, result)));
        assert(may_return::<S, F, R>(job.func(), result));
        assert((job.answers())(result));
        channel_send(&self.reply, result);
        after
    }
}

/// A call that nobody waits for: whether the function fails or not, nothing is reported.
#[verifier::reject_recursive_types(S)]
#[verifier::reject_recursive_types(F)]
#[verifier::reject_recursive_types(R)]
pub struct DetachedCall<S, F: FnOnce(S) -> (S, R), R> {
    func: F,
    engine: EngineMarker<S>,
}

impl<S, F: FnOnce(S) -> (S, R), R> DetachedCall<S, F, R> {
    #[verifier::type_invariant]
    spec fn callable(self) -> bool {
        forall|state: S| call_requires(self.func, (state,))
    }

    /// The function that the call runs.
    pub closed spec fn func(self) -> F {
        self.func
    }
}

impl<S, F: FnOnce(S) -> (S, R), R> RemoteJob<S> for DetachedCall<S, F, R> {
    open spec fn runs(&self, before: S, after: S) -> bool {
        exists|result: R| call_ensures(self.func(), (before,), (after, result))
    }

    fn run(self, state: S) -> (after: S) {
        proof {
            use_type_invariant(&self);
        }
        let ghost job = self;
        let ghost before = state;
        let (after, result) = (self.func)(state);
        assert(call_ensures(job.func(), (before,), (after, result)));
        after
    }
}

/// What one message does to the engine.
pub open spec fn applied<S: LuaState, J: RemoteJob<S>>(
    before: S,
    msg: InternalMessage<J>,
    after: S,
) -> bool {
    match msg {
        InternalMessage::ReferenceFree(reference) => after@ == before@.released(reference as int),
        InternalMessage::RemoteExecute(job) => job.runs(before, after),
    }
}

/// `trace` holds the engine as it stood before the batch, between any two messages and
/// after the last: each message has been applied once, in the order of the batch.
pub open spec fn is_trace<S: LuaState, J: RemoteJob<S>>(
    before: S,
    batch: Seq<InternalMessage<J>>,
    trace: Seq<S>,
    after: S,
) -> bool {
    &&& trace.len() == batch.len() + 1
    &&& trace[0] == before
    &&& trace.last() == after
    &&& forall|i: int| 0 <= i < batch.len() ==> applied(trace[i], #[trigger] batch[i], trace[i + 1])
}

/// What a batch of messages does to the engine: each message is applied once, in the order
/// of the batch.
pub open spec fn drained<S: LuaState, J: RemoteJob<S>>(
    before: S,
    batch: Seq<InternalMessage<J>>,
    after: S,
) -> bool {
    exists|trace: Seq<S>| is_trace(before, batch, trace, after)
}

/// Every job of a batch runs once, on the engine as the pass holds it at that moment: the
/// engine that the pass was given, changed by the messages before the job and by nothing
/// else.
pub proof fn lemma_job_runs_on_the_engine_of_the_pass<S: LuaState, J: RemoteJob<S>>(
    before: S,
    batch: Seq<InternalMessage<J>>,
    trace: Seq<S>,
    after: S,
    at: int,
)
    requires
        is_trace(before, batch, trace, after),
        0 <= at < batch.len(),
        batch[at] is RemoteExecute,
    ensures
        batch[at]->RemoteExecute_0.runs(trace[at], trace[at + 1]),
        is_trace(before, batch.take(at), trace.take(at + 1), trace[at]),
        at == 0 ==> trace[at] == before,
{
    assert(applied(trace[at], batch[at], trace[at + 1]));
    assert forall|i: int| 0 <= i < batch.take(at).len() implies applied(
        trace.take(at + 1)[i],
        #[trigger] batch.take(at)[i],
        trace.take(at + 1)[i + 1],
    ) by {
        assert(applied(trace[i], batch[i], trace[i + 1]));
    }
}

/// A pass over a batch that holds one request to free `reference`, and nothing else, frees
/// that reference and leaves the rest of the engine as it was: until that pass the reference
/// is as live as the handle left it.
pub proof fn lemma_deferred_release<S: LuaState, J: RemoteJob<S>>(
    before: S,
    reference: i32,
    after: S,
)
    requires
        drained(before, seq![InternalMessage::<J>::ReferenceFree(reference)], after),
    ensures
        after@ == before@.released(reference as int),
{
    let batch = seq![InternalMessage::<J>::ReferenceFree(reference)];
    let trace = choose|trace: Seq<S>| is_trace(before, batch, trace, after);
    assert(applied(trace[0], batch[0], trace[1]));
}

/// A pass over a batch of requests to free references frees each of them and leaves the rest
/// of the engine as it was.
pub proof fn lemma_releases_drained<S: LuaState, J: RemoteJob<S>>(
    before: S,
    batch: Seq<InternalMessage<J>>,
    after: S,
)
    requires
        drained(before, batch, after),
        forall|i: int| 0 <= i < batch.len() ==> #[trigger] batch[i] is ReferenceFree,
    ensures
        after@ == (crate::lua::bridge::EngineView {
            references: before@.references.remove_keys(requested(batch)),
            ..before@
        }),
{
    let trace = choose|trace: Seq<S>| is_trace(before, batch, trace, after);
    lemma_releases_traced(before, batch, trace, after, batch.len() as int);
    assert(batch.take(batch.len() as int) =~= batch);
}

/// The references that the requests of `batch` name.
pub open spec fn requested<J>(batch: Seq<InternalMessage<J>>) -> Set<int> {
    Set::new(
        |reference: int|
            exists|i: int|
                0 <= i < batch.len() && #[trigger] batch[i] == InternalMessage::<J>::ReferenceFree(
                    reference as i32,
                ) && i32::MIN <= reference <= i32::MAX,
    )
}

proof fn lemma_releases_traced<S: LuaState, J: RemoteJob<S>>(
    before: S,
    batch: Seq<InternalMessage<J>>,
    trace: Seq<S>,
    after: S,
    upto: int,
)
    requires
        is_trace(before, batch, trace, after),
        forall|i: int| 0 <= i < batch.len() ==> #[trigger] batch[i] is ReferenceFree,
        0 <= upto <= batch.len(),
    ensures
        trace[upto]@ == (crate::lua::bridge::EngineView {
            references: before@.references.remove_keys(requested(batch.take(upto))),
            ..before@
        }),
    decreases upto,
{
    if upto == 0 {
        assert(requested(batch.take(0)) =~= Set::<int>::empty());
        assert(before@.references.remove_keys(Set::<int>::empty()) =~= before@.references);
    } else {
        lemma_releases_traced(before, batch, trace, after, upto - 1);
        let msg = batch[upto - 1];
        assert(applied(trace[upto - 1], msg, trace[upto]));
        let reference = msg->ReferenceFree_0;
        let shorter = batch.take(upto - 1);
        let longer = batch.take(upto);
        assert(longer[upto - 1] == msg);
        assert forall|r: int| requested(longer).contains(r) <==> (requested(shorter).contains(r)
            || r == reference) by {
            if requested(shorter).contains(r) {
                let i = choose|i: int|
                    0 <= i < shorter.len() && #[trigger] shorter[i]
                        == InternalMessage::<J>::ReferenceFree(r as i32) && i32::MIN <= r
                        <= i32::MAX;
                assert(longer[i] == shorter[i]);
            }
            if requested(longer).contains(r) {
                let i = choose|i: int|
                    0 <= i < longer.len() && #[trigger] longer[i]
                        == InternalMessage::<J>::ReferenceFree(r as i32) && i32::MIN <= r
                        <= i32::MAX;
                if i < upto - 1 {
                    assert(shorter[i] == longer[i]);
                }
            }
        }
        assert(before@.references.remove_keys(requested(shorter)).remove(reference as int)
            =~= before@.references.remove_keys(requested(longer)));
    }
}

/// One more message applied makes the trace one engine longer.
proof fn lemma_trace_extends<S: LuaState, J: RemoteJob<S>>(
    before: S,
    done: Seq<InternalMessage<J>>,
    trace: Seq<S>,
    mid: S,
    msg: InternalMessage<J>,
    after: S,
)
    requires
        is_trace(before, done, trace, mid),
        applied(mid, msg, after),
    ensures
        is_trace(before, done.push(msg), trace.push(after), after),
{
    let longer = trace.push(after);
    assert forall|i: int| 0 <= i < done.len() + 1 implies applied(
        longer[i],
        #[trigger] done.push(msg)[i],
        longer[i + 1],
    ) by {
        if i < done.len() {
            assert(applied(trace[i], done[i], trace[i + 1]));
        }
    }
}

/// Applies one message with the engine access of the owning thread.
pub fn run_message<S: LuaState, J: RemoteJob<S>>(state: S, msg: InternalMessage<J>) -> (after: S)
    ensures
        applied(state, msg, after),
{
    match msg {
        InternalMessage::ReferenceFree(reference) => {
            let mut state = state;
            crate::lua::reference_free(&mut state, reference);
            state
        },
        InternalMessage::RemoteExecute(job) => job.run(state),
    }
}

/// Applies a batch of messages, first to last.
pub fn run_batch<S: LuaState, J: RemoteJob<S>>(
    state: S,
    batch: VecDeque<InternalMessage<J>>,
) -> (after: S)
    ensures
        drained(state, batch@, after),
{
    let ghost before = state;
    let ghost all = batch@;
    let mut state = state;
    let mut batch = batch;
    let ghost mut done: Seq<InternalMessage<J>> = Seq::empty();
    let ghost mut trace: Seq<S> = seq![state];
    while batch.len() > 0
        invariant
            all == done + batch@,
            is_trace(before, done, trace, state),
        decreases batch.len(),
    {
        let msg = batch.pop_front().unwrap();
        let ghost mid = state;
        state = run_message(state, msg);
        proof {
            lemma_trace_extends(before, done, trace, mid, msg, state);
            done = done.push(msg);
            trace = trace.push(state);
            assert(all =~= done + batch@);
        }
    }
    assert(all =~= done);
    state
}

/// One pass of the owning thread over the mailbox: messages are taken out and applied one
/// by one, in the order in which they arrived, until none is ready, or until as many have
/// been applied as a `u64` counts. The pass never waits.
pub fn internal_think_loop<S: LuaState, J: RemoteJob<S>>(state: S, mailbox: &Mailbox<J>) -> (after: S)
    ensures
        exists|batch: Seq<InternalMessage<J>>| #[trigger] drained(state, batch, after),
{
    let ghost before = state;
    let mut state = state;
    let ghost mut done: Seq<InternalMessage<J>> = Seq::empty();
    let ghost mut trace: Seq<S> = seq![state];
    let mut ready = true;
    let mut budget: u64 = u64::MAX;
    while ready && budget > 0
        invariant
            is_trace(before, done, trace, state),
        decreases budget,
    {
        match channel_try_recv(&mailbox.receiver) {
            Some(msg) => {
                let ghost mid = state;
                state = run_message(state, msg);
                proof {
                    lemma_trace_extends(before, done, trace, mid, msg, state);
                    done = done.push(msg);
                    trace = trace.push(state);
                }
            },
            None => {
                ready = false;
            },
        }
        budget = budget - 1;
    }
    assert(drained(before, done, state));
    state
}

/// Executes a function using the engine access of the owning thread.
/// This function will block until the owning thread next empties the mailbox. What it
/// returns is what `func` returned, on the engine that the pass handed it; `None` where the
/// call was thrown away before it was run.
pub fn remote_execute<S, J, F, R>(mailbox: &Mailbox<J>, func: F) -> (result: Option<R>)
    where
        F: FnOnce(S) -> (S, R),
        J: From<RemoteCall<S, F, R>>,
    requires
        forall|state: S| call_requires(func, (state,)),
    ensures
        result matches Some(returned) ==> exists|before: S, after: S| #[trigger]
            call_ensures(func, (before,), (after, returned)),
{
    let (call, answer) = remote_call(func);
    send_internal_message(mailbox, execute_request(call));
    let result = channel_recv(&answer);
    proof {
        if result is Some {
            let returned = result->0;
            assert((answer.accepts())(returned));
            assert(may_return::<S, F, R>(func, returned));
        }
    }
    result
}

/// Leaves a function for the owning thread to run and does not wait for it.
pub fn remote_try_execute<S, J, F, R>(mailbox: &Mailbox<J>, func: F)
    where
        F: FnOnce(S) -> (S, R),
        J: From<DetachedCall<S, F, R>>,
    requires
        forall|state: S| call_requires(func, (state,)),
{
    let call = DetachedCall { func, engine: core::marker::PhantomData };
    send_internal_message(mailbox, InternalMessage::RemoteExecute(J::from(call)));
}

/// Registers `handler` with the host as the recurring callback of this instance of the
/// module, which came up at the moment `time`. The handler is what the owning thread runs
/// the pass over the mailbox from. Returns whether the registration ran to its end.
pub fn install_hook<S: LuaState, T: crate::lua::stack::ToStack>(
    state: &mut S,
    time: &str,
    handler: T,
) -> (ok: bool)
    requires
        crate::has_hook_library(old(state)@),
        old(state)@.has_room(6),
        handler.slots() == 1,
        forall|function: crate::lua::bridge::LuaValue| #[trigger]
            handler.can_push(
                crate::with_args(
                    crate::with_hook_function(old(state)@, function),
                    crate::texts("Think"@, "gmrs_internal_hook_"@ + time@),
                ),
            ),
    ensures
        crate::hook_called(
            old(state)@,
            "Add"@,
            crate::texts("Think"@, "gmrs_internal_hook_"@ + time@),
            handler,
            ok,
            final(state)@,
        ),
{
    let hook_name = internal_hook_name_from_time(time);
    crate::hook_add(state, "Think", hook_name.as_str(), handler)
}

/// Takes the recurring callback of this instance of the module, which came up at the moment
/// `time`, out of the host's registry. What the mailbox still holds stays there. Returns
/// whether the call ran to its end.
pub fn uninstall_hook<S: LuaState>(state: &mut S, time: &str) -> (ok: bool)
    requires
        crate::has_hook_library(old(state)@),
        old(state)@.has_room(5),
    ensures
        exists|hook_name: &str| #[trigger]
            crate::hook_called(
                old(state)@,
                "Remove"@,
                seq![crate::text_value("Think"@)],
                hook_name,
                ok,
                final(state)@,
            ) && hook_name@ == "gmrs_internal_hook_"@ + time@,
{
    let hook_name = internal_hook_name_from_time(time);
    let id = hook_name.as_str();
    let ok = crate::hook_remove(state, "Think", id);
    assert(crate::hook_called(
        old(state)@,
        "Remove"@,
        seq![crate::text_value("Think"@)],
        id,
        ok,
        state@,
    ));
    ok
}

/// The name under which the pass is registered with the host: unique to the moment `time`
/// at which this instance of the module came up.
pub fn internal_hook_name_from_time(time: &str) -> (name: String)
    ensures
        name@ == "gmrs_internal_hook_"@ + time@,
{
    let mut name = String::from_str("gmrs_internal_hook_");
    name.append(time);
    name
}

} // verus!
