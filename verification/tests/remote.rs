use gmrs::internal::{
    install_hook, internal_hook_name_from_time, internal_think_loop, remote_execute,
    remote_reference_free, remote_try_execute, run_batch, uninstall_hook, DetachedCall, InternalMessage,
    Mailbox, RemoteCall, RemoteJob,
};
use gmrs::lua::bridge::LuaState;
use gmrs::lua::memory::{MemoryEngine, Value};
use gmrs::lua::{self, NativeFunc};
use gmrs::refs::OwnedRef;
use std::sync::atomic::{AtomicBool, Ordering};

struct Job(Box<dyn FnOnce(MemoryEngine) -> MemoryEngine + Send>);

impl RemoteJob<MemoryEngine> for Job {
    fn runs(&self, _before: MemoryEngine, _after: MemoryEngine) -> bool {
        true
    }

    fn run(self, state: MemoryEngine) -> MemoryEngine {
        (self.0)(state)
    }
}

impl<F, R> From<RemoteCall<MemoryEngine, F, R>> for Job
where
    F: FnOnce(MemoryEngine) -> (MemoryEngine, R) + Send + 'static,
    R: Send + 'static,
{
    fn from(call: RemoteCall<MemoryEngine, F, R>) -> Self {
        Job(Box::new(move |state| call.run(state)))
    }
}

impl<F, R> From<DetachedCall<MemoryEngine, F, R>> for Job
where
    F: FnOnce(MemoryEngine) -> (MemoryEngine, R) + Send + 'static,
    R: Send + 'static,
{
    fn from(call: DetachedCall<MemoryEngine, F, R>) -> Self {
        Job(Box::new(move |state| call.run(state)))
    }
}

fn engine_with_hook_library() -> MemoryEngine {
    let mut engine = MemoryEngine::new();
    lua::push_special(&mut engine, lua::LuaSpecial::Glob);
    let library = lua::create_table(&mut engine);
    lua::push_c_function(&mut engine, 0xadd);
    lua::set_field(&mut engine, library.stack_pos(), "Add");
    lua::push_c_function(&mut engine, 0xdead);
    lua::set_field(&mut engine, library.stack_pos(), "Remove");
    lua::push_c_function(&mut engine, 0x0123);
    lua::set_field(&mut engine, library.stack_pos(), "Run");
    lua::set_field(&mut engine, 1, "hook");
    lua::pop(&mut engine, 1);
    engine
}

#[test]
fn a_worker_calls_back_a_callback_that_it_carried_across_threads() {
    let mut engine = MemoryEngine::new();
    let mailbox: Mailbox<Job> = Mailbox::new();
    lua::push_c_function(&mut engine, 0x5ca1ab1e);
    lua::push_c_function(&mut engine, 0xfa11);
    let success_callback = OwnedRef::new(&mut engine, 1);
    let failure_callback = OwnedRef::new(&mut engine, 2);
    lua::pop(&mut engine, 2);
    let done = AtomicBool::new(false);
    let (mailbox_ref, done_ref) = (&mailbox, &done);
    let engine = crossbeam::scope(move |scope| {
        let worker = scope.spawn(move |_| {
            let _failure_callback = failure_callback;
            let long_task_result = 50i32;
            let seen = remote_execute::<MemoryEngine, Job, _, _>(mailbox_ref, move |mut state| {
                lua::push(&mut state, success_callback);
                lua::push(&mut state, long_task_result);
                let ok = lua::pcall(&mut state, 1, 0);
                let size = lua::top(&state);
                (state, (ok, size))
            });
            done_ref.store(true, Ordering::SeqCst);
            seen
        });
        let mut engine = engine;
        let mut passes = 0u64;
        while !done_ref.load(Ordering::SeqCst) {
            engine = internal_think_loop(engine, mailbox_ref);
            passes += 1;
        }
        assert!(passes >= 1);
        assert_eq!(worker.join().unwrap(), Some((true, 0)));
        engine
    })
    .unwrap();
    assert_eq!(engine.call_count(), 1);
    assert_eq!(engine.call_arg_count(0), 1);
    assert_eq!(engine.call_callee(0), Value::Function(0x5ca1ab1e));
    assert_eq!(engine.call_arg(0, 0), Value::Number(50));
    let engine = internal_think_loop(engine, &mailbox);
    assert_eq!(engine.call_count(), 1);
    assert_eq!(engine.top(), 0);
}

#[test]
fn remote_execute_returns_what_the_function_returned() {
    let engine = MemoryEngine::new();
    let mailbox: Mailbox<Job> = Mailbox::new();
    let done = AtomicBool::new(false);
    let (mailbox_ref, done_ref) = (&mailbox, &done);
    let engine = crossbeam::scope(move |scope| {
        let worker = scope.spawn(move |_| {
            let first = remote_execute::<MemoryEngine, Job, _, _>(mailbox_ref, |mut state| {
                lua::push(&mut state, "left by the first call");
                (state, 1u32)
            });
            let second = remote_execute::<MemoryEngine, Job, _, _>(mailbox_ref, |mut state| {
                let seen = lua::get::<_, String>(&mut state, -1);
                (state, seen)
            });
            done_ref.store(true, Ordering::SeqCst);
            (first, second)
        });
        let mut engine = engine;
        while !done_ref.load(Ordering::SeqCst) {
            engine = internal_think_loop(engine, mailbox_ref);
        }
        let (first, second) = worker.join().unwrap();
        assert_eq!(first, Some(1));
        assert_eq!(second, Some(Ok("left by the first call".to_string())));
        engine
    })
    .unwrap();
    assert_eq!(engine.top(), 1);
}

struct Discarded;

impl RemoteJob<MemoryEngine> for Discarded {
    fn runs(&self, _before: MemoryEngine, _after: MemoryEngine) -> bool {
        true
    }

    fn run(self, state: MemoryEngine) -> MemoryEngine {
        state
    }
}

impl<F, R> From<RemoteCall<MemoryEngine, F, R>> for Discarded
where
    F: FnOnce(MemoryEngine) -> (MemoryEngine, R),
{
    fn from(_call: RemoteCall<MemoryEngine, F, R>) -> Self {
        Discarded
    }
}

#[test]
fn remote_execute_gives_up_when_its_call_is_thrown_away() {
    let mailbox: Mailbox<Discarded> = Mailbox::new();
    let result =
        remote_execute::<MemoryEngine, Discarded, _, _>(&mailbox, |state| (state, 5u8));
    assert_eq!(result, None);
    remote_reference_free(&mailbox, 3);
    let engine = internal_think_loop(MemoryEngine::new(), &mailbox);
    assert_eq!(engine.top(), 0);
}

#[test]
fn a_detached_call_runs_in_the_next_pass_and_reports_nothing() {
    let mailbox: Mailbox<Job> = Mailbox::new();
    remote_try_execute::<MemoryEngine, Job, _, _>(&mailbox, |mut state| {
        lua::push(&mut state, 1u8);
        let failed: Result<(), String> = Err("nobody hears this".to_string());
        (state, failed)
    });
    remote_try_execute::<MemoryEngine, Job, _, _>(&mailbox, |mut state| {
        lua::push(&mut state, 2u8);
        (state, ())
    });
    let mut engine = MemoryEngine::new();
    assert_eq!(engine.top(), 0);
    engine = internal_think_loop(engine, &mailbox);
    assert_eq!(engine.top(), 2);
    assert_eq!(lua::get_number(&engine, 1), 1);
    assert_eq!(lua::get_number(&engine, 2), 2);
    engine = internal_think_loop(engine, &mailbox);
    assert_eq!(engine.top(), 2);
}

#[test]
fn messages_of_one_sender_are_applied_in_the_order_sent() {
    let mailbox: Mailbox<Job> = Mailbox::new();
    let mut engine = MemoryEngine::new();
    lua::push(&mut engine, "a");
    let a = lua::reference_create(&mut engine);
    remote_try_execute::<MemoryEngine, Job, _, _>(&mailbox, move |mut state| {
        lua::reference_push(&mut state, a);
        (state, ())
    });
    remote_reference_free(&mailbox, a);
    remote_try_execute::<MemoryEngine, Job, _, _>(&mailbox, move |mut state| {
        lua::reference_push(&mut state, a);
        (state, ())
    });
    let engine = internal_think_loop(engine, &mailbox);
    assert_eq!(engine.top(), 2);
    assert_eq!(engine.value_at(1), Value::String(b"a".to_vec()));
    assert_eq!(engine.value_at(2), Value::Nil);
    assert!(!engine.is_live(a));
}

#[test]
fn the_hook_name_carries_the_moment_of_loading() {
    assert_eq!(
        internal_hook_name_from_time("Instant { tv_sec: 12, tv_nsec: 5 }"),
        "gmrs_internal_hook_Instant { tv_sec: 12, tv_nsec: 5 }"
    );
    assert_eq!(internal_hook_name_from_time(""), "gmrs_internal_hook_");
}

#[test]
fn the_pass_is_registered_with_the_host_and_taken_back() {
    let mut engine = engine_with_hook_library();
    assert!(install_hook(&mut engine, "t0", NativeFunc::new(0x7417)));
    assert_eq!(engine.call_count(), 1);
    assert_eq!(engine.call_callee(0), Value::Function(0xadd));
    assert_eq!(engine.call_arg_count(0), 3);
    assert_eq!(engine.call_arg(0, 0), Value::String(b"Think".to_vec()));
    assert_eq!(engine.call_arg(0, 1), Value::String(b"gmrs_internal_hook_t0".to_vec()));
    assert_eq!(engine.call_arg(0, 2), Value::Function(0x7417));
    assert_eq!(engine.top(), 2);
    assert!(uninstall_hook(&mut engine, "t0"));
    assert_eq!(engine.call_count(), 2);
    assert_eq!(engine.call_callee(1), Value::Function(0xdead));
    assert_eq!(engine.call_arg_count(1), 2);
    assert_eq!(engine.call_arg(1, 0), Value::String(b"Think".to_vec()));
    assert_eq!(engine.call_arg(1, 1), Value::String(b"gmrs_internal_hook_t0".to_vec()));
    assert_eq!(engine.top(), 4);
}

#[test]
fn a_message_that_frees_is_told_from_one_that_runs() {
    let free: InternalMessage<Job> = gmrs::internal::free_request(4);
    assert!(matches!(free, InternalMessage::ReferenceFree(4)));
}

#[test]
fn what_arrives_during_a_pass_is_applied_in_that_pass() {
    let mailbox: std::sync::Arc<Mailbox<Job>> = std::sync::Arc::new(Mailbox::new());
    let mut engine = MemoryEngine::new();
    lua::push(&mut engine, "late");
    let late = lua::reference_create(&mut engine);
    let inner = mailbox.clone();
    remote_try_execute::<MemoryEngine, Job, _, _>(&mailbox, move |mut state| {
        remote_reference_free(&inner, late);
        remote_try_execute::<MemoryEngine, Job, _, _>(&inner, |mut state| {
            lua::push(&mut state, "second");
            (state, ())
        });
        lua::push(&mut state, "first");
        (state, ())
    });
    let engine = internal_think_loop(engine, &mailbox);
    assert!(!engine.is_live(late));
    assert_eq!(engine.top(), 2);
    assert_eq!(engine.value_at(1), Value::String(b"first".to_vec()));
    assert_eq!(engine.value_at(2), Value::String(b"second".to_vec()));
}

#[test]
fn a_batch_is_applied_first_to_last() {
    let mut engine = MemoryEngine::new();
    lua::push(&mut engine, "a");
    let a = lua::reference_create(&mut engine);
    let mut batch = std::collections::VecDeque::new();
    batch.push_back(InternalMessage::RemoteExecute(Job(Box::new(move |mut state| {
        lua::reference_push(&mut state, a);
        state
    }))));
    batch.push_back(InternalMessage::ReferenceFree(a));
    batch.push_back(InternalMessage::RemoteExecute(Job(Box::new(move |mut state| {
        lua::reference_push(&mut state, a);
        state
    }))));
    let engine = run_batch(engine, batch);
    assert_eq!(engine.top(), 2);
    assert_eq!(engine.value_at(1), Value::String(b"a".to_vec()));
    assert_eq!(engine.value_at(2), Value::Nil);
}

#[test]
fn a_request_to_run_carries_the_call() {
    let mailbox: Mailbox<Job> = Mailbox::new();
    let done = AtomicBool::new(false);
    let (mailbox_ref, done_ref) = (&mailbox, &done);
    crossbeam::scope(move |scope| {
        let worker = scope.spawn(move |_| {
            let seen = remote_execute::<MemoryEngine, Job, _, _>(mailbox_ref, |mut state| {
                lua::push(&mut state, 7u8);
                let top = lua::top(&state);
                (state, top)
            });
            done_ref.store(true, Ordering::SeqCst);
            seen
        });
        let mut engine = MemoryEngine::new();
        lua::push(&mut engine, "already there");
        while !done_ref.load(Ordering::SeqCst) {
            engine = internal_think_loop(engine, mailbox_ref);
        }
        assert_eq!(worker.join().unwrap(), Some(2));
        assert_eq!(engine.top(), 2);
    })
    .unwrap();
}
