use gmrs::internal::{
    internal_think_loop, run_message, set_lua_state_raw, unset_lua_state_raw, InternalMessage,
    Mailbox, RemoteJob, ThreadAffinity,
};
use gmrs::lua::bridge::{LuaState, LUA_NOREF, LUA_REFNIL};
use gmrs::lua::memory::{MemoryEngine, Value};
use gmrs::lua::stack::FromStack;
use gmrs::lua::{self, LuaType};
use gmrs::refs::{self, release_or_defer, ArcRef, AtomicRef};

struct NoJob;

impl RemoteJob<MemoryEngine> for NoJob {
    fn runs(&self, _before: MemoryEngine, _after: MemoryEngine) -> bool {
        true
    }

    fn run(self, state: MemoryEngine) -> MemoryEngine {
        state
    }
}

fn pinned_text(engine: &mut MemoryEngine, text: &str) -> refs::OwnedRef {
    lua::push(engine, text);
    refs::OwnedRef::from_top_of_stack(engine)
}

fn text_behind(engine: &mut MemoryEngine, reference: i32) -> Option<String> {
    lua::reference_push(engine, reference);
    let read = lua::get::<_, String>(engine, -1).ok();
    lua::pop(engine, 1);
    read
}

#[test]
fn a_reference_pins_a_value_until_it_is_freed() {
    let mut engine = MemoryEngine::new();
    lua::push(&mut engine, "kept");
    let reference = lua::reference_create(&mut engine);
    assert!(reference >= 0);
    assert_eq!(engine.top(), 0);
    assert!(engine.is_live(reference));
    assert_eq!(text_behind(&mut engine, reference), Some("kept".to_string()));
    lua::reference_free(&mut engine, reference);
    assert!(!engine.is_live(reference));
    lua::reference_push(&mut engine, reference);
    assert_eq!(lua::get_type(&engine, -1), LuaType::Nil);
    lua::reference_free(&mut engine, reference);
    assert!(!engine.is_live(reference));
}

#[test]
fn nil_is_never_pinned() {
    let mut engine = MemoryEngine::new();
    lua::push_nil(&mut engine);
    assert_eq!(lua::reference_create(&mut engine), LUA_REFNIL);
    assert!(!engine.is_live(LUA_REFNIL));
    assert!(!engine.is_live(LUA_NOREF));
    lua::reference_free(&mut engine, LUA_NOREF);
    lua::reference_push(&mut engine, LUA_NOREF);
    assert_eq!(engine.value_at(-1), Value::Nil);
}

#[test]
fn references_are_distinct_and_freed_ones_are_handed_out_again() {
    let mut engine = MemoryEngine::new();
    let a = pinned_text(&mut engine, "a").into_reference();
    let b = pinned_text(&mut engine, "b").into_reference();
    assert_ne!(a, b);
    lua::reference_free(&mut engine, a);
    assert_eq!(text_behind(&mut engine, b), Some("b".to_string()));
    let c = pinned_text(&mut engine, "c").into_reference();
    assert!(engine.is_live(c));
    assert_ne!(c, b);
}

#[test]
fn dropped_on_the_owning_thread_the_reference_is_freed_at_once() {
    let mut engine = MemoryEngine::new();
    let mailbox: Mailbox<NoJob> = Mailbox::new();
    lua::push(&mut engine, "callback");
    let handle = refs::OwnedRef::new(&mut engine, -1);
    assert_eq!(engine.top(), 1);
    let handle_id = handle.reference();
    lua::push(&mut engine, &handle);
    assert_eq!(lua::get::<_, String>(&mut engine, -1), Ok("callback".to_string()));
    lua::pop(&mut engine, 1);
    let mut cell = ThreadAffinity::new();
    assert!(gmrs::get_lua_state(&mut cell).is_none());
    set_lua_state_raw(&mut cell, engine);
    assert!(gmrs::get_lua_state(&mut cell).unwrap().is_live(handle_id));
    handle.release(&mut cell, &mailbox);
    assert!(!gmrs::get_lua_state(&mut cell).unwrap().is_live(handle_id));
    let mut engine = unset_lua_state_raw(&mut cell).unwrap();
    assert!(gmrs::get_lua_state(&mut cell).is_none());
    assert!(!engine.is_live(handle_id));
    lua::reference_push(&mut engine, handle_id);
    assert_eq!(lua::get_type(&engine, -1), LuaType::Nil);
    let engine = internal_think_loop(engine, &mailbox);
    assert_eq!(engine.top(), 2);
}

#[test]
fn dropped_on_another_thread_the_reference_lives_until_the_next_pass() {
    let mut engine = MemoryEngine::new();
    let mailbox: Mailbox<NoJob> = Mailbox::new();
    let kept = pinned_text(&mut engine, "kept").into_reference();
    lua::push(&mut engine, "callback");
    let handle = refs::OwnedRef::from_top_of_stack(&mut engine);
    lua::push(&mut engine, &handle);
    assert_eq!(lua::get::<_, String>(&mut engine, -1), Ok("callback".to_string()));
    lua::pop(&mut engine, 1);
    let mut elsewhere: ThreadAffinity<MemoryEngine> = ThreadAffinity::new();
    let mailbox_ref = &mailbox;
    let reference = crossbeam::scope(move |scope| {
        scope
            .spawn(move |_| {
                let id = handle.reference();
                handle.release(&mut elsewhere, mailbox_ref);
                id
            })
            .join()
            .unwrap()
    })
    .unwrap();
    assert!(engine.is_live(reference));
    assert_eq!(text_behind(&mut engine, reference), Some("callback".to_string()));
    let mut engine = internal_think_loop(engine, &mailbox);
    assert!(!engine.is_live(reference));
    assert!(engine.is_live(kept));
    assert_eq!(text_behind(&mut engine, kept), Some("kept".to_string()));
    let engine = internal_think_loop(engine, &mailbox);
    assert!(!engine.is_live(reference));
    assert!(engine.is_live(kept));
}

#[test]
fn the_decision_between_the_two_paths() {
    let mut off_thread: ThreadAffinity<MemoryEngine> = ThreadAffinity::new();
    let request = release_or_defer::<MemoryEngine, NoJob>(7, &mut off_thread);
    assert!(matches!(request, Some(InternalMessage::ReferenceFree(7))));
    let mut engine = MemoryEngine::new();
    let reference = pinned_text(&mut engine, "x").into_reference();
    let mut on_thread = ThreadAffinity::new();
    set_lua_state_raw(&mut on_thread, engine);
    let request = release_or_defer::<MemoryEngine, NoJob>(reference, &mut on_thread);
    assert!(request.is_none());
    let engine = unset_lua_state_raw(&mut on_thread).unwrap();
    assert!(!engine.is_live(reference));
    assert!(unset_lua_state_raw(&mut on_thread).is_none());
}

#[test]
fn a_message_is_applied_once() {
    let mut engine = MemoryEngine::new();
    let a = pinned_text(&mut engine, "a").into_reference();
    let b = pinned_text(&mut engine, "b").into_reference();
    let engine = run_message(engine, InternalMessage::<NoJob>::ReferenceFree(a));
    assert!(!engine.is_live(a));
    assert!(engine.is_live(b));
    let engine = run_message(engine, InternalMessage::RemoteExecute(NoJob));
    assert!(engine.is_live(b));
}

#[test]
fn pushing_an_owned_handle_uses_it_up() {
    let mut engine = MemoryEngine::new();
    let handle = pinned_text(&mut engine, "once");
    assert_eq!(lua::push(&mut engine, handle), 1);
    assert_eq!(lua::get::<_, String>(&mut engine, -1), Ok("once".to_string()));
    let mut reference = 0;
    while reference < 8 {
        assert!(!engine.is_live(reference));
        reference += 1;
    }
}

#[test]
fn an_owned_handle_is_read_from_the_stack() {
    let mut engine = MemoryEngine::new();
    lua::push(&mut engine, 5i32);
    lua::push(&mut engine, "picked");
    let (handle, slots) = refs::OwnedRef::from_stack(&mut engine, 2).unwrap();
    assert_eq!(slots, 1);
    assert_eq!(engine.top(), 2);
    let reference = handle.into_reference();
    assert_eq!(text_behind(&mut engine, reference), Some("picked".to_string()));
}

#[test]
fn a_shared_handle_frees_with_its_last_clone() {
    let mut engine = MemoryEngine::new();
    let mailbox: Mailbox<NoJob> = Mailbox::new();
    lua::push(&mut engine, "shared");
    let first = ArcRef::new(&mut engine, 1);
    let second = first.clone();
    let third = ArcRef::from(pinned_text(&mut engine, "other"));
    lua::push(&mut engine, &second);
    assert_eq!(lua::get::<_, String>(&mut engine, -1), Ok("shared".to_string()));
    let mut cell = ThreadAffinity::new();
    set_lua_state_raw(&mut cell, engine);
    first.release(&mut cell, &mailbox);
    let mut engine = unset_lua_state_raw(&mut cell).unwrap();
    lua::push(&mut engine, &second);
    assert_eq!(lua::get::<_, String>(&mut engine, -1), Ok("shared".to_string()));
    lua::push(&mut engine, second);
    assert_eq!(lua::get::<_, String>(&mut engine, -1), Ok("shared".to_string()));
    lua::push(&mut engine, &third);
    assert_eq!(lua::get::<_, String>(&mut engine, -1), Ok("other".to_string()));
    let mut live = 0;
    let mut reference = 0;
    while reference < 8 {
        if engine.is_live(reference) {
            live += 1;
        }
        reference += 1;
    }
    assert_eq!(live, 1);
}

#[test]
fn the_cloneable_handle_frees_with_its_last_clone() {
    let mut engine = MemoryEngine::new();
    let mailbox: Mailbox<NoJob> = Mailbox::new();
    lua::push(&mut engine, "callback");
    let first = gmrs::OwnedRef::new(&mut engine, -1);
    let second = first.clone();
    let mut elsewhere: ThreadAffinity<MemoryEngine> = ThreadAffinity::new();
    first.release(&mut elsewhere, &mailbox);
    let mut engine = internal_think_loop(engine, &mailbox);
    assert_eq!(lua::push(&mut engine, second.clone()), 1);
    assert_eq!(lua::get::<_, String>(&mut engine, -1), Ok("callback".to_string()));
    second.release(&mut elsewhere, &mailbox);
    let mut engine = internal_think_loop(engine, &mailbox);
    let mut reference = 0;
    while reference < 8 {
        assert!(!engine.is_live(reference));
        reference += 1;
    }
    lua::push(&mut engine, "again");
    let last = gmrs::OwnedRef::from_top_of_stack(&mut engine);
    assert_eq!(lua::push(&mut engine, last), 1);
    assert_eq!(lua::get::<_, String>(&mut engine, -1), Ok("again".to_string()));
    let mut reference = 0;
    while reference < 8 {
        assert!(!engine.is_live(reference));
        reference += 1;
    }
}

#[test]
fn replace_hands_back_what_the_slot_held() {
    let mut engine = MemoryEngine::new();
    let a = pinned_text(&mut engine, "a");
    let b = pinned_text(&mut engine, "b");
    let slot = AtomicRef::nill();
    let previous = slot.replace(a);
    assert_eq!(previous.into_reference(), LUA_NOREF);
    lua::push(&mut engine, &slot);
    assert_eq!(lua::get::<_, String>(&mut engine, -1), Ok("a".to_string()));
    let previous = slot.replace(b);
    let previous = previous.into_reference();
    assert_eq!(text_behind(&mut engine, previous), Some("a".to_string()));
    lua::push(&mut engine, &slot.clone());
    assert_eq!(lua::get::<_, String>(&mut engine, -1), Ok("b".to_string()));
    let fallback = AtomicRef::default();
    lua::push(&mut engine, &fallback);
    assert_eq!(lua::get_type(&engine, -1), LuaType::Nil);
    lua::push(&mut engine, "top");
    let from_top = AtomicRef::from_top_of_stack(&mut engine);
    lua::push(&mut engine, &from_top);
    assert_eq!(lua::get::<_, String>(&mut engine, -1), Ok("top".to_string()));
    let at = AtomicRef::new(&mut engine, -1);
    lua::push(&mut engine, &at);
    assert_eq!(lua::get::<_, String>(&mut engine, -1), Ok("top".to_string()));
}

#[test]
fn two_threads_replace_at_once() {
    let mut engine = MemoryEngine::new();
    let mailbox: Mailbox<NoJob> = Mailbox::new();
    let initial = pinned_text(&mut engine, "initial");
    let first = pinned_text(&mut engine, "first");
    let second = pinned_text(&mut engine, "second");
    let slot = AtomicRef::from(initial);
    let (slot_a, slot_b) = (slot.clone(), slot.clone());
    let mailbox_ref = &mailbox;
    crossbeam::scope(move |scope| {
        let a = scope.spawn(move |_| {
            let mut elsewhere: ThreadAffinity<MemoryEngine> = ThreadAffinity::new();
            slot_a.replace(first).release(&mut elsewhere, mailbox_ref);
            slot_a.release(&mut elsewhere, mailbox_ref);
        });
        let b = scope.spawn(move |_| {
            let mut elsewhere: ThreadAffinity<MemoryEngine> = ThreadAffinity::new();
            slot_b.replace(second).release(&mut elsewhere, mailbox_ref);
            slot_b.release(&mut elsewhere, mailbox_ref);
        });
        a.join().unwrap();
        b.join().unwrap();
    })
    .unwrap();
    let mut engine = internal_think_loop(engine, &mailbox);
    let mut live = Vec::new();
    let mut reference = 0;
    while reference < 8 {
        if engine.is_live(reference) {
            live.push(text_behind(&mut engine, reference).unwrap());
        }
        reference += 1;
    }
    assert_eq!(live.len(), 1);
    assert!(live[0] == "first" || live[0] == "second");
    lua::push(&mut engine, &slot);
    assert_eq!(lua::get::<_, String>(&mut engine, -1), Ok(live[0].clone()));
    let mut cell = ThreadAffinity::new();
    set_lua_state_raw(&mut cell, engine);
    slot.release(&mut cell, &mailbox);
    let engine = unset_lua_state_raw(&mut cell).unwrap();
    let mut reference = 0;
    while reference < 8 {
        assert!(!engine.is_live(reference));
        reference += 1;
    }
}

#[test]
fn many_threads_replace_at_once() {
    let mut engine = MemoryEngine::new();
    let slot = AtomicRef::nill();
    let mut submitted = Vec::new();
    let mut handles = Vec::new();
    let mut n = 0;
    while n < 16 {
        lua::push(&mut engine, n);
        let handle = refs::OwnedRef::from_top_of_stack(&mut engine);
        handles.push((slot.clone(), handle));
        n += 1;
    }
    let mut reference = 0;
    while reference < 64 {
        if engine.is_live(reference) {
            submitted.push(reference);
        }
        reference += 1;
    }
    assert_eq!(submitted.len(), 16);
    let mut returned: Vec<i32> = crossbeam::scope(move |scope| {
        let mut workers = Vec::new();
        for (shared, handle) in handles {
            workers.push(scope.spawn(move |_| shared.replace(handle).into_reference()));
        }
        workers.into_iter().map(|worker| worker.join().unwrap()).collect()
    })
    .unwrap();
    lua::push(&mut engine, "end");
    let end = refs::OwnedRef::from_top_of_stack(&mut engine);
    let held = slot.replace(end).into_reference();
    assert!(submitted.contains(&held));
    returned.push(held);
    returned.sort();
    let mut expected = submitted.clone();
    expected.push(LUA_NOREF);
    expected.sort();
    assert_eq!(returned, expected);
}

#[test]
fn a_handle_made_for_nil_gives_nil_back() {
    let mut engine = MemoryEngine::new();
    lua::push_nil(&mut engine);
    let handle = refs::OwnedRef::from_top_of_stack(&mut engine);
    assert_eq!(handle.reference(), LUA_REFNIL);
    lua::push(&mut engine, "noise");
    assert_eq!(lua::push(&mut engine, &handle), 1);
    assert_eq!(engine.value_at(-1), Value::Nil);
    assert_eq!(lua::push(&mut engine, handle), 1);
    assert_eq!(engine.value_at(-1), Value::Nil);
}

#[test]
fn a_handle_gives_its_value_back_whatever_happened_in_between() {
    let mut engine = MemoryEngine::new();
    let kept = pinned_text(&mut engine, "kept");
    let other = pinned_text(&mut engine, "other").into_reference();
    lua::push(&mut engine, 1u8);
    lua::push(&mut engine, 2u8);
    lua::pop(&mut engine, 1);
    lua::reference_free(&mut engine, other);
    let more = pinned_text(&mut engine, "more");
    let kept = crossbeam::scope(move |scope| scope.spawn(move |_| kept).join().unwrap()).unwrap();
    assert_eq!(lua::push(&mut engine, &kept), 1);
    assert_eq!(lua::get::<_, String>(&mut engine, -1), Ok("kept".to_string()));
    assert_eq!(lua::push(&mut engine, &more), 1);
    assert_eq!(lua::get::<_, String>(&mut engine, -1), Ok("more".to_string()));
}
