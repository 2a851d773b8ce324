use gmrs::lua::bridge::{EngineView, LuaState, NativeObject};
use gmrs::lua::closure::{closure, closure_call, closure_gc, push_closure, ClosureTable};
use gmrs::lua::error::Error;
use gmrs::lua::memory::{MemoryEngine, Value};
use gmrs::lua::stack::FromStackError;
use gmrs::lua::user_data::{
    user_data_gc, MetatableBuilder, MethodList, UserData, UserDataRegistry, UserType,
};
use gmrs::lua::{self, LuaType, NativeOutcome};
use std::sync::atomic::{AtomicUsize, Ordering};
use std::sync::Arc;

struct Counter {
    count: u32,
    dropped: Arc<AtomicUsize>,
    torn_down: Arc<AtomicUsize>,
}

impl Drop for Counter {
    fn drop(&mut self) {
        self.dropped.fetch_add(1, Ordering::SeqCst);
    }
}

impl UserType for Counter {
    fn methods() -> MethodList {
        unreachable!()
    }

    fn build_metatable(builder: &mut MetatableBuilder<Self>) {
        builder.method("increment", 0x111);
        builder.method("get", 0x222);
    }

    fn tears_down(_before: Self, _engine: EngineView, _after: Self, _left: EngineView) -> bool {
        true
    }

    fn lua_drop<S: LuaState>(&mut self, state: &mut S) {
        self.torn_down.fetch_add(1, Ordering::SeqCst);
        lua::push(state, "torn down");
    }
}

struct Other;

impl UserType for Other {
    fn methods() -> MethodList {
        unreachable!()
    }

    fn build_metatable(_builder: &mut MetatableBuilder<Self>) {}

    fn tears_down(_before: Self, _engine: EngineView, _after: Self, _left: EngineView) -> bool {
        true
    }

    fn lua_drop<S: LuaState>(&mut self, _state: &mut S) {}
}

fn counter(dropped: &Arc<AtomicUsize>, torn_down: &Arc<AtomicUsize>) -> UserData<Counter> {
    UserData::new(Counter { count: 0, dropped: dropped.clone(), torn_down: torn_down.clone() })
}

#[test]
fn a_type_is_registered_with_its_methods() {
    let mut engine = MemoryEngine::new();
    lua::push(&mut engine, "below");
    let _registry = UserDataRegistry::<Counter>::register(&mut engine, 0x6c);
    assert_eq!(engine.top(), 1);
    assert!(engine.is_live(0));
    lua::reference_push(&mut engine, 0);
    assert_eq!(lua::get_type(&engine, -1), LuaType::Table);
    lua::get_field(&mut engine, 2, "increment");
    assert_eq!(engine.value_at(-1), Value::Function(0x111));
    lua::get_field(&mut engine, 2, "get");
    assert_eq!(engine.value_at(-1), Value::Function(0x222));
    lua::get_field(&mut engine, 2, "__gc");
    assert_eq!(engine.value_at(-1), Value::Function(0x6c));
    lua::get_field(&mut engine, 2, "__index");
    assert_eq!(engine.value_at(-1), engine.value_at(2));
}

#[test]
fn an_object_goes_to_the_engine_and_comes_back_as_the_same_object() {
    let (dropped, torn_down) = (Arc::new(AtomicUsize::new(0)), Arc::new(AtomicUsize::new(0)));
    let mut engine = MemoryEngine::new();
    let mut registry = UserDataRegistry::<Counter>::register(&mut engine, 0x6c);
    let handle = counter(&dropped, &torn_down);
    handle.with(|value| value.count += 5);
    assert_eq!(registry.push(&mut engine, handle.clone()), 1);
    assert_eq!(engine.top(), 1);
    assert_eq!(lua::get_type(&engine, 1), LuaType::UserData);
    assert!(lua::get_metatable(&mut engine, 1));
    lua::get_field(&mut engine, -1, "get");
    assert_eq!(engine.value_at(-1), Value::Function(0x222));
    let (back, slots) = registry.from_stack(&engine, 1).unwrap();
    assert_eq!(slots, 1);
    assert!(back.ptr_eq(&handle));
    back.with(|value| value.count += 1);
    assert_eq!(handle.with(|value| value.count), 6);
    assert_eq!(back.lock().count, 6);
    let stranger = counter(&dropped, &torn_down);
    assert!(!stranger.ptr_eq(&handle));
    assert_eq!(stranger.with(|value| value.count), 0);
}

#[test]
fn a_text_is_never_taken_for_a_native_object() {
    let mut engine = MemoryEngine::new();
    let registry = UserDataRegistry::<Counter>::register(&mut engine, 0x6c);
    lua::push(&mut engine, "just text");
    assert_eq!(
        registry.from_stack(&engine, -1).err(),
        Some(Error::Generic(FromStackError::InvalidUserdataType))
    );
    lua::push(&mut engine, 12u8);
    assert!(registry.from_stack(&engine, -1).is_err());
    lua::create_table(&mut engine);
    assert!(registry.from_stack(&engine, -1).is_err());
    assert!(registry.from_stack(&engine, 9).is_err());
    assert_eq!(lua::get_user_data(&engine, 1), None);
}

#[test]
fn an_object_of_another_type_is_refused() {
    let (dropped, torn_down) = (Arc::new(AtomicUsize::new(0)), Arc::new(AtomicUsize::new(0)));
    let mut engine = MemoryEngine::new();
    let mut counters = UserDataRegistry::<Counter>::register(&mut engine, 0x6c);
    let mut others = UserDataRegistry::<Other>::register(&mut engine, 0x6d);
    counters.push(&mut engine, counter(&dropped, &torn_down));
    others.push(&mut engine, UserData::new(Other));
    assert!(counters.from_stack(&engine, 1).is_ok());
    assert_eq!(
        counters.from_stack(&engine, 2).err(),
        Some(Error::Generic(FromStackError::InvalidUserdataType))
    );
    assert!(others.from_stack(&engine, 2).is_ok());
    assert_eq!(
        others.from_stack(&engine, 1).err(),
        Some(Error::Generic(FromStackError::InvalidUserdataType))
    );
}

#[test]
fn the_collector_tears_an_allocation_down_once() {
    let (dropped, torn_down) = (Arc::new(AtomicUsize::new(0)), Arc::new(AtomicUsize::new(0)));
    let mut engine = MemoryEngine::new();
    let mut registry = UserDataRegistry::<Counter>::register(&mut engine, 0x6c);
    let handle = counter(&dropped, &torn_down);
    let clone = handle.clone();
    registry.push(&mut engine, handle);
    user_data_gc(&mut engine, &mut registry);
    assert_eq!(torn_down.load(Ordering::SeqCst), 1);
    assert_eq!(dropped.load(Ordering::SeqCst), 0);
    assert_eq!(lua::get_string_bytes(&engine, -1), b"torn down".to_vec());
    assert!(registry.from_stack(&engine, 1).is_err());
    user_data_gc(&mut engine, &mut registry);
    assert_eq!(torn_down.load(Ordering::SeqCst), 1);
    assert_eq!(clone.with(|value| value.count), 0);
    drop(clone);
    assert_eq!(dropped.load(Ordering::SeqCst), 1);
}

#[test]
fn the_collector_leaves_other_values_alone() {
    let (dropped, torn_down) = (Arc::new(AtomicUsize::new(0)), Arc::new(AtomicUsize::new(0)));
    let mut engine = MemoryEngine::new();
    let mut registry = UserDataRegistry::<Counter>::register(&mut engine, 0x6c);
    lua::push(&mut engine, "first argument");
    registry.push(&mut engine, counter(&dropped, &torn_down));
    user_data_gc(&mut engine, &mut registry);
    assert_eq!(torn_down.load(Ordering::SeqCst), 0);
    assert!(registry.from_stack(&engine, 2).is_ok());
    assert_eq!(engine.top(), 2);
}

type Callback = Box<dyn FnMut(&mut MemoryEngine) -> Result<i32, Error>>;

#[test]
fn a_closure_is_pushed_called_and_collected() {
    let mut engine = MemoryEngine::new();
    let mut table: ClosureTable<Callback> = ClosureTable::new();
    lua::push(&mut engine, 20i32);
    let double: Callback = Box::new(|state: &mut MemoryEngine| {
        let given = lua::get::<_, i32>(state, 1)?;
        Ok(given * 2)
    });
    push_closure(&mut engine, &mut table, double, 0xca11, 0x6c);
    assert_eq!(engine.top(), 2);
    assert_eq!(lua::get_type(&engine, -1), LuaType::Function);
    engine.enter_closure(-1);
    assert_eq!(lua::get_type(&engine, lua::upvalue_index(1)), LuaType::UserData);
    assert!(lua::get_metatable(&mut engine, lua::upvalue_index(1)));
    lua::get_field(&mut engine, -1, "__gc");
    assert_eq!(engine.value_at(-1), Value::Function(0x6c));
    lua::pop(&mut engine, 3);
    let outcome = closure_call::<_, Callback, i32>(&mut engine, &mut table);
    assert_eq!(outcome, NativeOutcome::Returned(1));
    assert_eq!(lua::get_number(&engine, -1), 40);
    lua::pop(&mut engine, 2);
    lua::push(&mut engine, "not a number");
    let outcome = closure_call::<_, Callback, i32>(&mut engine, &mut table);
    assert_eq!(
        outcome,
        NativeOutcome::Raised(b"Invalid argument at position 1, expected Number found String\0".to_vec())
    );
    lua::pop(&mut engine, 1);
    lua::push_copy(&mut engine, lua::upvalue_index(1));
    assert_eq!(closure_gc(&engine, &mut table), 0);
    let outcome = closure_call::<_, Callback, i32>(&mut engine, &mut table);
    assert_eq!(outcome, NativeOutcome::Raised(b"Invalid userdata type\0".to_vec()));
    assert_eq!(closure_gc(&engine, &mut table), 0);
}

#[test]
fn a_call_outside_a_closure_reaches_no_closure() {
    let mut engine = MemoryEngine::new();
    let mut table: ClosureTable<Callback> = ClosureTable::new();
    let made = closure(&mut table, Box::new(|_state: &mut MemoryEngine| Ok(1)) as Callback, 1, 2);
    assert_eq!(made.object.slot, 0);
    assert_eq!((made.call, made.gc), (1, 2));
    let outcome = closure_call::<_, Callback, i32>(&mut engine, &mut table);
    assert_eq!(outcome, NativeOutcome::Raised(b"Invalid userdata type\0".to_vec()));
    lua::new_user_data(&mut engine, NativeObject { ty: made.object.ty, slot: 7 });
    assert_eq!(lua::get_user_data(&engine, 1).map(|object| object.slot), Some(7));
    assert_eq!(closure_gc(&engine, &mut table), 0);
    lua::push(&mut engine, made);
    engine.enter_closure(-1);
    let outcome = closure_call::<_, Callback, i32>(&mut engine, &mut table);
    assert_eq!(outcome, NativeOutcome::Returned(1));
}

#[test]
fn a_closure_keeps_what_it_changes_of_itself() {
    let mut engine = MemoryEngine::new();
    let mut table: ClosureTable<Callback> = ClosureTable::new();
    let mut calls = 0;
    let counting: Callback = Box::new(move |_state: &mut MemoryEngine| {
        calls += 1;
        Ok(calls)
    });
    push_closure(&mut engine, &mut table, counting, 1, 2);
    engine.enter_closure(-1);
    assert_eq!(closure_call::<_, Callback, i32>(&mut engine, &mut table), NativeOutcome::Returned(1));
    assert_eq!(lua::get_number(&engine, -1), 1);
    assert_eq!(closure_call::<_, Callback, i32>(&mut engine, &mut table), NativeOutcome::Returned(1));
    assert_eq!(lua::get_number(&engine, -1), 2);
    assert_eq!(closure_call::<_, Callback, i32>(&mut engine, &mut table), NativeOutcome::Returned(1));
    assert_eq!(lua::get_number(&engine, -1), 3);
}

#[test]
fn an_emptied_slot_is_the_first_to_be_used_again() {
    let (dropped, torn_down) = (Arc::new(AtomicUsize::new(0)), Arc::new(AtomicUsize::new(0)));
    let mut engine = MemoryEngine::new();
    let mut registry = UserDataRegistry::<Counter>::register(&mut engine, 0x6c);
    registry.push(&mut engine, counter(&dropped, &torn_down));
    registry.push(&mut engine, counter(&dropped, &torn_down));
    assert_eq!(lua::get_user_data(&engine, 1).map(|object| object.slot), Some(0));
    assert_eq!(lua::get_user_data(&engine, 2).map(|object| object.slot), Some(1));
    user_data_gc(&mut engine, &mut registry);
    assert_eq!(dropped.load(Ordering::SeqCst), 1);
    registry.push(&mut engine, counter(&dropped, &torn_down));
    assert_eq!(lua::get_user_data(&engine, -1).map(|object| object.slot), Some(0));
    registry.push(&mut engine, counter(&dropped, &torn_down));
    assert_eq!(lua::get_user_data(&engine, -1).map(|object| object.slot), Some(2));
    assert!(registry.from_stack(&engine, 2).is_ok());

    let mut table: ClosureTable<Callback> = ClosureTable::new();
    let first = closure(&mut table, Box::new(|_state: &mut MemoryEngine| Ok(1)) as Callback, 1, 2);
    let second = closure(&mut table, Box::new(|_state: &mut MemoryEngine| Ok(2)) as Callback, 1, 2);
    assert_eq!((first.object.slot, second.object.slot), (0, 1));
    let mut scratch = MemoryEngine::new();
    lua::new_user_data(&mut scratch, first.object);
    closure_gc(&scratch, &mut table);
    let third = closure(&mut table, Box::new(|_state: &mut MemoryEngine| Ok(3)) as Callback, 1, 2);
    assert_eq!(third.object.slot, 0);
}

#[test]
fn of_two_methods_with_one_name_the_later_one_stays() {
    struct Twice;
    impl UserType for Twice {
        fn methods() -> MethodList {
            unreachable!()
        }

        fn build_metatable(builder: &mut MetatableBuilder<Self>) {
            builder.method("get", 1);
            builder.method("set", 2);
            builder.method("get", 3);
            builder.method("__gc", 4);
        }

        fn tears_down(_before: Self, _engine: EngineView, _after: Self, _left: EngineView) -> bool {
            true
        }

        fn lua_drop<S: LuaState>(&mut self, _state: &mut S) {}
    }
    let mut engine = MemoryEngine::new();
    let _registry = UserDataRegistry::<Twice>::register(&mut engine, 0x6c);
    lua::reference_push(&mut engine, 0);
    lua::get_field(&mut engine, 1, "get");
    assert_eq!(engine.value_at(-1), Value::Function(3));
    lua::get_field(&mut engine, 1, "set");
    assert_eq!(engine.value_at(-1), Value::Function(2));
    lua::get_field(&mut engine, 1, "__gc");
    assert_eq!(engine.value_at(-1), Value::Function(0x6c));
}
