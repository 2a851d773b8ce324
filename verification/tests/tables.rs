use gmrs::lua::bridge::LuaState;
use gmrs::lua::error::Error;
use gmrs::lua::memory::{MemoryEngine, Value};
use gmrs::lua::stack::{FromStack, FromStackError, ToStack};
use gmrs::lua::table::{FromTable, TableKey, TableView};
use gmrs::lua::{self, LuaSpecial, LuaType, NativeFunc, MULT_RET};
use gmrs::module::Module;

fn engine_with_hook_library() -> MemoryEngine {
    let mut engine = MemoryEngine::new();
    lua::push_special(&mut engine, LuaSpecial::Glob);
    let library = lua::create_table(&mut engine);
    library.set(&mut engine, TableKey::from("Add"), NativeFunc::new(1));
    library.set(&mut engine, TableKey::from("Remove"), NativeFunc::new(2));
    library.set(&mut engine, TableKey::from("Run"), NativeFunc::new(3));
    lua::set_field(&mut engine, 1, "hook");
    lua::pop(&mut engine, 1);
    engine
}

#[test]
fn a_table_keeps_what_is_set() {
    let mut engine = MemoryEngine::new();
    let table = lua::create_table(&mut engine);
    assert_eq!(table.stack_pos(), 1);
    table.set(&mut engine, TableKey::from("name"), "value");
    table.set(&mut engine, TableKey::from(3u32), 33i32);
    let owned = String::from("owned key");
    table.set(&mut engine, TableKey::from(&owned), true);
    assert_eq!(engine.top(), 1);
    assert_eq!(table.get::<_, String>(&mut engine, TableKey::from("name")), Ok("value".to_string()));
    assert_eq!(engine.top(), 2);
    assert_eq!(table.get::<_, i32>(&mut engine, TableKey::Integer(3)), Ok(33));
    assert_eq!(table.get::<_, bool>(&mut engine, TableKey::String("owned key")), Ok(true));
    assert_eq!(
        table.get::<_, i32>(&mut engine, TableKey::from("missing")),
        Err(Error::Generic(FromStackError::InvalidType {
            stack_pos: -1,
            expected_type: LuaType::Number,
            found_type: LuaType::Nil,
        }))
    );
    table.set(&mut engine, TableKey::from("name"), "changed");
    assert_eq!(table.get::<_, String>(&mut engine, TableKey::from("name")), Ok("changed".to_string()));
    table.unset(&mut engine, TableKey::from("name"));
    table.push_value(&mut engine, TableKey::from("name"));
    assert_eq!(engine.value_at(-1), Value::Nil);
    table.push_value(&mut engine, TableKey::from(3u32));
    assert_eq!(engine.value_at(-1), Value::Number(33));
}

#[test]
fn raw_table_access_takes_key_and_value_from_the_stack() {
    let mut engine = MemoryEngine::new();
    lua::create_table(&mut engine);
    lua::push(&mut engine, "k");
    lua::push(&mut engine, 12u8);
    lua::set_table(&mut engine, 1);
    assert_eq!(engine.top(), 1);
    lua::push(&mut engine, "k");
    lua::get_table(&mut engine, 1);
    assert_eq!(engine.top(), 2);
    assert_eq!(lua::get_number(&engine, -1), 12);
    lua::get_field(&mut engine, 1, "k");
    assert_eq!(lua::get_number(&engine, -1), 12);
    lua::push_nil(&mut engine);
    lua::set_field(&mut engine, 1, "k");
    lua::get_field(&mut engine, 1, "k");
    assert_eq!(lua::get_type(&engine, -1), LuaType::Nil);
}

#[test]
fn tables_are_told_apart_by_identity() {
    let mut engine = MemoryEngine::new();
    let first = lua::create_table(&mut engine);
    let second = lua::create_table(&mut engine);
    assert_eq!(second.stack_pos(), 2);
    first.set(&mut engine, TableKey::from("x"), 1u8);
    assert!(second.get::<_, u8>(&mut engine, TableKey::from("x")).is_err());
    lua::pop(&mut engine, 1);
    assert_eq!(lua::push(&mut engine, first), 1);
    let copy = TableView::new(&engine, -1);
    assert_eq!(copy.stack_pos(), 3);
    assert_eq!(copy.get::<_, u8>(&mut engine, TableKey::from("x")), Ok(1));
    assert_eq!(TableView::from_stack(&mut engine, 1), Ok((first, 1)));
    assert_eq!(TableView::from_stack(&mut engine, -4).map(|(view, _)| view.stack_pos()), Ok(1));
    assert!(TableView::from_stack(&mut engine, -1).is_err());
}

#[test]
fn metatables() {
    let mut engine = MemoryEngine::new();
    lua::create_table(&mut engine);
    assert!(!lua::get_metatable(&mut engine, 1));
    assert_eq!(engine.top(), 1);
    lua::create_table(&mut engine);
    lua::push(&mut engine, "marker");
    lua::set_field(&mut engine, 2, "is");
    lua::set_metatable(&mut engine, 1);
    assert_eq!(engine.top(), 1);
    assert!(lua::get_metatable(&mut engine, 1));
    assert_eq!(engine.top(), 2);
    lua::get_field(&mut engine, -1, "is");
    assert_eq!(lua::get_string_bytes(&engine, -1), b"marker".to_vec());
    lua::push_nil(&mut engine);
    lua::set_metatable(&mut engine, 1);
    assert!(!lua::get_metatable(&mut engine, 1));
}

#[test]
fn the_special_tables_are_three_tables() {
    let mut engine = MemoryEngine::new();
    lua::push_special(&mut engine, LuaSpecial::Glob);
    lua::push_special(&mut engine, LuaSpecial::Env);
    lua::push_special(&mut engine, LuaSpecial::Reg);
    assert_eq!(engine.value_at(1), Value::Table(0));
    assert_eq!(engine.value_at(2), Value::Table(1));
    assert_eq!(engine.value_at(3), Value::Table(2));
    lua::push_special(&mut engine, LuaSpecial::Glob);
    assert_eq!(engine.value_at(4), engine.value_at(1));
}

#[test]
fn set_global_writes_into_the_global_table() {
    let mut engine = MemoryEngine::new();
    gmrs::set_global(&mut engine, "answer", 42u8);
    assert_eq!(engine.top(), 0);
    lua::push_special(&mut engine, LuaSpecial::Glob);
    lua::get_field(&mut engine, -1, "answer");
    assert_eq!(lua::get_number(&engine, -1), 42);
    gmrs::set_global(&mut engine, "native", NativeFunc::new(0xbeef));
    lua::get_field(&mut engine, 1, "native");
    assert_eq!(engine.value_at(-1), Value::Function(0xbeef));
}

#[test]
fn a_call_is_put_on_record() {
    let mut engine = MemoryEngine::new();
    lua::push(&mut engine, "below");
    lua::push_c_function(&mut engine, 77);
    lua::push(&mut engine, 1u8);
    lua::push(&mut engine, "two");
    assert!(lua::pcall(&mut engine, 2, 3));
    assert_eq!(engine.top(), 4);
    assert_eq!(lua::get_type(&engine, 2), LuaType::Nil);
    assert_eq!(engine.call_count(), 1);
    assert_eq!(engine.call_callee(0), Value::Function(77));
    assert_eq!(engine.call_arg_count(0), 2);
    assert_eq!(engine.call_arg(0, 0), Value::Number(1));
    assert_eq!(engine.call_arg(0, 1), Value::String(b"two".to_vec()));
    lua::push_c_function(&mut engine, 78);
    assert!(lua::pcall(&mut engine, 0, MULT_RET));
    assert_eq!(engine.top(), 4);
    lua::push_c_function(&mut engine, 79);
    lua::call(&mut engine, 0, 1);
    assert_eq!(engine.top(), 5);
    assert_eq!(engine.call_count(), 3);
}

#[test]
fn calling_what_is_no_function_fails() {
    let mut engine = MemoryEngine::new();
    lua::push(&mut engine, "not callable");
    lua::push(&mut engine, 1u8);
    assert!(!lua::pcall(&mut engine, 1, 0));
    assert_eq!(engine.top(), 1);
    assert_eq!(lua::get_type(&engine, -1), LuaType::String);
    lua::push_nil(&mut engine);
    let outcome = lua::pcall_result(&mut engine, 0, 0);
    assert_eq!(
        outcome,
        Err(Error::CustomBytes(b"attempt to call a value that is no function".to_vec()))
    );
    assert_eq!(engine.top(), 1);
    lua::push_c_function(&mut engine, 5);
    assert_eq!(lua::pcall_result(&mut engine, 0, 2), Ok(()));
    assert_eq!(engine.top(), 3);
}

#[test]
fn the_arguments_that_a_function_pushes_are_counted() {
    let mut engine = MemoryEngine::new();
    lua::push_c_function(&mut engine, 10);
    let ok = lua::pcall_with(&mut engine, 0, |state: &mut MemoryEngine| {
        lua::push(state, 1u8);
        lua::push(state, 2u8);
        lua::push(state, 3u8);
    });
    assert!(ok);
    assert_eq!(engine.call_arg_count(0), 3);
    assert_eq!(engine.call_arg(0, 2), Value::Number(3));
    assert_eq!(engine.top(), 0);
    lua::push_nil(&mut engine);
    let outcome = lua::pcall_result_with(&mut engine, 0, |state: &mut MemoryEngine| {
        lua::push(state, "lonely");
    });
    assert!(matches!(outcome, Err(Error::CustomBytes(_))));
    assert_eq!(engine.call_arg_count(1), 1);
    assert_eq!(engine.top(), 0);
}

#[test]
fn print_calls_the_global_print() {
    let mut engine = MemoryEngine::new();
    gmrs::set_global(&mut engine, "print", NativeFunc::new(0x9e));
    gmrs::print(&mut engine, "hello console");
    assert_eq!(engine.top(), 0);
    assert_eq!(engine.call_count(), 1);
    assert_eq!(engine.call_callee(0), Value::Function(0x9e));
    assert_eq!(engine.call_arg_count(0), 1);
    assert_eq!(engine.call_arg(0, 0), Value::String(b"hello console".to_vec()));
}

#[test]
fn hooks_are_added_removed_and_run_through_the_hook_library() {
    let mut engine = engine_with_hook_library();
    assert!(gmrs::hook_add(&mut engine, "Tick", "mine", NativeFunc::new(0x44)));
    assert_eq!(engine.call_callee(0), Value::Function(1));
    assert_eq!(engine.call_arg_count(0), 3);
    assert_eq!(engine.call_arg(0, 0), Value::String(b"Tick".to_vec()));
    assert_eq!(engine.call_arg(0, 1), Value::String(b"mine".to_vec()));
    assert_eq!(engine.call_arg(0, 2), Value::Function(0x44));
    assert!(gmrs::hook_remove(&mut engine, "Tick", "mine"));
    assert_eq!(engine.call_callee(1), Value::Function(2));
    assert_eq!(engine.call_arg_count(1), 2);
    let before = engine.top();
    let ok = gmrs::hook_run(&mut engine, "PlayerSay", |state: &mut MemoryEngine| {
        lua::push(state, "first");
        lua::push(state, 2u8);
    });
    assert_eq!(engine.call_count(), 3);
    assert_eq!(engine.call_callee(2), Value::Function(3));
    assert_eq!(engine.call_arg_count(2), 3);
    assert_eq!(engine.call_arg(2, 0), Value::String(b"PlayerSay".to_vec()));
    assert_eq!(engine.call_arg(2, 1), Value::String(b"first".to_vec()));
    assert_eq!(engine.call_arg(2, 2), Value::Number(2));
    assert!(ok);
    assert_eq!(engine.top(), before + 2);
}

#[test]
fn a_hook_that_is_missing_in_the_library_fails() {
    let mut engine = MemoryEngine::new();
    lua::push_special(&mut engine, LuaSpecial::Glob);
    lua::create_table(&mut engine);
    lua::set_field(&mut engine, 1, "hook");
    lua::pop(&mut engine, 1);
    assert!(!gmrs::hook_add(&mut engine, "Tick", "mine", NativeFunc::new(0x44)));
    assert_eq!(engine.call_callee(0), Value::Nil);
    assert_eq!(engine.top(), 3);
}

struct Point {
    x: i32,
    y: i32,
}

impl FromTable for Point {
    fn can_read_table(_engine: gmrs::lua::bridge::EngineView, _tbl: TableView) -> bool {
        true
    }

    fn reads_table(
        _before: gmrs::lua::bridge::EngineView,
        _tbl: TableView,
        _read: Result<Self, Error>,
        _after: gmrs::lua::bridge::EngineView,
    ) -> bool {
        true
    }

    fn from_table<S: LuaState>(state: &mut S, tbl: TableView) -> Result<Self, Error> {
        let x = tbl.get::<S, i32>(state, TableKey::from("x"))?;
        let y = tbl.get::<S, i32>(state, TableKey::from("y"))?;
        lua::pop(state, 2);
        Ok(Point { x, y })
    }
}

#[test]
fn a_native_value_is_read_out_of_a_table() {
    let mut engine = MemoryEngine::new();
    let table = lua::create_table(&mut engine);
    table.set(&mut engine, TableKey::from("x"), 3i32);
    table.set(&mut engine, TableKey::from("y"), -4i32);
    let (point, slots) = Point::from_stack(&mut engine, -1).ok().unwrap();
    assert_eq!((point.x, point.y, slots), (3, -4, 1));
    assert_eq!(engine.top(), 1);
    lua::push(&mut engine, "no table");
    assert_eq!(
        Point::from_stack(&mut engine, -1).err(),
        Some(Error::Generic(FromStackError::InvalidType {
            stack_pos: -1,
            expected_type: LuaType::Table,
            found_type: LuaType::String,
        }))
    );
}

#[test]
fn a_registered_function_is_a_global_while_the_module_is_loaded() {
    let mut engine = MemoryEngine::new();
    gmrs::set_global(&mut engine, "native_add", NativeFunc::new(0xadd));
    lua::push_special(&mut engine, LuaSpecial::Glob);
    lua::get_field(&mut engine, -1, "native_add");
    assert_eq!(engine.value_at(-1), Value::Function(0xadd));
    lua::pop(&mut engine, 2);
    let mut module = Module::from_raw(engine);
    module.register_function("native_sub", 0x5b);
    let table = module.create_table();
    module.set_global("kept", table);
    let mut engine = module.unload();
    lua::get_field(&mut engine, -1, "native_add");
    assert_eq!(engine.value_at(-1), Value::Function(0xadd));
    lua::get_field(&mut engine, 2, "native_sub");
    assert_eq!(engine.value_at(-1), Value::Nil);
    lua::get_field(&mut engine, 2, "kept");
    assert_eq!(engine.value_at(-1), engine.value_at(1));
}

#[test]
fn a_module_registers_globals() {
    let mut module = Module::from_raw(MemoryEngine::new());
    module.register_function("native_add", 0xadd);
    let table = module.create_table();
    assert_eq!(table.stack_pos(), 1);
    module.set_global("limit", 10u8);
    let mut engine = module.unload();
    assert_eq!(engine.top(), 2);
    lua::get_field(&mut engine, -1, "native_add");
    assert_eq!(engine.value_at(-1), Value::Nil);
    lua::get_field(&mut engine, 2, "limit");
    assert_eq!(lua::get_number(&engine, -1), 10);
    assert_eq!(NativeFunc::new(4).push(&mut engine), 1);
}
