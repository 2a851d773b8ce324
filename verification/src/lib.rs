//! Bridge between native extension code and an embedded, single-threaded Lua engine.
//!
//! The engine may only be touched from the thread that drives it. Everything here takes the
//! engine access it needs as an explicit argument, so that a worker thread, which has none,
//! can only queue work for the owning thread.

use vstd::prelude::*;

pub mod channel;
pub mod internal;
pub mod lua;
pub mod module;
pub mod owned_ref;
pub mod prelude;
pub mod refs;

pub use internal::{get_lua_state, remote_execute};
pub use owned_ref::OwnedRef;

use lua::bridge::{field_key, EngineView, LuaState, LuaValue};
use lua::stack::ToStack;
use lua::{grown, LuaSpecial};

verus! {

/// The global table, as a value.
pub open spec fn globals_of(engine: EngineView) -> LuaValue {
    LuaValue::Table(engine.globals)
}

/// What the global `hook` is.
pub open spec fn hook_library(engine: EngineView) -> LuaValue {
    engine.raw_get(engine.globals, field_key("hook"@))
}

/// The host offers its hook library: the global `hook` is a table.
pub open spec fn has_hook_library(engine: EngineView) -> bool {
    engine.table(engine.globals).entries.contains_key(field_key("hook"@)) && hook_library(
        engine,
    ) is Table
}

/// The engine with the global table, the hook library and the library's function `function`
/// pushed, in this order.
pub open spec fn with_hook_function(engine: EngineView, function: LuaValue) -> EngineView {
    engine.pushed(globals_of(engine)).pushed(hook_library(engine)).pushed(function)
}

/// Whether looking `name` up in the hook library may give `function`.
pub open spec fn hook_function_reads(engine: EngineView, name: Seq<char>, function: LuaValue) -> bool {
    engine.reads(hook_library(engine)->Table_0, field_key(name), function)
}

/// Pushes the global table, the hook library and the library's function `name`.
fn push_hook_function<S: LuaState>(state: &mut S, name: &str)
    requires
        has_hook_library(old(state)@),
        old(state)@.has_room(3),
    ensures
        final(state)@ == with_hook_function(old(state)@, final(state)@.stack.last()),
        hook_function_reads(old(state)@, name@, final(state)@.stack.last()),
{
    lua::push_special(state, LuaSpecial::Glob);
    lua::get_field(state, -1, "hook");
    lua::get_field(state, -1, name);
}

/// Prints the message using the host's `print` function, the message should show up on the
/// console.
pub fn print<S: LuaState>(state: &mut S, message: &str)
    requires
        old(state)@.has_room(3),
    ensures
        exists|function: LuaValue, called: EngineView| #[trigger]
            old(state)@.pushed(globals_of(old(state)@)).pushed(function).pushed(
                LuaValue::String(vstd::utf8::encode_utf8(message@)),
            ).calls_into(1, 0, true, called) && old(state)@.reads(
                old(state)@.globals,
                field_key("print"@),
                function,
            ) && final(state)@ == called.popped(1),
{
    lua::push_special(state, LuaSpecial::Glob);
    lua::get_field(state, -1, "print");
    let ghost function = state@.stack.last();
    lua::push_string(state, message);
    let ghost pushed = state@;
    lua::call(state, 1, 0);
    let ghost called = state@;
    lua::pop(state, 1);
    assert(pushed.calls_into(1, 0, true, called));
}

/// Whether `hook.<name>(args...)` with a last argument pushed by `val` may lead from `before`
/// to `after`: `ok` says whether the call ran to its end. The global table and the hook
/// library stay on the stack below what the call left.
pub open spec fn hook_called<T: ToStack>(
    before: EngineView,
    name: Seq<char>,
    args: Seq<LuaValue>,
    val: T,
    ok: bool,
    after: EngineView,
) -> bool {
    exists|function: LuaValue, pushed: EngineView| #[trigger]
        val.pushes(with_args(with_hook_function(before, function), args), pushed)
            && hook_function_reads(before, name, function) && grown(
            with_args(with_hook_function(before, function), args),
            pushed,
        ) && pushed.calls_into(args.len() as int + 1, 0, ok, after)
}

/// The engine with `args` pushed.
pub open spec fn with_args(engine: EngineView, args: Seq<LuaValue>) -> EngineView {
    EngineView { stack: engine.stack + args, ..engine }
}

/// Two texts as arguments of a call.
pub open spec fn texts(first: Seq<char>, second: Seq<char>) -> Seq<LuaValue> {
    seq![text_value(first), text_value(second)]
}

/// What a text is to the engine.
pub open spec fn text_value(text: Seq<char>) -> LuaValue {
    LuaValue::String(vstd::utf8::encode_utf8(text))
}

/// Equivalent to `hook.Add(event, id, callback)`. Returns whether the call ran to its end.
pub fn hook_add<S: LuaState, T: ToStack>(state: &mut S, event: &str, id: &str, val: T) -> (ok: bool)
    requires
        has_hook_library(old(state)@),
        old(state)@.has_room(6),
        val.slots() == 1,
        forall|function: LuaValue| #[trigger]
            val.can_push(
                with_args(
                    with_hook_function(old(state)@, function),
                    texts(event@, id@),
                ),
            ),
    ensures
        hook_called(
            old(state)@,
            "Add"@,
            texts(event@, id@),
            val,
            ok,
            final(state)@,
        ),
{
    push_hook_function(state, "Add");
    let ghost function = state@.stack.last();
    lua::push(state, event);
    lua::push(state, id);
    let ghost framed = state@;
    assert(framed =~= with_args(
        with_hook_function(old(state)@, function),
        texts(event@, id@),
    ));
    lua::push(state, val);
    let ghost pushed = state@;
    assert(val.pushes(framed, pushed));
    assert(grown(framed, pushed));
    lua::pcall(state, 3, 0)
}

/// Equivalent to `hook.Remove(event, id)`. Returns whether the call ran to its end.
pub fn hook_remove<S: LuaState>(state: &mut S, event: &str, id: &str) -> (ok: bool)
    requires
        has_hook_library(old(state)@),
        old(state)@.has_room(5),
    ensures
        hook_called(old(state)@, "Remove"@, seq![text_value(event@)], id, ok, final(state)@),
{
    push_hook_function(state, "Remove");
    let ghost function = state@.stack.last();
    lua::push(state, event);
    let ghost framed = state@;
    assert(framed =~= with_args(
        with_hook_function(old(state)@, function),
        seq![text_value(event@)],
    ));
    lua::push(state, id);
    let ghost pushed = state@;
    assert(id.pushes(framed, pushed));
    assert(grown(framed, pushed));
    lua::pcall(state, 2, 0)
}

/// The engine as [`hook_run`] hands it to the function that pushes the arguments: the global
/// table, the hook library, its function `function` and the name of the hook are on the stack.
pub open spec fn run_frame(engine: EngineView, function: LuaValue, name: Seq<char>) -> EngineView {
    with_hook_function(engine, function).pushed(text_value(name))
}

/// Runs hook with name `name` by calling `hook.Run`.
/// `func` should push the parameters to the stack. The library's function is called with
/// the name of the hook and, after it, what `func` pushed. Returns whether the call ran to
/// its end.
pub fn hook_run<S: LuaState, F: FnOnce(&mut S)>(state: &mut S, name: &str, func: F) -> (ok: bool)
    requires
        has_hook_library(old(state)@),
        old(state)@.has_room(4),
        forall|s: &mut S, function: LuaValue|
            (*s)@ == run_frame(old(state)@, function, name@) ==> call_requires(func, (s,)),
        forall|s: &mut S, function: LuaValue|
            (*s)@ == run_frame(old(state)@, function, name@) && call_ensures(func, (s,), ())
                ==> grown((*s)@, (*final(s))@),
    ensures
        exists|function: LuaValue, pushed: EngineView| #[trigger]
            grown(run_frame(old(state)@, function, name@), pushed) && hook_function_reads(
                old(state)@,
                "Run"@,
                function,
            ) && pushed.calls_into(
                pushed.top() - run_frame(old(state)@, function, name@).top() + 1,
                0,
                ok,
                final(state)@,
            ),
{
    push_hook_function(state, "Run");
    let ghost function = state@.stack.last();
    lua::push(state, name);
    assert(state@ == run_frame(old(state)@, function, name@));
    let size_before_args: i32 = lua::top(&*state);
    func(state);
    let size_after_args: i32 = lua::top(&*state);
    let arg_count: i32 = size_after_args - size_before_args;
    let ghost pushed = state@;
    assert(grown(run_frame(old(state)@, function, name@), pushed));
    lua::pcall(state, arg_count + 1, 0)
}

/// Sets a value on the global table.
pub fn set_global<S: LuaState, T: ToStack>(state: &mut S, key: &str, value: T)
    requires
        old(state)@.has_room(1),
        value.slots() == 1,
        value.can_push(old(state)@.pushed(globals_of(old(state)@))),
    ensures
        exists|pushed: EngineView, written: EngineView| #[trigger]
            value.pushes(old(state)@.pushed(globals_of(old(state)@)), pushed) && grown(
                old(state)@.pushed(globals_of(old(state)@)),
                pushed,
            ) && #[trigger] pushed.popped(1).writes(
                old(state)@.globals,
                field_key(key@),
                pushed.stack.last(),
                written,
            ) && final(state)@ == written.popped(1),
{
    lua::push_special(state, LuaSpecial::Glob);
    let ghost based = state@;
    lua::push(state, value);
    let ghost pushed = state@;
    assert(pushed.stack.take(based.top())[based.top() - 1] == based.stack[based.top() - 1]);
    lua::set_field(state, -2, key);
    let ghost written = state@;
    assert(written.stack =~= pushed.popped(1).stack);
    lua::pop(state, 1);
    assert(value.pushes(old(state)@.pushed(globals_of(old(state)@)), pushed) && grown(
        old(state)@.pushed(globals_of(old(state)@)),
        pushed,
    ) && pushed.popped(1).writes(
        old(state)@.globals,
        field_key(key@),
        pushed.stack.last(),
        written,
    ));
}

} // verus!
