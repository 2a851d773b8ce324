//! A native module as the host loads it: the engine access that it was loaded with, and the
//! globals that it has to take back when it is unloaded.

use vstd::prelude::*;
use vstd::string::StringExecFns;
use crate::lua::bridge::{field_key, CFunc, EngineView, LuaState, LuaValue};
use crate::lua::stack::ToStack;
use crate::lua::table::TableView;
use crate::lua::{self, grown, LuaSpecial};

verus! {

/// A loaded module.
pub struct Module<S> {
    state: S,
    functions: Vec<String>,
}

/// The engine after each of the globals `names` has been set to `nil`, first to last.
pub open spec fn cleared(engine: EngineView, names: Seq<Seq<char>>) -> EngineView
    decreases names.len(),
{
    if names.len() == 0 {
        engine
    } else {
        cleared(engine, names.drop_last()).raw_set(
            engine.globals,
            field_key(names.last()),
            LuaValue::Nil,
        )
    }
}

/// Clearing globals leaves the stack, the identity of the global table and its lack of a
/// metatable as they are.
pub proof fn lemma_cleared_frame(engine: EngineView, names: Seq<Seq<char>>)
    ensures
        cleared(engine, names).stack == engine.stack,
        cleared(engine, names).globals == engine.globals,
        cleared(engine, names).table(engine.globals).metatable == engine.table(
            engine.globals,
        ).metatable,
    decreases names.len(),
{
    if names.len() > 0 {
        lemma_cleared_frame(engine, names.drop_last());
    }
}

impl<S: LuaState> Module<S> {
    /// The state of the engine that the module was loaded into.
    pub closed spec fn engine(self) -> EngineView {
        self.state@
    }

    /// The names of the globals that the module has registered native functions under.
    pub closed spec fn registered(self) -> Seq<Seq<char>> {
        self.functions@.map_values(|name: String| name@)
    }

    /// The module around the engine access that the host loaded it with.
    pub fn from_raw(state: S) -> (module: Self)
        ensures
            module.engine() == state@,
            module.registered().len() == 0,
    {
        Self { state, functions: Vec::new() }
    }

    /// Makes the native function `func` the global `name`.
    pub fn register_function(&mut self, name: &str, func: CFunc)
        requires
            old(self).engine().has_room(2),
        ensures
            final(self).registered() == old(self).registered().push(name@),
            exists|written: EngineView| #[trigger]
                old(self).engine().pushed(crate::globals_of(old(self).engine())).writes(
                    old(self).engine().globals,
                    field_key(name@),
                    LuaValue::Function(func as int),
                    written,
                ) && final(self).engine() == written.popped(1),
    {
        self.functions.push(String::from_str(name));
        assert(self.registered() =~= old(self).registered().push(name@));
        lua::push_special(&mut self.state, LuaSpecial::Glob);
        let ghost based = self.state@;
        lua::push_c_function(&mut self.state, func);
        assert(self.state@.popped(1) =~= based);
        lua::set_field(&mut self.state, -2, name);
        let ghost written = self.state@;
        assert(written.stack =~= based.stack);
        lua::pop(&mut self.state, 1);
        assert(based.writes(
            old(self).engine().globals,
            field_key(name@),
            LuaValue::Function(func as int),
            written,
        ));
    }

    /// Pushes a new empty table.
    pub fn create_table(&mut self) -> (table: TableView)
        requires
            old(self).engine().has_room(1),
        ensures
            final(self).engine() == old(self).engine().with_new_table(),
            final(self).registered() == old(self).registered(),
            table.position() == final(self).engine().top(),
    {
        lua::create_table(&mut self.state)
    }

    /// Sets a value on the global table. The global table stays on the stack.
    pub fn set_global<T: ToStack>(&mut self, key: &str, value: T)
        requires
            old(self).engine().has_room(1),
            value.slots() == 1,
            value.can_push(old(self).engine().pushed(crate::globals_of(old(self).engine()))),
        ensures
            final(self).registered() == old(self).registered(),
            exists|pushed: EngineView| #[trigger]
                value.pushes(
                    old(self).engine().pushed(crate::globals_of(old(self).engine())),
                    pushed,
                ) && grown(
                    old(self).engine().pushed(crate::globals_of(old(self).engine())),
                    pushed,
                ) && pushed.popped(1).writes(
                    old(self).engine().globals,
                    field_key(key@),
                    pushed.stack.last(),
                    final(self).engine(),
                ),
    {
        lua::push_special(&mut self.state, LuaSpecial::Glob);
        let ghost based = self.state@;
        lua::push(&mut self.state, value);
        let ghost pushed = self.state@;
        assert(pushed.stack.take(based.top())[based.top() - 1] == based.stack[based.top() - 1]);
        lua::set_field(&mut self.state, -2, key);
        assert(value.pushes(based, pushed) && grown(based, pushed));
    }

    /// Unloads the module: every global that the module has registered a native function
    /// under is set to `nil`, and the engine access is handed back.
    pub fn unload(self) -> (state: S)
        requires
            self.engine().has_room(2),
        ensures
            state@.stack == self.engine().stack,
            self.engine().table(self.engine().globals).metatable is None ==> state@ == cleared(
                self.engine(),
                self.registered(),
            ),
    {
        let mut state = self.state;
        let functions = self.functions;
        let ghost start = state@;
        let ghost names = functions@.map_values(|name: String| name@);
        let mut i: usize = 0;
        while i < functions.len()
            invariant
                i <= functions.len(),
                names == functions@.map_values(|name: String| name@),
                state@.stack == start.stack,
                start.has_room(2),
                start.table(start.globals).metatable is None ==> state@ == cleared(
                    start,
                    names.take(i as int),
                ),
            decreases functions.len() - i,
        {
            let ghost before = state@;
            lua::push_special(&mut state, LuaSpecial::Glob);
            let ghost based = state@;
            lua::push_nil(&mut state);
            assert(state@.popped(1) =~= based);
            lua::set_field(&mut state, -2, functions[i].as_str());
            let ghost written = state@;
            assert(written.stack =~= based.stack);
            lua::pop(&mut state, 1);
            assert(state@.stack =~= start.stack);
            proof {
                if start.table(start.globals).metatable is None {
                    lemma_cleared_frame(start, names.take(i as int));
                    let longer = names.take(i + 1);
                    assert(longer.drop_last() =~= names.take(i as int));
                    assert(longer.last() == functions[i as int]@);
                    assert(written == based.raw_set(
                        start.globals,
                        field_key(functions[i as int]@),
                        LuaValue::Nil,
                    ));
                    assert(state@ =~= before.raw_set(
                        start.globals,
                        field_key(functions[i as int]@),
                        LuaValue::Nil,
                    ));
                }
            }
            i += 1;
        }
        assert(names.take(functions.len() as int) =~= names);
        state
    }
}

} // verus!
