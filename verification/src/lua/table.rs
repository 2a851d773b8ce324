//! A view of a table that sits on the stack, and reading whole native values out of tables.

use vstd::prelude::*;
use vstd::std_specs::convert::FromSpecImpl;
use crate::lua::bridge::{field_key, EngineView, LuaState, LuaValue};
use crate::lua::error::Error;
use crate::lua::number::lemma_small_is_exact;
use crate::lua::stack::{fails_with, wrong_type, FromStack, ToStack};
use crate::lua::{
    expect_type, get, get_table, push, push_copy, rel_to_abs, set_table, value_of, LuaType, Nil,
    NIL,
};

verus! {

/// What a table is indexed with from native code.
pub enum TableKey<'a> {
    String(&'a str),
    Integer(u32),
}

impl<'a> TableKey<'a> {
    /// The value that the engine sees as the key.
    pub open spec fn key(self) -> LuaValue {
        match self {
            TableKey::String(name) => field_key(name@),
            TableKey::Integer(index) => LuaValue::Number(index as int),
        }
    }
}

impl<'a> From<&'a str> for TableKey<'a> {
    fn from(s: &'a str) -> (key: Self) {
        Self::String(s)
    }
}

impl<'a> FromSpecImpl<&'a str> for TableKey<'a> {
    open spec fn obeys_from_spec() -> bool {
        true
    }

    open spec fn from_spec(s: &'a str) -> Self {
        TableKey::String(s)
    }
}

impl<'a> From<&'a String> for TableKey<'a> {
    fn from(s: &'a String) -> (key: Self)
        ensures
            key.key() == field_key(s@),
    {
        Self::String(s.as_str())
    }
}

impl<'a> FromSpecImpl<&'a String> for TableKey<'a> {
    /// The key borrows its text from the string, which no value in a contract can do.
    open spec fn obeys_from_spec() -> bool {
        false
    }

    open spec fn from_spec(s: &'a String) -> Self {
        TableKey::Integer(0)
    }
}

impl<'a> From<u32> for TableKey<'a> {
    fn from(i: u32) -> (key: Self) {
        Self::Integer(i)
    }
}

impl<'a> FromSpecImpl<u32> for TableKey<'a> {
    open spec fn obeys_from_spec() -> bool {
        true
    }

    open spec fn from_spec(i: u32) -> Self {
        TableKey::Integer(i)
    }
}

impl<'a> ToStack for TableKey<'a> {
    open spec fn can_push(&self, engine: EngineView) -> bool {
        engine.has_room(1)
    }

    open spec fn pushes(&self, before: EngineView, after: EngineView) -> bool {
        after == before.pushed(self.key())
    }

    open spec fn slots(&self) -> int {
        1
    }

    fn push<S: LuaState>(self, state: &mut S) -> (count: i32) {
        match self {
            Self::String(name) => push(state, name),
            Self::Integer(index) => {
                proof {
                    lemma_small_is_exact(index as int);
                }
                push(state, index)
            },
        }
    }
}

/// A table on the stack, by its absolute position.
#[derive(Debug, Clone, Copy, PartialEq, Eq, Structural)]
pub struct TableView(i32);

impl TableView {
    /// The position of the table.
    pub closed spec fn position(&self) -> int {
        self.0 as int
    }

    /// Whether there is a table at the position of the view.
    pub open spec fn on_table(&self, engine: EngineView) -> bool {
        1 <= self.position() <= engine.top() && engine.value_at(self.position()) is Table
    }

    /// The identity of the table at the position of the view.
    pub open spec fn table_in(&self, engine: EngineView) -> int {
        engine.value_at(self.position())->Table_0
    }

    pub fn new<S: LuaState>(state: &S, stack_pos: i32) -> (view: Self)
        ensures
            view.position() == state@.absolute(stack_pos as int),
    {
        Self(rel_to_abs(state, stack_pos))
    }

    pub fn stack_pos(&self) -> (pos: i32)
        ensures
            pos == self.position(),
    {
        self.0
    }

    /// Tries to get the value with `key`, fails if the conversion to `T` fails. The value
    /// read from the table is left on top of the stack.
    pub fn get<'a, S: LuaState, T: FromStack>(&self, state: &mut S, key: TableKey<'a>) -> (value:
        Result<T, Error>)
        requires
            old(state)@.has_room(1),
            self.on_table(old(state)@),
            forall|found: LuaValue| #[trigger] T::can_read(old(state)@.pushed(found), -1),
        ensures
            exists|found: LuaValue, read: Result<(T, i32), Error>| #[trigger]
                T::reads(old(state)@.pushed(found), -1, read, final(state)@) && old(state)@.reads(
                    self.table_in(old(state)@),
                    key.key(),
                    found,
                ) && value == value_of(read),
    {
        push(state, key);
        get_table(state, self.stack_pos());
        let ghost found = state@.stack.last();
        assert(state@ =~= old(state)@.pushed(found));
        let ghost fetched = state@;
        let read = T::from_stack(state, -1);
        assert(T::reads(old(state)@.pushed(found), -1, read, state@));
        match read {
            Ok((v, _)) => Ok(v),
            Err(err) => Err(err),
        }
    }

    /// Sets `table[key]` to `value`.
    pub fn set<'a, S: LuaState, T: ToStack>(&self, state: &mut S, key: TableKey<'a>, value: T)
        requires
            old(state)@.has_room(1),
            self.on_table(old(state)@),
            value.slots() == 1,
            value.can_push(old(state)@.pushed(key.key())),
        ensures
            exists|pushed: EngineView| #[trigger]
                value.pushes(old(state)@.pushed(key.key()), pushed) && pushed.popped(2).writes(
                    self.table_in(old(state)@),
                    key.key(),
                    pushed.stack.last(),
                    final(state)@,
                ),
    {
        push(state, key);
        let ghost keyed = state@;
        push(state, value);
        let ghost pushed = state@;
        assert(pushed.stack.take(keyed.top())[self.position() - 1] == keyed.stack[self.position()
            - 1]);
        assert(pushed.stack.take(keyed.top())[keyed.top() - 1] == keyed.stack[keyed.top() - 1]);
        set_table(state, self.stack_pos());
        assert(value.pushes(old(state)@.pushed(key.key()), pushed));
    }

    /// Removes `key` from the table.
    pub fn unset<'a, S: LuaState>(&self, state: &mut S, key: TableKey<'a>)
        requires
            old(state)@.has_room(2),
            self.on_table(old(state)@),
        ensures
            old(state)@.writes(
                self.table_in(old(state)@),
                key.key(),
                LuaValue::Nil,
                final(state)@,
            ),
    {
        self.set(state, key, NIL);
        assert(old(state)@.pushed(key.key()).pushed(LuaValue::Nil).popped(2) =~= old(state)@);
    }

    /// Pushes the value with `key` on the stack.
    pub fn push_value<'a, S: LuaState>(&self, state: &mut S, key: TableKey<'a>)
        requires
            old(state)@.has_room(1),
            self.on_table(old(state)@),
        ensures
            final(state)@ == old(state)@.pushed(final(state)@.stack.last()),
            final(state)@.top() == old(state)@.top() + 1,
            old(state)@.reads(
                self.table_in(old(state)@),
                key.key(),
                final(state)@.stack.last(),
            ),
    {
        push(state, key);
        get_table(state, self.stack_pos());
        assert(state@ =~= old(state)@.pushed(state@.stack.last()));
    }
}

impl ToStack for TableView {
    open spec fn can_push(&self, engine: EngineView) -> bool {
        engine.has_room(1) && engine.valid_index(self.position())
    }

    open spec fn pushes(&self, before: EngineView, after: EngineView) -> bool {
        after == before.pushed(before.value_at(self.position()))
    }

    open spec fn slots(&self) -> int {
        1
    }

    fn push<S: LuaState>(self, state: &mut S) -> (count: i32) {
        push_copy(state, self.stack_pos());
        assert(state@.stack.take(old(state)@.top()) =~= old(state)@.stack);
        1
    }
}

impl FromStack for TableView {
    open spec fn can_read(engine: EngineView, stack_pos: int) -> bool {
        engine.acceptable_index(stack_pos)
    }

    open spec fn reads(
        before: EngineView,
        stack_pos: int,
        read: Result<(Self, i32), Error>,
        after: EngineView,
    ) -> bool {
        &&& after == before
        &&& if before.type_at(stack_pos) == LuaType::Table {
            read matches Ok((view, n)) && view.position() == before.absolute(stack_pos) && n == 1
        } else {
            fails_with(read, wrong_type(before, stack_pos, LuaType::Table))
        }
    }

    fn from_stack<S: LuaState>(state: &mut S, stack_pos: i32) -> (read: Result<(Self, i32), Error>) {
        match expect_type(&*state, stack_pos, LuaType::Table) {
            Ok(()) => Ok((Self::new(&*state, stack_pos), 1)),
            Err(err) => Err(Error::Generic(err)),
        }
    }
}

/// A native value that is read out of a table, field by field.
pub trait FromTable: Sized {
    /// What the engine must offer for a value to be read from the table `tbl`.
    spec fn can_read_table(engine: EngineView, tbl: TableView) -> bool;

    /// How reading from the table `tbl` goes.
    spec fn reads_table(
        before: EngineView,
        tbl: TableView,
        read: Result<Self, Error>,
        after: EngineView,
    ) -> bool;

    fn from_table<S: LuaState>(state: &mut S, tbl: TableView) -> (read: Result<Self, Error>)
        requires
            Self::can_read_table(old(state)@, tbl),
        ensures
            Self::reads_table(old(state)@, tbl, read, final(state)@),
    ;
}

impl<T: FromTable> FromStack for T {
    open spec fn can_read(engine: EngineView, stack_pos: int) -> bool {
        &&& engine.acceptable_index(stack_pos)
        &&& engine.type_at(stack_pos) == LuaType::Table ==> forall|tbl: TableView|
            tbl.position() == engine.absolute(stack_pos) ==> #[trigger] T::can_read_table(
                engine,
                tbl,
            )
    }

    open spec fn reads(
        before: EngineView,
        stack_pos: int,
        read: Result<(Self, i32), Error>,
        after: EngineView,
    ) -> bool {
        if before.type_at(stack_pos) == LuaType::Table {
            exists|tbl: TableView, value: Result<T, Error>| #[trigger]
                T::reads_table(before, tbl, value, after) && tbl.position() == before.absolute(
                    stack_pos,
                ) && match read {
                    Ok((v, n)) => value == Ok::<T, Error>(v) && n == 1,
                    Err(err) => value == Err::<T, Error>(err),
                }
        } else {
            after == before && fails_with(read, wrong_type(before, stack_pos, LuaType::Table))
        }
    }

    fn from_stack<S: LuaState>(state: &mut S, stack_pos: i32) -> (read: Result<(Self, i32), Error>) {
        match expect_type(&*state, stack_pos, LuaType::Table) {
            Ok(()) => {
                let table_ref = TableView::new(&*state, stack_pos);
                let value = T::from_table(state, table_ref);
                assert(T::reads_table(old(state)@, table_ref, value, state@));
                match value {
                    Ok(v) => Ok((v, 1)),
                    Err(err) => Err(err),
                }
            },
            Err(err) => Err(Error::Generic(err)),
        }
    }
}

} // verus!
