//! What the engine exports, and what each export does to the engine's state.
//!
//! [`LuaState`] is live access to an engine. Its contracts are stated over [`EngineView`], the
//! mathematical picture of that engine: the value stack of the running call, the reference
//! table, and the tables, closures and native objects that values refer to.

use vstd::prelude::*;
use vstd::utf8::encode_utf8;
use core::any::TypeId;
use crate::lua::number::{double_of, NUMBER_LIMIT};
use crate::lua::{LuaType, LUA_GLOBALSINDEX};

verus! {

/// Address of a native function, as the engine stores it.
pub type CFunc = usize;

/// Most values that one native call may hold on the stack.
pub const STACK_LIMIT: i32 = 8000;

/// Pseudo-index of the registry: the first index that addresses no stack slot.
pub const LUA_REGISTRYINDEX: i32 = -10000;

/// Reference that names no value.
pub const LUA_NOREF: i32 = -2;

/// Reference that the engine hands out for `nil`.
pub const LUA_REFNIL: i32 = -1;

/// Status of a call that ran to its end.
pub const STATUS_OK: i32 = 0;

/// Status of a call that raised an error.
pub const STATUS_ERRRUN: i32 = 2;

/// std's identity of a type. Two identities are the same exactly for the same type.
#[verifier::external_type_specification]
#[verifier::external_body]
pub struct ExTypeId(TypeId);

/// The identity of the type `T`, from `TypeId::of`.
#[verifier::external_body]
pub(crate) fn type_id_of<T: 'static>() -> (ty: TypeId) {
    TypeId::of::<T>()
}

/// Whether two type identities are the same, by `TypeId`'s own `==`.
#[verifier::external_body]
pub(crate) fn same_type(a: &TypeId, b: &TypeId) -> (same: bool)
    ensures
        same == (*a == *b),
{
    a == b
}

/// What the engine stores for a native object: the identity of its type, and the slot of the
/// allocation table that holds the object itself.
#[derive(Clone, Copy, Debug, PartialEq, Eq)]
pub struct NativeObject {
    pub ty: TypeId,
    pub slot: usize,
}

/// A value as the engine holds it.
pub enum LuaValue {
    Nil,
    Bool(bool),
    /// A number; only integral ones are pictured.
    Number(int),
    /// A string, which is any sequence of bytes.
    String(Seq<u8>),
    /// A table, by its identity.
    Table(int),
    /// A native function without upvalues, by its address.
    Function(int),
    /// A native closure, by its identity.
    Closure(int),
    /// A native object, by the identity of the engine's allocation for it.
    UserData(int),
}

/// What a table holds.
#[verifier::ext_equal]
pub struct TableContents {
    pub entries: Map<LuaValue, LuaValue>,
    pub metatable: Option<int>,
}

/// What a native closure holds.
#[verifier::ext_equal]
pub struct ClosureContents {
    pub func: int,
    pub upvalues: Seq<LuaValue>,
}

/// What the engine holds for a native object.
pub struct UserDataContents {
    pub object: NativeObject,
    pub metatable: Option<int>,
}

/// A call that the engine was asked to make.
#[verifier::ext_equal]
pub struct CallRecord {
    pub callee: LuaValue,
    pub args: Seq<LuaValue>,
    pub results: int,
}

/// The key that a field name stands for.
pub open spec fn field_key(name: Seq<char>) -> LuaValue {
    LuaValue::String(encode_utf8(name))
}

/// Two names stand for the same key only if they are the same name.
pub proof fn lemma_field_key_injective(a: Seq<char>, b: Seq<char>)
    ensures
        field_key(a) == field_key(b) <==> a == b,
{
    vstd::utf8::encode_utf8_decode_utf8(a);
    vstd::utf8::encode_utf8_decode_utf8(b);
}

impl LuaValue {
    pub open spec fn kind(self) -> LuaType {
        match self {
            LuaValue::Nil => LuaType::Nil,
            LuaValue::Bool(_) => LuaType::Bool,
            LuaValue::Number(_) => LuaType::Number,
            LuaValue::String(_) => LuaType::String,
            LuaValue::Table(_) => LuaType::Table,
            LuaValue::Function(_) => LuaType::Function,
            LuaValue::Closure(_) => LuaType::Function,
            LuaValue::UserData(_) => LuaType::UserData,
        }
    }

    pub open spec fn callable(self) -> bool {
        self is Function || self is Closure
    }

    /// What the engine reads the value as where it wants a boolean.
    pub open spec fn truthy(self) -> bool {
        match self {
            LuaValue::Nil => false,
            LuaValue::Bool(b) => b,
            _ => true,
        }
    }
}

/// The state of an engine, as far as this library reads or changes it.
#[verifier::ext_equal]
pub struct EngineView {
    /// The stack of the running call, bottom first.
    pub stack: Seq<LuaValue>,
    /// The upvalues of the running native closure.
    pub upvalues: Seq<LuaValue>,
    /// The reference table: the values pinned beyond the running call, by reference.
    pub references: Map<int, LuaValue>,
    /// Every table made so far, by identity.
    pub tables: Seq<TableContents>,
    /// Every native closure made so far, by identity.
    pub closures: Seq<ClosureContents>,
    /// Every allocation for a native object made so far, by identity.
    pub userdata: Seq<UserDataContents>,
    /// The identity of the global table.
    pub globals: int,
    /// The identity of the environment table.
    pub environment: int,
    /// The identity of the registry.
    pub registry: int,
    /// The calls that the engine was asked to make, first to last.
    pub calls: Seq<CallRecord>,
}

impl EngineView {
    pub open spec fn top(self) -> int {
        self.stack.len() as int
    }

    /// `pos` addresses a stack slot: counted from the bottom when positive, from the top when
    /// negative. At and below [`LUA_REGISTRYINDEX`] an index addresses no stack slot.
    pub open spec fn is_stack_index(self, pos: int) -> bool {
        1 <= pos <= self.top() || (-self.top() <= pos <= -1 && pos > LUA_REGISTRYINDEX)
    }

    /// `pos` addresses an upvalue of the running closure.
    pub open spec fn is_upvalue_index(self, pos: int) -> bool {
        1 <= LUA_GLOBALSINDEX - pos <= self.upvalues.len()
    }

    pub open spec fn valid_index(self, pos: int) -> bool {
        self.is_stack_index(pos) || self.is_upvalue_index(pos)
    }

    /// An index that the engine may be asked about: a valid one, or one above the top.
    pub open spec fn acceptable_index(self, pos: int) -> bool {
        self.valid_index(pos) || pos > self.top()
    }

    /// The absolute form of a stack index.
    pub open spec fn absolute(self, pos: int) -> int {
        if pos < 0 {
            self.top() + pos + 1
        } else {
            pos
        }
    }

    pub open spec fn value_at(self, pos: int) -> LuaValue
        recommends
            self.valid_index(pos),
    {
        if self.is_stack_index(pos) {
            self.stack[self.absolute(pos) - 1]
        } else {
            self.upvalues[LUA_GLOBALSINDEX - pos - 1]
        }
    }

    pub open spec fn type_at(self, pos: int) -> LuaType {
        if self.valid_index(pos) {
            self.value_at(pos).kind()
        } else {
            LuaType::NoValue
        }
    }

    pub open spec fn has_room(self, count: int) -> bool {
        self.top() + count <= STACK_LIMIT
    }

    pub open spec fn pushed(self, value: LuaValue) -> EngineView {
        EngineView { stack: self.stack.push(value), ..self }
    }

    pub open spec fn popped(self, count: int) -> EngineView
        recommends
            0 <= count <= self.top(),
    {
        EngineView { stack: self.stack.take(self.top() - count), ..self }
    }

    /// The state after the top of the stack has been popped and, unless it is `nil`, pinned
    /// under `reference`.
    pub open spec fn pinned(self, reference: int) -> EngineView
        recommends
            self.top() >= 1,
    {
        EngineView {
            stack: self.stack.drop_last(),
            references: if self.stack.last() is Nil {
                self.references
            } else {
                self.references.insert(reference, self.stack.last())
            },
            ..self
        }
    }

    /// The state after `reference` has been freed.
    pub open spec fn released(self, reference: int) -> EngineView {
        EngineView { references: self.references.remove(reference), ..self }
    }

    /// The value behind a reference; `nil` where the reference is not live. No reference
    /// below 0 is ever live: [`LUA_REFNIL`] and [`LUA_NOREF`] give `nil`.
    pub open spec fn referenced(self, reference: int) -> LuaValue {
        if reference >= 0 && self.references.contains_key(reference) {
            self.references[reference]
        } else {
            LuaValue::Nil
        }
    }

    /// The table with identity `t`; an empty one where there is none.
    pub open spec fn table(self, t: int) -> TableContents {
        if 0 <= t < self.tables.len() {
            self.tables[t]
        } else {
            TableContents { entries: Map::empty(), metatable: None }
        }
    }

    /// What `table[key]` is, read without regard to metatables.
    pub open spec fn raw_get(self, t: int, key: LuaValue) -> LuaValue {
        if self.table(t).entries.contains_key(key) {
            self.table(t).entries[key]
        } else {
            LuaValue::Nil
        }
    }

    /// Whether reading `table[key]` may give `value`. Where the key is present it gives what
    /// is stored; where it is absent and the table has no metatable it gives `nil`; where
    /// the table has a metatable, that decides.
    pub open spec fn reads(self, t: int, key: LuaValue, value: LuaValue) -> bool {
        self.table(t).entries.contains_key(key) || self.table(t).metatable is None ==> value
            == self.raw_get(t, key)
    }

    /// The state after `table[key] = value`, written without regard to metatables. Storing
    /// `nil` removes the key.
    pub open spec fn raw_set(self, t: int, key: LuaValue, value: LuaValue) -> EngineView {
        if 0 <= t < self.tables.len() {
            EngineView {
                tables: self.tables.update(
                    t,
                    TableContents {
                        entries: if value is Nil {
                            self.tables[t].entries.remove(key)
                        } else {
                            self.tables[t].entries.insert(key, value)
                        },
                        ..self.tables[t]
                    },
                ),
                ..self
            }
        } else {
            self
        }
    }

    /// Whether `table[key] = value` may lead from this state to `after`. Where the key is
    /// present or the table has no metatable the value is stored; otherwise the metatable
    /// decides, and only the stack is known to stay.
    pub open spec fn writes(self, t: int, key: LuaValue, value: LuaValue, after: EngineView) -> bool {
        if self.table(t).entries.contains_key(key) || self.table(t).metatable is None {
            after == self.raw_set(t, key, value)
        } else {
            after.stack == self.stack
        }
    }

    /// The metatable of `value`, for a table or a native object.
    pub open spec fn metatable_of(self, value: LuaValue) -> Option<int> {
        match value {
            LuaValue::Table(t) => self.table(t).metatable,
            LuaValue::UserData(u) if 0 <= u < self.userdata.len() => self.userdata[u].metatable,
            _ => None,
        }
    }

    /// The state after the metatable of `value` has been set.
    pub open spec fn with_metatable(self, value: LuaValue, metatable: Option<int>) -> EngineView {
        match value {
            LuaValue::Table(t) if 0 <= t < self.tables.len() => EngineView {
                tables: self.tables.update(t, TableContents { metatable, ..self.tables[t] }),
                ..self
            },
            LuaValue::UserData(u) if 0 <= u < self.userdata.len() => EngineView {
                userdata: self.userdata.update(
                    u,
                    UserDataContents { metatable, ..self.userdata[u] },
                ),
                ..self
            },
            _ => self,
        }
    }

    /// The table that a special index names.
    pub open spec fn special(self, special: int) -> LuaValue {
        if special == 0 {
            LuaValue::Table(self.globals)
        } else if special == 1 {
            LuaValue::Table(self.environment)
        } else {
            LuaValue::Table(self.registry)
        }
    }

    /// The native object behind `value`, if it is one.
    pub open spec fn native_object(self, value: LuaValue) -> Option<NativeObject> {
        match value {
            LuaValue::UserData(u) if 0 <= u < self.userdata.len() => Some(self.userdata[u].object),
            _ => None,
        }
    }

    /// The state after a fresh empty table has been pushed.
    pub open spec fn with_new_table(self) -> EngineView {
        EngineView {
            stack: self.stack.push(LuaValue::Table(self.tables.len() as int)),
            tables: self.tables.push(TableContents { entries: Map::empty(), metatable: None }),
            ..self
        }
    }

    /// The state after a fresh allocation for `object` has been pushed.
    pub open spec fn with_new_user_data(self, object: NativeObject) -> EngineView {
        EngineView {
            stack: self.stack.push(LuaValue::UserData(self.userdata.len() as int)),
            userdata: self.userdata.push(UserDataContents { object, metatable: None }),
            ..self
        }
    }

    /// The state after the top `count` values have been made the upvalues of a fresh closure
    /// over `func`, which takes their place.
    pub open spec fn with_new_closure(self, func: int, count: int) -> EngineView
        recommends
            0 <= count <= self.top(),
    {
        EngineView {
            stack: self.stack.take(self.top() - count).push(
                LuaValue::Closure(self.closures.len() as int),
            ),
            closures: self.closures.push(
                ClosureContents {
                    func,
                    upvalues: self.stack.subrange(self.top() - count, self.top()),
                },
            ),
            ..self
        }
    }

    /// The call that `args` arguments on top of the stack, with the callee below them, ask
    /// for.
    pub open spec fn call_asked(self, args: int, results: int) -> CallRecord
        recommends
            0 <= args < self.top(),
    {
        CallRecord {
            callee: self.stack[self.top() - args - 1],
            args: self.stack.subrange(self.top() - args, self.top()),
            results,
        }
    }

    /// Whether a call may lead from this state to `after` with `status`: the call is on
    /// record, what lay below the callee lies there still, and on top of it lie the results
    /// asked for or, where the call failed, the one error value. What the callee did to the
    /// rest of the engine is not known.
    pub open spec fn calls_into(self, args: int, results: int, ok: bool, after: EngineView) -> bool
        recommends
            0 <= args < self.top(),
    {
        let base = self.top() - args - 1;
        &&& after.calls == self.calls.push(self.call_asked(args, results))
        &&& after.top() >= base
        &&& after.stack.take(base) == self.stack.take(base)
        &&& ok && results >= 0 ==> after.top() == base + results
        &&& !ok ==> after.top() == base + 1
    }

    /// Some reference is still free.
    pub open spec fn has_free_reference(self) -> bool {
        exists|reference: i32| reference >= 0 && !self.references.contains_key(reference as int)
    }
}

/// Live access to an engine. Only the thread that drives the engine ever holds one.
pub trait LuaState {
    spec fn view(&self) -> EngineView;

    /// Returns the number of elements on the stack.
    fn top(&self) -> (size: i32)
        ensures
            size == self@.top(),
    ;

    /// Returns the number of upvalues of the running native closure.
    fn upvalue_count(&self) -> (count: i32)
        ensures
            count == self@.upvalues.len(),
    ;

    /// Pushes a copy of the value at `stack_pos`.
    fn push_copy(&mut self, stack_pos: i32)
        requires
            old(self)@.valid_index(stack_pos as int),
            old(self)@.has_room(1),
        ensures
            final(self)@ == old(self)@.pushed(old(self)@.value_at(stack_pos as int)),
    ;

    /// Pops `amount` values.
    fn pop(&mut self, amount: i32)
        requires
            0 <= amount <= old(self)@.top(),
        ensures
            final(self)@ == old(self)@.popped(amount as int),
    ;

    fn push_nil(&mut self)
        requires
            old(self)@.has_room(1),
        ensures
            final(self)@ == old(self)@.pushed(LuaValue::Nil),
    ;

    fn push_bool(&mut self, val: bool)
        requires
            old(self)@.has_room(1),
        ensures
            final(self)@ == old(self)@.pushed(LuaValue::Bool(val)),
    ;

    /// Pushes the integer `val`, rounded to a double.
    fn push_number(&mut self, val: i128)
        requires
            old(self)@.has_room(1),
            -NUMBER_LIMIT <= val <= NUMBER_LIMIT,
        ensures
            final(self)@ == old(self)@.pushed(LuaValue::Number(double_of(val as int))),
    ;

    /// Pushes a string made of the bytes of `val`.
    fn push_string(&mut self, val: &[u8])
        requires
            old(self)@.has_room(1),
        ensures
            final(self)@ == old(self)@.pushed(LuaValue::String(val@)),
    ;

    /// The number of the kind of the value at `stack_pos`.
    fn get_type(&self, stack_pos: i32) -> (ty: i32)
        requires
            self@.acceptable_index(stack_pos as int),
        ensures
            ty == self@.type_at(stack_pos as int).number(),
    ;

    fn is_type(&self, stack_pos: i32, ty: i32) -> (same: bool)
        requires
            self@.acceptable_index(stack_pos as int),
        ensures
            same <==> ty == self@.type_at(stack_pos as int).number(),
    ;

    /// The value at `stack_pos` read as a boolean.
    fn get_bool(&self, stack_pos: i32) -> (val: bool)
        requires
            self@.valid_index(stack_pos as int),
        ensures
            val == self@.value_at(stack_pos as int).truthy(),
    ;

    /// The number at `stack_pos`, cut to an integer; 0 where the value is neither a number
    /// nor a string.
    fn get_number(&self, stack_pos: i32) -> (val: i128)
        requires
            self@.valid_index(stack_pos as int),
        ensures
            match self@.value_at(stack_pos as int) {
                LuaValue::Number(n) => val == crate::lua::number::saturate(
                    n,
                    i128::MIN as int,
                    i128::MAX as int,
                ),
                LuaValue::String(_) => true,
                _ => val == 0,
            },
    ;

    /// The bytes of the string at `stack_pos`.
    fn get_string(&self, stack_pos: i32) -> (bytes: Vec<u8>)
        requires
            self@.valid_index(stack_pos as int),
            self@.value_at(stack_pos as int) is String,
        ensures
            self@.value_at(stack_pos as int) == LuaValue::String(bytes@),
    ;

    /// Pins the value at the top of the stack, pops it and returns its reference. For `nil`
    /// nothing is pinned and the reference is [`LUA_REFNIL`].
    fn reference_create(&mut self) -> (reference: i32)
        requires
            old(self)@.top() >= 1,
            old(self)@.has_free_reference(),
        ensures
            final(self)@ == old(self)@.pinned(reference as int),
            old(self)@.stack.last() is Nil ==> reference == LUA_REFNIL,
            !(old(self)@.stack.last() is Nil) ==> reference >= 0 && !old(self)@.references.contains_key(
                reference as int,
            ),
    ;

    /// Frees `reference`; nothing happens where it is not live.
    fn reference_free(&mut self, reference: i32)
        ensures
            final(self)@ == old(self)@.released(reference as int),
    ;

    /// Pushes the value behind `reference`, `nil` where it is not live.
    fn reference_push(&mut self, reference: i32)
        requires
            old(self)@.has_room(1),
        ensures
            final(self)@ == old(self)@.pushed(old(self)@.referenced(reference as int)),
    ;

    /// Pushes the global table (0), the environment (1) or the registry (2).
    fn push_special(&mut self, special: i32)
        requires
            0 <= special <= 2,
            old(self)@.has_room(1),
        ensures
            final(self)@ == old(self)@.pushed(old(self)@.special(special as int)),
    ;

    /// Pushes a new empty table.
    fn create_table(&mut self)
        requires
            old(self)@.has_room(1),
        ensures
            final(self)@ == old(self)@.with_new_table(),
    ;

    /// Pushes `table[key]`, where the table is at `stack_pos` and the key on top of the
    /// stack. Pops the key.
    fn get_table(&mut self, stack_pos: i32)
        requires
            old(self)@.top() >= 1,
            old(self)@.valid_index(stack_pos as int),
            old(self)@.value_at(stack_pos as int) is Table,
        ensures
            final(self)@ == old(self)@.popped(1).pushed(final(self)@.stack.last()),
            final(self)@.top() == old(self)@.top(),
            old(self)@.reads(
                old(self)@.value_at(stack_pos as int)->Table_0,
                old(self)@.stack.last(),
                final(self)@.stack.last(),
            ),
    ;

    /// Sets `table[key]` to the value on top of the stack, where the table is at `stack_pos`
    /// and the key second to the top. Pops both.
    fn set_table(&mut self, stack_pos: i32)
        requires
            old(self)@.top() >= 2,
            old(self)@.valid_index(stack_pos as int),
            old(self)@.value_at(stack_pos as int) is Table,
            !(old(self)@.stack[old(self)@.top() - 2] is Nil),
        ensures
            old(self)@.popped(2).writes(
                old(self)@.value_at(stack_pos as int)->Table_0,
                old(self)@.stack[old(self)@.top() - 2],
                old(self)@.stack.last(),
                final(self)@,
            ),
    ;

    /// Pushes `table[name]`, where the table is at `stack_pos`.
    fn get_field(&mut self, stack_pos: i32, name: &str)
        requires
            old(self)@.has_room(1),
            old(self)@.valid_index(stack_pos as int),
            old(self)@.value_at(stack_pos as int) is Table,
        ensures
            final(self)@ == old(self)@.pushed(final(self)@.stack.last()),
            final(self)@.top() == old(self)@.top() + 1,
            old(self)@.reads(
                old(self)@.value_at(stack_pos as int)->Table_0,
                field_key(name@),
                final(self)@.stack.last(),
            ),
    ;

    /// Sets `table[name]` to the value on top of the stack, where the table is at
    /// `stack_pos`. Pops the value.
    fn set_field(&mut self, stack_pos: i32, name: &str)
        requires
            old(self)@.top() >= 1,
            old(self)@.valid_index(stack_pos as int),
            old(self)@.value_at(stack_pos as int) is Table,
        ensures
            old(self)@.popped(1).writes(
                old(self)@.value_at(stack_pos as int)->Table_0,
                field_key(name@),
                old(self)@.stack.last(),
                final(self)@,
            ),
    ;

    /// Makes the table on top of the stack the metatable of the value at `stack_pos`; `nil`
    /// on top removes the metatable. Pops the top.
    fn set_metatable(&mut self, stack_pos: i32)
        requires
            old(self)@.top() >= 1,
            old(self)@.valid_index(stack_pos as int),
            old(self)@.stack.last() is Table || old(self)@.stack.last() is Nil,
            old(self)@.value_at(stack_pos as int) is Table || old(self)@.value_at(
                stack_pos as int,
            ) is UserData,
        ensures
            final(self)@ == old(self)@.popped(1).with_metatable(
                old(self)@.value_at(stack_pos as int),
                match old(self)@.stack.last() {
                    LuaValue::Table(m) => Some(m),
                    _ => None,
                },
            ),
    ;

    /// Pushes the metatable of the value at `stack_pos` and returns `true`; pushes nothing
    /// and returns `false` where it has none.
    fn get_metatable(&mut self, stack_pos: i32) -> (found: bool)
        requires
            old(self)@.has_room(1),
            old(self)@.valid_index(stack_pos as int),
            old(self)@.value_at(stack_pos as int) is Table || old(self)@.value_at(
                stack_pos as int,
            ) is UserData,
        ensures
            match old(self)@.metatable_of(old(self)@.value_at(stack_pos as int)) {
                Some(m) => found && final(self)@ == old(self)@.pushed(LuaValue::Table(m)),
                None => !found && final(self)@ == old(self)@,
            },
    ;

    /// Pushes the native function at address `func`.
    fn push_c_function(&mut self, func: CFunc)
        requires
            old(self)@.has_room(1),
        ensures
            final(self)@ == old(self)@.pushed(LuaValue::Function(func as int)),
    ;

    /// Pops `vars` values and pushes a closure over `func` that has them as upvalues.
    fn push_c_closure(&mut self, func: CFunc, vars: i32)
        requires
            0 <= vars <= old(self)@.top(),
            old(self)@.has_room(1),
        ensures
            final(self)@ == old(self)@.with_new_closure(func as int, vars as int),
    ;

    /// Calls the value below the top `args` values with them as arguments, and returns only
    /// if the call ran to its end.
    fn call(&mut self, args: i32, results: i32)
        requires
            0 <= args < old(self)@.top(),
            -1 <= results,
            old(self)@.top() - args - 1 + results <= STACK_LIMIT,
        ensures
            old(self)@.calls_into(args as int, results as int, true, final(self)@),
    ;

    /// Calls the value below the top `args` values with them as arguments; returns 0 if the
    /// call ran to its end, and leaves the error value on the stack if not.
    fn pcall(&mut self, args: i32, results: i32, error_func: i32) -> (status: i32)
        requires
            0 <= args < old(self)@.top(),
            -1 <= results,
            old(self)@.top() - args - 1 + results <= STACK_LIMIT,
        ensures
            old(self)@.calls_into(args as int, results as int, status == STATUS_OK, final(self)@),
    ;

    /// Makes an allocation for `object` and pushes it.
    fn new_user_data(&mut self, object: NativeObject)
        requires
            old(self)@.has_room(1),
        ensures
            final(self)@ == old(self)@.with_new_user_data(object),
    ;

    /// What the allocation at `stack_pos` holds; `None` where the value is no native object.
    fn get_user_data(&self, stack_pos: i32) -> (object: Option<NativeObject>)
        requires
            self@.valid_index(stack_pos as int),
        ensures
            object == self@.native_object(self@.value_at(stack_pos as int)),
    ;
}

} // verus!
