//! An engine held in memory: a value stack, a reference table, and the tables, closures and
//! native objects that values refer to.
//!
//! It meets every contract of [`LuaState`], so whatever is proved of a function over any
//! engine can be run against this one. It runs no script: a call of a function is put on
//! record and answered with as many `nil`s as were asked for.

use vstd::prelude::*;
use crate::lua::bridge::{
    CFunc, CallRecord, ClosureContents, EngineView, LuaState, LuaValue, NativeObject,
    TableContents, UserDataContents, LUA_REFNIL, LUA_REGISTRYINDEX, STACK_LIMIT, STATUS_ERRRUN, STATUS_OK,
};
use crate::lua::number::round_to_double;
use crate::lua::LuaType;

verus! {

/// A value on the stack of a [`MemoryEngine`].
#[derive(Debug, PartialEq, Eq)]
pub enum Value {
    Nil,
    Bool(bool),
    Number(i128),
    String(Vec<u8>),
    Table(usize),
    Function(usize),
    Closure(usize),
    UserData(usize),
}

impl View for Value {
    type V = LuaValue;

    open spec fn view(&self) -> LuaValue {
        match self {
            Value::Nil => LuaValue::Nil,
            Value::Bool(b) => LuaValue::Bool(*b),
            Value::Number(n) => LuaValue::Number(*n as int),
            Value::String(bytes) => LuaValue::String(bytes@),
            Value::Table(t) => LuaValue::Table(*t as int),
            Value::Function(f) => LuaValue::Function(*f as int),
            Value::Closure(c) => LuaValue::Closure(*c as int),
            Value::UserData(u) => LuaValue::UserData(*u as int),
        }
    }
}

/// Whether two byte strings are the same.
fn same_bytes(a: &Vec<u8>, b: &Vec<u8>) -> (same: bool)
    ensures
        same == (a@ == b@),
{
    if a.len() != b.len() {
        return false;
    }
    let mut i: usize = 0;
    while i < a.len()
        invariant
            a.len() == b.len(),
            i <= a.len(),
            forall|j: int| 0 <= j < i ==> a[j] == b[j],
        decreases a.len() - i,
    {
        if a[i] != b[i] {
            return false;
        }
        i += 1;
    }
    assert(a@ =~= b@);
    true
}

impl Value {
    /// A second value equal to this one.
    pub fn duplicate(&self) -> (copy: Value)
        ensures
            copy@ == self@,
    {
        match self {
            Value::Nil => Value::Nil,
            Value::Bool(b) => Value::Bool(*b),
            Value::Number(n) => Value::Number(*n),
            Value::String(bytes) => {
                let copy = bytes.clone();
                assert(copy@ =~= bytes@);
                Value::String(copy)
            },
            Value::Table(t) => Value::Table(*t),
            Value::Function(f) => Value::Function(*f),
            Value::Closure(c) => Value::Closure(*c),
            Value::UserData(u) => Value::UserData(*u),
        }
    }

    pub fn kind(&self) -> (ty: LuaType)
        ensures
            ty == self@.kind(),
    {
        match self {
            Value::Nil => LuaType::Nil,
            Value::Bool(_) => LuaType::Bool,
            Value::Number(_) => LuaType::Number,
            Value::String(_) => LuaType::String,
            Value::Table(_) => LuaType::Table,
            Value::Function(_) => LuaType::Function,
            Value::Closure(_) => LuaType::Function,
            Value::UserData(_) => LuaType::UserData,
        }
    }

    /// Whether the two values are the same value.
    pub fn same(&self, other: &Value) -> (same: bool)
        ensures
            same == (self@ == other@),
    {
        match (self, other) {
            (Value::Nil, Value::Nil) => true,
            (Value::Bool(a), Value::Bool(b)) => *a == *b,
            (Value::Number(a), Value::Number(b)) => *a == *b,
            (Value::String(a), Value::String(b)) => same_bytes(a, b),
            (Value::Table(a), Value::Table(b)) => *a == *b,
            (Value::Function(a), Value::Function(b)) => *a == *b,
            (Value::Closure(a), Value::Closure(b)) => *a == *b,
            (Value::UserData(a), Value::UserData(b)) => *a == *b,
            _ => false,
        }
    }
}

pub open spec fn values_view(values: Seq<Value>) -> Seq<LuaValue> {
    values.map_values(|v: Value| v@)
}

/// Copies of the values `from..` of `values`.
fn duplicate_from(values: &Vec<Value>, from: usize) -> (copies: Vec<Value>)
    requires
        from <= values.len(),
    ensures
        values_view(copies@) == values_view(values@).subrange(from as int, values.len() as int),
{
    let mut copies: Vec<Value> = Vec::new();
    let mut i: usize = from;
    while i < values.len()
        invariant
            from <= i <= values.len(),
            values_view(copies@) == values_view(values@).subrange(from as int, i as int),
        decreases values.len() - i,
    {
        let ghost sofar = copies@;
        let copy = values[i].duplicate();
        copies.push(copy);
        assert(values_view(copies@) =~= values_view(sofar).push(copy@));
        i += 1;
        assert(values_view(copies@) =~= values_view(values@).subrange(from as int, i as int));
    }
    assert(values_view(copies@) =~= values_view(values@).subrange(from as int, values.len() as int));
    copies
}

pub open spec fn identity_view(id: Option<usize>) -> Option<int> {
    match id {
        Some(i) => Some(i as int),
        None => None,
    }
}

/// A table: its keys, and under the same index the value of each. A key whose value is
/// `nil` counts as absent.
struct Table {
    keys: Vec<Value>,
    values: Vec<Value>,
    metatable: Option<usize>,
}

impl Table {
    spec fn well_formed(self) -> bool {
        &&& self.keys.len() == self.values.len()
        &&& forall|i: int, j: int|
            0 <= i < j < self.keys.len() ==> self.keys[i]@ != self.keys[j]@
    }

    spec fn holds(self, key: LuaValue, i: int) -> bool {
        0 <= i < self.keys.len() && self.keys[i]@ == key
    }

    spec fn view(self) -> TableContents {
        TableContents {
            entries: Map::new(
                |key: LuaValue|
                    exists|i: int| #[trigger] self.holds(key, i) && !(self.values[i]@ is Nil),
                |key: LuaValue| self.values[choose|i: int| #[trigger] self.holds(key, i)]@,
            ),
            metatable: identity_view(self.metatable),
        }
    }

    fn empty() -> (table: Table)
        ensures
            table.well_formed(),
            table.view() == (TableContents { entries: Map::empty(), metatable: None }),
    {
        let table = Table { keys: Vec::new(), values: Vec::new(), metatable: None };
        assert(table.view().entries =~= Map::<LuaValue, LuaValue>::empty());
        table
    }

    fn find(&self, key: &Value) -> (found: Option<usize>)
        requires
            self.well_formed(),
        ensures
            match found {
                Some(i) => self.holds(key@, i as int),
                None => forall|i: int| !self.holds(key@, i),
            },
    {
        let mut i: usize = 0;
        while i < self.keys.len()
            invariant
                i <= self.keys.len(),
                forall|j: int| 0 <= j < i ==> self.keys[j]@ != key@,
            decreases self.keys.len() - i,
        {
            if self.keys[i].same(key) {
                return Some(i);
            }
            i += 1;
        }
        None
    }

    fn get(&self, key: &Value) -> (value: Value)
        requires
            self.well_formed(),
        ensures
            value@ == (if self.view().entries.contains_key(key@) {
                self.view().entries[key@]
            } else {
                LuaValue::Nil
            }),
    {
        match self.find(key) {
            Some(i) => {
                proof {
                    let chosen = choose|j: int| #[trigger] self.holds(key@, j);
                    assert(self.holds(key@, i as int));
                    assert(chosen == i);
                    if self.view().entries.contains_key(key@) {
                    } else {
                        assert(self.values[i as int]@ is Nil);
                    }
                }
                self.values[i].duplicate()
            },
            None => Value::Nil,
        }
    }

    fn set(&mut self, key: Value, value: Value)
        requires
            old(self).well_formed(),
        ensures
            final(self).well_formed(),
            final(self).view().metatable == old(self).view().metatable,
            final(self).view().entries == (if value@ is Nil {
                old(self).view().entries.remove(key@)
            } else {
                old(self).view().entries.insert(key@, value@)
            }),
    {
        let ghost k = key@;
        let ghost v = value@;
        let at: usize = match self.find(&key) {
            Some(i) => {
                self.values.set(i, value);
                i
            },
            None => {
                self.keys.push(key);
                self.values.push(value);
                self.keys.len() - 1
            },
        };
        proof {
            let before = *old(self);
            let after = *self;
            assert(after.holds(k, at as int));
            assert(after.well_formed()) by {
                assert forall|i: int, j: int| 0 <= i < j < after.keys.len() implies after.keys[i]@
                    != after.keys[j]@ by {
                    if j < before.keys.len() {
                        assert(after.keys[i] == before.keys[i] && after.keys[j] == before.keys[j]);
                    } else {
                        assert(!before.holds(k, i));
                        assert(after.keys[i] == before.keys[i]);
                    }
                }
            }
            assert forall|i: int| after.holds(k, i) implies i == at by {
                if i != at {
                    if i < at {
                        assert(after.keys[i]@ != after.keys[at as int]@);
                    } else {
                        assert(after.keys[at as int]@ != after.keys[i]@);
                    }
                }
            }
            assert forall|other: LuaValue, i: int| other != k implies (after.holds(other, i)
                <==> before.holds(other, i)) by {}
            assert forall|other: LuaValue, i: int|
                other != k && before.holds(other, i) implies after.values[i] == before.values[i] by {}
            let expected = if v is Nil {
                before.view().entries.remove(k)
            } else {
                before.view().entries.insert(k, v)
            };
            assert forall|other: LuaValue| #[trigger]
                after.view().entries.contains_key(other) == expected.contains_key(other) by {
                if other == k {
                    if !(v is Nil) {
                        assert(after.holds(k, at as int) && !(after.values[at as int]@ is Nil));
                    } else {
                        if after.view().entries.contains_key(k) {
                            let i = choose|i: int| #[trigger]
                                after.holds(k, i) && !(after.values[i]@ is Nil);
                            assert(i == at);
                        }
                    }
                } else {
                    if before.view().entries.contains_key(other) {
                        let i = choose|i: int| #[trigger]
                            before.holds(other, i) && !(before.values[i]@ is Nil);
                        assert(after.holds(other, i) && !(after.values[i]@ is Nil));
                    }
                    if after.view().entries.contains_key(other) {
                        let i = choose|i: int| #[trigger]
                            after.holds(other, i) && !(after.values[i]@ is Nil);
                        assert(before.holds(other, i) && !(before.values[i]@ is Nil));
                    }
                }
            }
            assert forall|other: LuaValue| #[trigger]
                expected.contains_key(other) implies after.view().entries[other]
                == expected[other] by {
                if other == k {
                    let chosen = choose|i: int| #[trigger] after.holds(k, i);
                    assert(chosen == at);
                } else {
                    let i = choose|i: int| #[trigger]
                        before.holds(other, i) && !(before.values[i]@ is Nil);
                    let was = choose|i: int| #[trigger] before.holds(other, i);
                    let is = choose|i: int| #[trigger] after.holds(other, i);
                    assert(after.holds(other, i));
                    assert(was == i && is == i);
                }
            }
            assert(after.view().entries =~= expected);
        }
    }
}

/// A native closure: the function and its upvalues.
struct ClosureObject {
    func: usize,
    upvalues: Vec<Value>,
}

/// The engine's allocation for a native object.
struct UserDataObject {
    object: NativeObject,
    metatable: Option<usize>,
}

/// A call that was asked for.
struct Call {
    callee: Value,
    args: Vec<Value>,
    results: i32,
}

/// The parts of an engine in memory.
struct Parts {
    stack: Vec<Value>,
    upvalues: Vec<Value>,
    references: Vec<Option<Value>>,
    tables: Vec<Table>,
    closures: Vec<ClosureObject>,
    userdata: Vec<UserDataObject>,
    calls: Vec<Call>,
}

/// An engine in memory. Its global table, environment and registry are the tables 0, 1 and 2.
pub struct MemoryEngine {
    parts: Parts,
}

pub open spec fn references_view(slots: Seq<Option<Value>>) -> Map<int, LuaValue> {
    Map::new(
        |reference: int| 0 <= reference < slots.len() && slots[reference] is Some,
        |reference: int| slots[reference]->0@,
    )
}

impl Parts {
    spec fn well_formed(self) -> bool {
        &&& self.stack.len() <= STACK_LIMIT
        &&& self.upvalues.len() <= STACK_LIMIT
        &&& forall|c: int|
            0 <= c < self.closures.len() ==> (#[trigger] self.closures[c]).upvalues.len()
                <= STACK_LIMIT
        &&& forall|t: int| 0 <= t < self.tables.len() ==> (#[trigger] self.tables[t]).well_formed()
    }

    spec fn view(self) -> EngineView {
        EngineView {
            stack: values_view(self.stack@),
            upvalues: values_view(self.upvalues@),
            references: references_view(self.references@),
            tables: Seq::new(self.tables.len() as nat, |t: int| self.tables[t].view()),
            closures: Seq::new(
                self.closures.len() as nat,
                |c: int|
                    ClosureContents {
                        func: self.closures[c].func as int,
                        upvalues: values_view(self.closures[c].upvalues@),
                    },
            ),
            userdata: Seq::new(
                self.userdata.len() as nat,
                |u: int|
                    UserDataContents {
                        object: self.userdata[u].object,
                        metatable: identity_view(self.userdata[u].metatable),
                    },
            ),
            globals: 0,
            environment: 1,
            registry: 2,
            calls: Seq::new(
                self.calls.len() as nat,
                |c: int|
                    CallRecord {
                        callee: self.calls[c].callee@,
                        args: values_view(self.calls[c].args@),
                        results: self.calls[c].results as int,
                    },
            ),
        }
    }

    fn empty() -> (parts: Parts)
        ensures
            parts.well_formed(),
            parts.view() == fresh(),
    {
        let mut tables: Vec<Table> = Vec::new();
        tables.push(Table::empty());
        tables.push(Table::empty());
        tables.push(Table::empty());
        let parts = Parts {
            stack: Vec::new(),
            upvalues: Vec::new(),
            references: Vec::new(),
            tables,
            closures: Vec::new(),
            userdata: Vec::new(),
            calls: Vec::new(),
        };
        assert(parts.view() =~~= fresh());
        parts
    }

    /// The slot that `stack_pos` addresses.
    fn locate(&self, stack_pos: i32) -> (value: &Value)
        requires
            self.well_formed(),
            self.view().valid_index(stack_pos as int),
        ensures
            value@ == self.view().value_at(stack_pos as int),
    {
        let size: i32 = self.stack.len() as i32;
        if 1 <= stack_pos && stack_pos <= size {
            &self.stack[(stack_pos - 1) as usize]
        } else if -size <= stack_pos && stack_pos <= -1 && stack_pos > LUA_REGISTRYINDEX {
            &self.stack[(size + stack_pos) as usize]
        } else {
            &self.upvalues[(crate::lua::LUA_GLOBALSINDEX - stack_pos - 1) as usize]
        }
    }

    fn push_value(&mut self, value: Value)
        requires
            old(self).well_formed(),
            old(self).view().has_room(1),
        ensures
            final(self).well_formed(),
            final(self).view() == old(self).view().pushed(value@),
    {
        self.stack.push(value);
        assert(self.view() =~~= old(self).view().pushed(value@));
    }

    fn pop_value(&mut self) -> (value: Value)
        requires
            old(self).well_formed(),
            old(self).view().top() >= 1,
        ensures
            final(self).well_formed(),
            final(self).view() == old(self).view().popped(1),
            value@ == old(self).view().stack.last(),
    {
        let value = self.stack.pop().unwrap();
        assert(self.view() =~~= old(self).view().popped(1));
        value
    }

    fn reference_create(&mut self) -> (reference: i32)
        requires
            old(self).well_formed(),
            old(self).view().top() >= 1,
            old(self).view().has_free_reference(),
        ensures
            final(self).well_formed(),
            final(self).view() == old(self).view().pinned(reference as int),
            old(self).view().stack.last() is Nil ==> reference == LUA_REFNIL,
            !(old(self).view().stack.last() is Nil) ==> reference >= 0 && !old(self).view().references.contains_key(
                reference as int,
            ),
    {
        let value = self.stack.pop().unwrap();
        assert(self.view().stack =~= old(self).view().stack.drop_last());
        assert(value@ == old(self).view().stack.last());
        if let Value::Nil = value {
            assert(self.view() =~~= old(self).view().pinned(LUA_REFNIL as int));
            return LUA_REFNIL;
        }
        let mut slot: usize = 0;
        while slot < self.references.len() && self.references[slot].is_some()
            invariant
                slot <= self.references.len(),
                forall|i: int| 0 <= i < slot ==> self.references[i] is Some,
            decreases self.references.len() - slot,
        {
            slot += 1;
        }
        if slot < self.references.len() {
            self.references.set(slot, Some(value));
        } else {
            proof {
                let free = choose|reference: i32|
                    reference >= 0 && !old(self).view().references.contains_key(reference as int);
                assert(free >= self.references.len());
            }
            self.references.push(Some(value));
        }
        assert(self.view().references =~= old(self).view().references.insert(
            slot as int,
            value@,
        ));
        assert(self.view() =~~= old(self).view().pinned(slot as int));
        slot as i32
    }

    fn reference_free(&mut self, reference: i32)
        requires
            old(self).well_formed(),
        ensures
            final(self).well_formed(),
            final(self).view() == old(self).view().released(reference as int),
    {
        if reference >= 0 && (reference as usize) < self.references.len() {
            self.references.set(reference as usize, None);
        }
        assert(self.view() =~~= old(self).view().released(reference as int));
    }

    fn referenced(&self, reference: i32) -> (value: Value)
        ensures
            value@ == self.view().referenced(reference as int),
    {
        if reference >= 0 && (reference as usize) < self.references.len() {
            match &self.references[reference as usize] {
                Some(held) => held.duplicate(),
                None => Value::Nil,
            }
        } else {
            Value::Nil
        }
    }

    /// What `table[key]` is.
    fn raw_get(&self, t: usize, key: &Value) -> (value: Value)
        requires
            self.well_formed(),
        ensures
            value@ == self.view().raw_get(t as int, key@),
    {
        if t < self.tables.len() {
            self.tables[t].get(key)
        } else {
            Value::Nil
        }
    }

    /// Stores `table[key] = value`.
    fn raw_set(&mut self, t: usize, key: Value, value: Value)
        requires
            old(self).well_formed(),
        ensures
            final(self).well_formed(),
            final(self).view() == old(self).view().raw_set(t as int, key@, value@),
    {
        if t < self.tables.len() {
            let mut table = Table::empty();
            self.tables.set_and_swap(t, &mut table);
            table.set(key, value);
            let ghost stored = table;
            self.tables.set(t, table);
            assert(self.tables[t as int] == stored);
            assert(self.view().tables =~~= old(self).view().raw_set(t as int, key@, value@).tables);
            assert(self.view() =~~= old(self).view().raw_set(t as int, key@, value@));
        }
    }

    /// The metatable of `value`.
    fn metatable_of(&self, value: &Value) -> (metatable: Option<usize>)
        ensures
            identity_view(metatable) == self.view().metatable_of(value@),
    {
        match value {
            Value::Table(t) => if *t < self.tables.len() {
                self.tables[*t].metatable
            } else {
                None
            },
            Value::UserData(u) => if *u < self.userdata.len() {
                self.userdata[*u].metatable
            } else {
                None
            },
            _ => None,
        }
    }

    fn set_metatable_of(&mut self, value: &Value, metatable: Option<usize>)
        requires
            old(self).well_formed(),
        ensures
            final(self).well_formed(),
            final(self).view() == old(self).view().with_metatable(
                value@,
                identity_view(metatable),
            ),
    {
        match value {
            Value::Table(t) => if *t < self.tables.len() {
                let mut table = Table::empty();
                self.tables.set_and_swap(*t, &mut table);
                let changed = Table { keys: table.keys, values: table.values, metatable };
                assert(changed.view().entries =~= table.view().entries) by {
                    assert forall|key: LuaValue, i: int| changed.holds(key, i) == table.holds(key, i) by {}
                }
                self.tables.set(*t, changed);
                assert(self.tables[*t as int] == changed);
                assert(self.view().tables =~~= old(self).view().with_metatable(
                    value@,
                    identity_view(metatable),
                ).tables);
                assert(self.view() =~~= old(self).view().with_metatable(
                    value@,
                    identity_view(metatable),
                ));
            },
            Value::UserData(u) => if *u < self.userdata.len() {
                let object = self.userdata[*u].object;
                self.userdata.set(*u, UserDataObject { object, metatable });
                assert(self.view() =~~= old(self).view().with_metatable(
                    value@,
                    identity_view(metatable),
                ));
            },
            _ => {},
        }
    }

    /// Takes the callee and its `args` arguments off the stack and puts the call on record.
    fn begin_call(&mut self, args: i32, results: i32) -> (callable: bool)
        requires
            old(self).well_formed(),
            0 <= args < old(self).view().top(),
        ensures
            final(self).well_formed(),
            final(self).view() == (EngineView {
                stack: old(self).view().stack.take(old(self).view().top() - args - 1),
                calls: old(self).view().calls.push(
                    old(self).view().call_asked(args as int, results as int),
                ),
                ..old(self).view()
            }),
            callable == old(self).view().call_asked(args as int, results as int).callee.callable(),
    {
        let base: usize = self.stack.len() - args as usize - 1;
        let callee = self.stack[base].duplicate();
        let passed = duplicate_from(&self.stack, base + 1);
        let callable = match &callee {
            Value::Function(_) => true,
            Value::Closure(_) => true,
            _ => false,
        };
        self.stack.truncate(base);
        self.calls.push(Call { callee, args: passed, results });
        assert(self.view() =~~= (EngineView {
            stack: old(self).view().stack.take(old(self).view().top() - args - 1),
            calls: old(self).view().calls.push(
                old(self).view().call_asked(args as int, results as int),
            ),
            ..old(self).view()
        }));
        callable
    }

    /// Pushes `count` times `nil`.
    fn push_nils(&mut self, count: i32)
        requires
            old(self).well_formed(),
            old(self).view().top() + count <= STACK_LIMIT,
        ensures
            final(self).well_formed(),
            final(self).view().top() == old(self).view().top() + (if count > 0 {
                count as int
            } else {
                0
            }),
            final(self).view().stack.take(old(self).view().top()) == old(self).view().stack,
            final(self).view() == (EngineView { stack: final(self).view().stack, ..old(self).view() }),
    {
        let mut pushed: i32 = 0;
        assert(self.view().stack.take(old(self).view().top()) =~= old(self).view().stack);
        assert(self.view() =~~= (EngineView { stack: self.view().stack, ..old(self).view() }));
        while pushed < count
            invariant
                0 <= pushed,
                count > 0 ==> pushed <= count,
                count <= 0 ==> pushed == 0,
                self.well_formed(),
                old(self).view().top() + count <= STACK_LIMIT,
                self.view().top() == old(self).view().top() + pushed,
                self.view().stack.take(old(self).view().top()) == old(self).view().stack,
                self.view() == (EngineView { stack: self.view().stack, ..old(self).view() }),
            decreases count - pushed,
        {
            let ghost before = self.view();
            self.push_value(Value::Nil);
            pushed += 1;
            assert(self.view().stack.take(old(self).view().top()) =~= before.stack.take(
                old(self).view().top(),
            ));
            assert(self.view() =~~= (EngineView { stack: self.view().stack, ..old(self).view() }));
        }
    }
}

/// The state of an engine that has just come up: nothing on the stack, nothing pinned, and the
/// three well-known tables empty.
pub open spec fn fresh() -> EngineView {
    EngineView {
        stack: Seq::empty(),
        upvalues: Seq::empty(),
        references: Map::empty(),
        tables: seq![
            TableContents { entries: Map::empty(), metatable: None },
            TableContents { entries: Map::empty(), metatable: None },
            TableContents { entries: Map::empty(), metatable: None },
        ],
        closures: Seq::empty(),
        userdata: Seq::empty(),
        globals: 0,
        environment: 1,
        registry: 2,
        calls: Seq::empty(),
    }
}

impl MemoryEngine {
    #[verifier::type_invariant]
    spec fn well_formed(self) -> bool {
        self.parts.well_formed()
    }

    /// An engine that has just come up.
    pub fn new() -> (engine: MemoryEngine)
        ensures
            engine@ == fresh(),
    {
        MemoryEngine { parts: Parts::empty() }
    }

    /// Whether `reference` is live.
    pub fn is_live(&self, reference: i32) -> (live: bool)
        ensures
            live == self@.references.contains_key(reference as int),
    {
        if reference < 0 || reference as usize >= self.parts.references.len() {
            false
        } else {
            self.parts.references[reference as usize].is_some()
        }
    }

    /// How many calls the engine was asked to make.
    pub fn call_count(&self) -> (count: usize)
        ensures
            count == self@.calls.len(),
    {
        self.parts.calls.len()
    }

    /// How many arguments the `index`-th call was given.
    pub fn call_arg_count(&self, index: usize) -> (count: usize)
        requires
            index < self@.calls.len(),
        ensures
            count == self@.calls[index as int].args.len(),
    {
        self.parts.calls[index].args.len()
    }

    /// A copy of the `arg`-th argument of the `index`-th call.
    pub fn call_arg(&self, index: usize, arg: usize) -> (value: Value)
        requires
            index < self@.calls.len(),
            arg < self@.calls[index as int].args.len(),
        ensures
            value@ == self@.calls[index as int].args[arg as int],
    {
        self.parts.calls[index].args[arg].duplicate()
    }

    /// A copy of what the `index`-th call called.
    pub fn call_callee(&self, index: usize) -> (value: Value)
        requires
            index < self@.calls.len(),
        ensures
            value@ == self@.calls[index as int].callee,
    {
        self.parts.calls[index].callee.duplicate()
    }

    /// A copy of the value at `stack_pos`.
    pub fn value_at(&self, stack_pos: i32) -> (value: Value)
        requires
            self@.valid_index(stack_pos as int),
        ensures
            value@ == self@.value_at(stack_pos as int),
    {
        proof {
            use_type_invariant(self);
        }
        self.parts.locate(stack_pos).duplicate()
    }

    /// Makes the upvalues of the closure at `stack_pos` the upvalues of the running call, as
    /// the engine does when it enters the closure.
    pub fn enter_closure(&mut self, stack_pos: i32)
        requires
            old(self)@.valid_index(stack_pos as int),
        ensures
            match old(self)@.value_at(stack_pos as int) {
                LuaValue::Closure(c) if 0 <= c < old(self)@.closures.len() => final(self)@
                    == (EngineView { upvalues: old(self)@.closures[c].upvalues, ..old(self)@ }),
                _ => final(self)@ == old(self)@,
            },
    {
        let mut parts = self.take();
        match parts.locate(stack_pos) {
            Value::Closure(c) => {
                let c: usize = *c;
                if c < parts.closures.len() {
                    let upvalues = duplicate_from(&parts.closures[c].upvalues, 0);
                    assert(values_view(upvalues@) =~= values_view(parts.closures[c as int].upvalues@));
                    parts.upvalues = upvalues;
                    assert(parts.view() =~~= (EngineView {
                        upvalues: old(self)@.closures[c as int].upvalues,
                        ..old(self)@
                    }));
                }
            },
            _ => {},
        }
        self.put(parts);
    }

    /// Takes the parts out, leaving an empty engine behind until they are put back.
    fn take(&mut self) -> (parts: Parts)
        ensures
            parts.well_formed(),
            parts.view() == old(self)@,
    {
        proof {
            use_type_invariant(&*self);
        }
        let mut taken = MemoryEngine { parts: Parts::empty() };
        core::mem::swap(self, &mut taken);
        taken.parts
    }

    fn put(&mut self, parts: Parts)
        requires
            parts.well_formed(),
        ensures
            final(self)@ == parts.view(),
    {
        *self = MemoryEngine { parts };
    }
}

impl LuaState for MemoryEngine {
    closed spec fn view(&self) -> EngineView {
        self.parts.view()
    }

    fn top(&self) -> (size: i32) {
        proof {
            use_type_invariant(self);
        }
        self.parts.stack.len() as i32
    }

    fn upvalue_count(&self) -> (count: i32) {
        proof {
            use_type_invariant(self);
        }
        self.parts.upvalues.len() as i32
    }

    fn push_copy(&mut self, stack_pos: i32) {
        let mut parts = self.take();
        let copy = parts.locate(stack_pos).duplicate();
        parts.push_value(copy);
        self.put(parts);
    }

    fn pop(&mut self, amount: i32) {
        let mut parts = self.take();
        let keep: usize = parts.stack.len() - amount as usize;
        parts.stack.truncate(keep);
        assert(parts.view() =~~= old(self)@.popped(amount as int));
        self.put(parts);
    }

    fn push_nil(&mut self) {
        let mut parts = self.take();
        parts.push_value(Value::Nil);
        self.put(parts);
    }

    fn push_bool(&mut self, val: bool) {
        let mut parts = self.take();
        parts.push_value(Value::Bool(val));
        self.put(parts);
    }

    fn push_number(&mut self, val: i128) {
        let mut parts = self.take();
        parts.push_value(Value::Number(round_to_double(val)));
        self.put(parts);
    }

    fn push_string(&mut self, val: &[u8]) {
        let mut parts = self.take();
        let bytes = vstd::slice::slice_to_vec(val);
        parts.push_value(Value::String(bytes));
        self.put(parts);
    }

    fn get_type(&self, stack_pos: i32) -> (ty: i32) {
        proof {
            use_type_invariant(self);
        }
        let size: i32 = self.parts.stack.len() as i32;
        if stack_pos > size {
            -1
        } else {
            self.parts.locate(stack_pos).kind().to_number()
        }
    }

    fn is_type(&self, stack_pos: i32, ty: i32) -> (same: bool) {
        self.get_type(stack_pos) == ty
    }

    fn get_bool(&self, stack_pos: i32) -> (val: bool) {
        proof {
            use_type_invariant(self);
        }
        match self.parts.locate(stack_pos) {
            Value::Nil => false,
            Value::Bool(b) => *b,
            _ => true,
        }
    }

    fn get_number(&self, stack_pos: i32) -> (val: i128) {
        proof {
            use_type_invariant(self);
        }
        match self.parts.locate(stack_pos) {
            Value::Number(n) => *n,
            _ => 0,
        }
    }

    fn get_string(&self, stack_pos: i32) -> (bytes: Vec<u8>) {
        proof {
            use_type_invariant(self);
        }
        match self.parts.locate(stack_pos) {
            Value::String(held) => {
                let bytes = held.clone();
                assert(bytes@ =~= held@);
                bytes
            },
            _ => Vec::new(),
        }
    }

    fn reference_create(&mut self) -> (reference: i32) {
        let mut parts = self.take();
        let reference = parts.reference_create();
        self.put(parts);
        reference
    }

    fn reference_free(&mut self, reference: i32) {
        let mut parts = self.take();
        parts.reference_free(reference);
        self.put(parts);
    }

    fn reference_push(&mut self, reference: i32) {
        let mut parts = self.take();
        let value = parts.referenced(reference);
        parts.push_value(value);
        self.put(parts);
    }

    fn push_special(&mut self, special: i32) {
        let mut parts = self.take();
        parts.push_value(Value::Table(special as usize));
        self.put(parts);
    }

    fn create_table(&mut self) {
        let mut parts = self.take();
        let t: usize = parts.tables.len();
        parts.tables.push(Table::empty());
        parts.stack.push(Value::Table(t));
        assert(parts.view() =~~= old(self)@.with_new_table());
        self.put(parts);
    }

    fn get_table(&mut self, stack_pos: i32) {
        let mut parts = self.take();
        let table = parts.locate(stack_pos).duplicate();
        let key = parts.pop_value();
        let value = match table {
            Value::Table(t) => parts.raw_get(t, &key),
            _ => Value::Nil,
        };
        parts.push_value(value);
        assert(parts.view().stack.last() == value@);
        self.put(parts);
    }

    fn set_table(&mut self, stack_pos: i32) {
        let mut parts = self.take();
        let table = parts.locate(stack_pos).duplicate();
        let value = parts.pop_value();
        let key = parts.pop_value();
        assert(parts.view() =~~= old(self)@.popped(2));
        match table {
            Value::Table(t) => parts.raw_set(t, key, value),
            _ => {},
        }
        self.put(parts);
    }

    fn get_field(&mut self, stack_pos: i32, name: &str) {
        let mut parts = self.take();
        let table = parts.locate(stack_pos).duplicate();
        let key = Value::String(vstd::slice::slice_to_vec(name.as_bytes()));
        let value = match table {
            Value::Table(t) => parts.raw_get(t, &key),
            _ => Value::Nil,
        };
        parts.push_value(value);
        assert(parts.view().stack.last() == value@);
        self.put(parts);
    }

    fn set_field(&mut self, stack_pos: i32, name: &str) {
        let mut parts = self.take();
        let table = parts.locate(stack_pos).duplicate();
        let key = Value::String(vstd::slice::slice_to_vec(name.as_bytes()));
        let value = parts.pop_value();
        match table {
            Value::Table(t) => parts.raw_set(t, key, value),
            _ => {},
        }
        self.put(parts);
    }

    fn set_metatable(&mut self, stack_pos: i32) {
        let mut parts = self.take();
        let target = parts.locate(stack_pos).duplicate();
        let top = parts.pop_value();
        let metatable = match top {
            Value::Table(m) => Some(m),
            _ => None,
        };
        parts.set_metatable_of(&target, metatable);
        self.put(parts);
    }

    fn get_metatable(&mut self, stack_pos: i32) -> (found: bool) {
        let mut parts = self.take();
        let target = parts.locate(stack_pos).duplicate();
        let found = match parts.metatable_of(&target) {
            Some(m) => {
                parts.push_value(Value::Table(m));
                true
            },
            None => false,
        };
        self.put(parts);
        found
    }

    fn push_c_function(&mut self, func: CFunc) {
        let mut parts = self.take();
        parts.push_value(Value::Function(func));
        self.put(parts);
    }

    fn push_c_closure(&mut self, func: CFunc, vars: i32) {
        let mut parts = self.take();
        let base: usize = parts.stack.len() - vars as usize;
        let upvalues = duplicate_from(&parts.stack, base);
        assert(upvalues.len() == values_view(upvalues@).len());
        assert(upvalues.len() <= STACK_LIMIT);
        let c: usize = parts.closures.len();
        parts.stack.truncate(base);
        parts.closures.push(ClosureObject { func, upvalues });
        parts.stack.push(Value::Closure(c));
        assert(parts.view() =~~= old(self)@.with_new_closure(func as int, vars as int));
        self.put(parts);
    }

    fn call(&mut self, args: i32, results: i32) {
        let mut parts = self.take();
        let _ = parts.begin_call(args, results);
        let ghost begun = parts.view();
        parts.push_nils(results);
        assert(parts.view().stack.take(begun.top()) =~= old(self)@.stack.take(begun.top()));
        self.put(parts);
    }

    fn pcall(&mut self, args: i32, results: i32, error_func: i32) -> (status: i32) {
        let mut parts = self.take();
        let callable = parts.begin_call(args, results);
        let ghost begun = parts.view();
        let status: i32 = if callable {
            parts.push_nils(results);
            STATUS_OK
        } else {
            let message = vstd::slice::slice_to_vec("attempt to call a value that is no function".as_bytes());
            parts.push_value(Value::String(message));
            STATUS_ERRRUN
        };
        assert(parts.view().stack.take(begun.top()) =~= old(self)@.stack.take(begun.top()));
        self.put(parts);
        status
    }

    fn new_user_data(&mut self, object: NativeObject) {
        let mut parts = self.take();
        let u: usize = parts.userdata.len();
        parts.userdata.push(UserDataObject { object, metatable: None });
        parts.stack.push(Value::UserData(u));
        assert(parts.view() =~~= old(self)@.with_new_user_data(object));
        self.put(parts);
    }

    fn get_user_data(&self, stack_pos: i32) -> (object: Option<NativeObject>) {
        proof {
            use_type_invariant(self);
        }
        match self.parts.locate(stack_pos) {
            Value::UserData(u) => if *u < self.parts.userdata.len() {
                Some(self.parts.userdata[*u].object)
            } else {
                None
            },
            _ => None,
        }
    }
}

} // verus!
