//! Native objects that scripts can hold.
//!
//! A script holds a native object as an opaque value. What the engine stores for it is the
//! identity of the object's type and a slot of the allocation table of that type; the object
//! itself sits in that slot, behind a lock, shared with every native handle to it. Before a
//! value from the stack is taken for an object of a type, the stored identity is compared
//! with that of the type.

use vstd::prelude::*;
use vstd::string::StringExecFns;
use core::any::TypeId;
use core::marker::PhantomData;
use std::sync::{Arc, Mutex, MutexGuard};
use crate::lua::bridge::{
    field_key, same_type, type_id_of, CFunc, EngineView, LuaState, LuaValue, NativeObject,
};
use crate::lua::error::Error;
use crate::lua::stack::{fails_with, FromStackError};
use crate::lua::{
    create_table, get_user_data, new_user_data, push_c_function, push_copy, reference_create,
    reference_push, set_field, set_metatable,
};
use crate::lua::slots::{first_free, lemma_first_free, lemma_stored, store, stored};
use crate::refs::arc_clone;

verus! {

/// std's lock around a value. Nothing is known of the value while it is behind the lock.
#[verifier::external_type_specification]
#[verifier::external_body]
#[verifier::reject_recursive_types(T)]
pub struct ExMutex<T: ?Sized>(Mutex<T>);

/// std's proof that a lock is held, through which the value is reached.
#[verifier::external_type_specification]
#[verifier::external_body]
#[verifier::reject_recursive_types(T)]
pub struct ExMutexGuard<'a, T: ?Sized + 'a>(MutexGuard<'a, T>);

/// A lock around `value`, made with `Mutex::new`.
#[verifier::external_body]
fn mutex_new<T>(value: T) -> (lock: Mutex<T>) {
    Mutex::new(value)
}

/// Waits for the lock with `Mutex::lock`. A lock that a panicking thread left behind is taken
/// all the same.
#[verifier::external_body]
fn mutex_lock<'a, T>(lock: &'a Mutex<T>) -> (guard: MutexGuard<'a, T>) {
    match lock.lock() {
        Ok(guard) => guard,
        Err(poisoned) => poisoned.into_inner(),
    }
}

/// The value that the guard gives exclusive access to, by `DerefMut::deref_mut`.
#[verifier::external_body]
fn guard_mut<'a, 'b, T>(guard: &'b mut MutexGuard<'a, T>) -> (value: &'b mut T) {
    &mut **guard
}

/// Whether the two handles point to the same allocation, by `Arc::ptr_eq`.
#[verifier::external_body]
fn arc_ptr_eq<T>(a: &Arc<T>, b: &Arc<T>) -> (same: bool)
    ensures
        same ==> **a == **b,
{
    Arc::ptr_eq(a, b)
}

/// A list of methods: the name of each and the address of its native function.
pub type MethodList = Seq<(Seq<char>, CFunc)>;

/// A native type whose objects scripts can hold.
pub trait UserType: Sized + 'static {
    /// The methods that scripts can call on an object of the type: the name of each and the
    /// address of its native function, in the order in which they are named.
    spec fn methods() -> MethodList;

    /// Names the methods that scripts can call on an object of the type.
    fn build_metatable(builder: &mut MetatableBuilder<Self>)
        ensures
            final(builder).entries() == old(builder).entries() + Self::methods(),
    ;

    /// What the teardown hook of the type does: the object and the engine as it finds them,
    /// and as it leaves them.
    spec fn tears_down(before: Self, engine: EngineView, after: Self, left: EngineView) -> bool;

    /// Called when the engine collects its allocation for the object.
    fn lua_drop<S: LuaState>(&mut self, state: &mut S)
        ensures
            Self::tears_down(*old(self), old(state)@, *final(self), final(state)@),
    ;
}

/// Collects the methods of a native type.
#[derive(Debug)]
pub struct MetatableBuilder<T> {
    _phantom: PhantomData<T>,
    methods: Vec<(String, CFunc)>,
}

impl<T> MetatableBuilder<T> {
    /// The methods named so far: the name of each and the address of its native function.
    pub closed spec fn entries(self) -> Seq<(Seq<char>, CFunc)> {
        self.methods@.map_values(|method: (String, CFunc)| (method.0@, method.1))
    }

    pub fn new() -> (builder: Self)
        ensures
            builder.entries() == Seq::<(Seq<char>, CFunc)>::empty(),
    {
        let builder = Self { _phantom: PhantomData, methods: Vec::new() };
        assert(builder.entries() =~= Seq::<(Seq<char>, CFunc)>::empty());
        builder
    }

    /// Names one more method.
    pub fn method(&mut self, name: &str, func: CFunc)
        ensures
            final(self).entries() == old(self).entries().push((name@, func)),
    {
        self.methods.push((String::from_str(name), func));
        assert(self.entries() =~= old(self).entries().push((name@, func)));
    }
}

/// The entries of a table after each of `methods` has been stored in it under its name,
/// first to last: of two methods with one name the later one stays.
pub open spec fn with_methods(
    entries: Map<LuaValue, LuaValue>,
    methods: Seq<(Seq<char>, CFunc)>,
) -> Map<LuaValue, LuaValue>
    decreases methods.len(),
{
    if methods.len() == 0 {
        entries
    } else {
        with_methods(entries, methods.drop_last()).insert(
            field_key(methods.last().0),
            LuaValue::Function(methods.last().1 as int),
        )
    }
}

/// What the metatable of a native type holds: the methods of the type, then the collector
/// under `__gc`, then the table itself under `__index`.
pub open spec fn metatable_entries(methods: Seq<(Seq<char>, CFunc)>, table: int, gc: CFunc) -> Map<
    LuaValue,
    LuaValue,
> {
    with_methods(Map::empty(), methods).insert(
        field_key("__gc"@),
        LuaValue::Function(gc as int),
    ).insert(field_key("__index"@), LuaValue::Table(table))
}

/// A method is found under its name, unless a later method has the same name.
pub proof fn lemma_method_is_stored(
    entries: Map<LuaValue, LuaValue>,
    methods: Seq<(Seq<char>, CFunc)>,
    i: int,
)
    requires
        0 <= i < methods.len(),
        forall|j: int| i < j < methods.len() ==> (#[trigger] methods[j]).0 != methods[i].0,
    ensures
        with_methods(entries, methods).contains_key(field_key(methods[i].0)),
        with_methods(entries, methods)[field_key(methods[i].0)] == LuaValue::Function(
            methods[i].1 as int,
        ),
    decreases methods.len(),
{
    if i < methods.len() - 1 {
        lemma_method_is_stored(entries, methods.drop_last(), i);
        assert(methods[methods.len() - 1].0 != methods[i].0);
        crate::lua::bridge::lemma_field_key_injective(methods.last().0, methods[i].0);
    }
}

/// The metatable of a native type holds each method of the type under its name, unless a
/// later method has the same name or the name is `__gc` or `__index`, which the collector and
/// the table itself are stored under.
pub proof fn lemma_metatable_holds_method(
    methods: Seq<(Seq<char>, CFunc)>,
    table: int,
    gc: CFunc,
    i: int,
)
    requires
        0 <= i < methods.len(),
        forall|j: int| i < j < methods.len() ==> (#[trigger] methods[j]).0 != methods[i].0,
        methods[i].0 != "__gc"@,
        methods[i].0 != "__index"@,
    ensures
        metatable_entries(methods, table, gc).contains_key(field_key(methods[i].0)),
        metatable_entries(methods, table, gc)[field_key(methods[i].0)] == LuaValue::Function(
            methods[i].1 as int,
        ),
        metatable_entries(methods, table, gc)[field_key("__gc"@)] == LuaValue::Function(
            gc as int,
        ),
        metatable_entries(methods, table, gc)[field_key("__index"@)] == LuaValue::Table(table),
{
    lemma_method_is_stored(Map::empty(), methods, i);
    crate::lua::bridge::lemma_field_key_injective(methods[i].0, "__gc"@);
    crate::lua::bridge::lemma_field_key_injective(methods[i].0, "__index"@);
    reveal_strlit("__gc");
    reveal_strlit("__index");
    assert("__gc"@.len() != "__index"@.len());
    crate::lua::bridge::lemma_field_key_injective("__gc"@, "__index"@);
}

/// A handle to a native object. Its clones share the object, which sits behind a lock.
#[derive(Debug)]
#[verifier::reject_recursive_types(T)]
pub struct UserData<T: UserType> {
    ty: TypeId,
    value: Arc<Mutex<T>>,
}

impl<T: UserType> UserData<T> {
    /// The identity of the object's type, as the handle carries it.
    pub closed spec fn ty(self) -> TypeId {
        self.ty
    }

    /// Puts `value` behind a lock and hands out the first handle to it.
    pub fn new(value: T) -> Self {
        Self { ty: type_id_of::<T>(), value: Arc::new(mutex_new(value)) }
    }

    /// Locks the object and lets `func` work on it. `func` must not call into the engine: if
    /// the engine came back for the same object, the thread would wait for itself.
    pub fn with<F, R>(&self, func: F) -> (result: R) where F: FnOnce(&mut T) -> R
        requires
            forall|value: &mut T| call_requires(func, (value,)),
        ensures
            exists|value: &mut T| call_ensures(func, (value,), result),
    {
        let mut this = self.lock();
        let value = guard_mut(&mut this);
        func(value)
    }

    /// Locks the object. Careful: locking the same object twice on one thread never returns.
    pub fn lock(&self) -> MutexGuard<'_, T> {
        mutex_lock(&self.value)
    }

    /// Checks if 2 `UserData` point to the same data.
    pub fn ptr_eq(&self, other: &Self) -> (same: bool)
        ensures
            same ==> *self == *other || self.ty() != other.ty(),
    {
        arc_ptr_eq(&self.value, &other.value)
    }

    /// One more handle to the same object.
    pub fn clone(&self) -> (second: Self)
        ensures
            second == *self,
    {
        Self { ty: self.ty, value: arc_clone(&self.value) }
    }
}

/// What the engine stores for the native object at `stack_pos`, if there is one.
pub open spec fn object_at(engine: EngineView, stack_pos: int) -> Option<NativeObject> {
    if engine.valid_index(stack_pos) {
        engine.native_object(engine.value_at(stack_pos))
    } else {
        None
    }
}

/// A value that is no allocation for a native object, a text for one, is never taken for an
/// object of any type.
pub proof fn lemma_only_objects_resolve<T: UserType>(
    registry: UserDataRegistry<T>,
    engine: EngineView,
    stack_pos: int,
)
    requires
        !(engine.type_at(stack_pos) == crate::lua::LuaType::UserData),
    ensures
        registry.resolve(object_at(engine, stack_pos)) is None,
{
}

/// An allocation that stands for an object of another type is never taken for an object of
/// this type.
pub proof fn lemma_other_types_do_not_resolve<T: UserType>(
    registry: UserDataRegistry<T>,
    object: NativeObject,
)
    requires
        object.ty != registry.ty(),
    ensures
        registry.resolve(Some(object)) is None,
{
}

/// The collector of the native type `T`: the engine calls it with the allocation that it is
/// about to collect as its first argument. The slot of the allocation is emptied, the
/// object's teardown hook runs once, under the object's lock, on the engine as the collector
/// was handed it, and what the allocation stood for is given up: once, however many native
/// handles to the object remain.
pub fn user_data_gc<S: LuaState, T: UserType>(state: &mut S, registry: &mut UserDataRegistry<T>)
    requires
        old(state)@.valid_index(1),
    ensures
        final(registry).ty() == old(registry).ty(),
        final(registry).metatable() == old(registry).metatable(),
        match old(registry).resolve(object_at(old(state)@, 1)) {
            Some(_) => final(registry).allocations() == old(registry).allocations().update(
                object_at(old(state)@, 1)->0.slot as int,
                None,
            ) && exists|object: T, left: T| #[trigger]
                T::tears_down(object, old(state)@, left, final(state)@),
            None => final(registry).allocations() == old(registry).allocations() && final(state)@
                == old(state)@,
        },
{
    match get_user_data(&*state, 1) {
        Some(object) => {
            if same_type(&object.ty, &registry.ty) && object.slot < registry.allocations.len() {
                let mut held: Option<UserData<T>> = None;
                registry.allocations.set_and_swap(object.slot, &mut held);
                match held {
                    Some(handle) => {
                        let mut this = handle.lock();
                        let value = guard_mut(&mut this);
                        let ghost object = *value;
                        value.lua_drop(state);
                        assert(T::tears_down(object, old(state)@, *value, state@));
                    },
                    None => {
                        assert(registry.allocations@ =~= old(registry).allocations@);
                    },
                }
            }
        },
        None => {},
    }
}

/// The engine while the metatable of a native type is put together: the new table is on top
/// of the stack, has no metatable of its own, and nothing else differs from `before`.
pub open spec fn building(before: EngineView, now: EngineView) -> bool {
    let t = before.tables.len() as int;
    &&& now.stack == before.stack.push(LuaValue::Table(t))
    &&& now.tables.len() == t + 1
    &&& now.tables.take(t) == before.tables
    &&& now.tables[t].metatable is None
    &&& now == (EngineView { stack: now.stack, tables: now.tables, ..before })
}

/// With one more value on top of the table that is being built, the table is second to the
/// top and taking the value off gives the engine back.
proof fn lemma_building_frame(start: EngineView, before: EngineView, pushed: EngineView)
    requires
        building(start, before),
        pushed.top() == before.top() + 1,
        pushed == before.pushed(pushed.stack.last()),
    ensures
        pushed.valid_index(-2),
        pushed.value_at(-2) == LuaValue::Table(start.tables.len() as int),
        pushed.popped(1) == before,
{
    assert(pushed.popped(1) =~= before);
}

/// Storing the value on top into the table that is being built leaves the engine as one in
/// which the table is still being built, with that field set.
proof fn lemma_building_step(
    start: EngineView,
    before: EngineView,
    pushed: EngineView,
    after: EngineView,
)
    requires
        building(start, before),
        pushed.top() == before.top() + 1,
        pushed == before.pushed(pushed.stack.last()),
        exists|key: LuaValue| #[trigger]
            before.writes(start.tables.len() as int, key, pushed.stack.last(), after),
    ensures
        building(start, after),
        forall|key: LuaValue| #[trigger]
            before.writes(start.tables.len() as int, key, pushed.stack.last(), after) ==> after
                == before.raw_set(start.tables.len() as int, key, pushed.stack.last()),
{
    let t = start.tables.len() as int;
    let key = choose|key: LuaValue| #[trigger]
        before.writes(t, key, pushed.stack.last(), after);
    assert(after == before.raw_set(t, key, pushed.stack.last()));
    assert(after.tables.take(t) =~= before.tables.take(t));
}

/// What a native type is registered as with one engine: the identity of the type, the
/// reference of the metatable that its objects share, and the allocation table that holds
/// what the engine's allocations stand for.
#[verifier::reject_recursive_types(T)]
pub struct UserDataRegistry<T: UserType> {
    ty: TypeId,
    metatable: i32,
    allocations: Vec<Option<UserData<T>>>,
}

impl<T: UserType> UserDataRegistry<T> {
    /// The identity of the type.
    pub closed spec fn ty(self) -> TypeId {
        self.ty
    }

    /// The reference of the metatable.
    pub closed spec fn metatable(self) -> int {
        self.metatable as int
    }

    /// The allocation table: under each slot the handle that the engine's allocation stands
    /// for, or nothing once the engine has collected it.
    pub closed spec fn allocations(self) -> Seq<Option<UserData<T>>> {
        self.allocations@
    }

    /// The handle that `object` stands for, if it is an object of this type that the engine
    /// has not collected.
    pub open spec fn resolve(self, object: Option<NativeObject>) -> Option<UserData<T>> {
        match object {
            Some(object) if object.ty == self.ty() && object.slot < self.allocations().len() =>
                self.allocations()[object.slot as int],
            _ => None,
        }
    }

    /// Whether the engine still has the metatable of the type pinned.
    pub open spec fn registered_in(self, engine: EngineView) -> bool {
        engine.referenced(self.metatable()) is Table
    }

    /// The engine after an allocation for slot `slot` has been pushed and given the
    /// metatable of the type.
    pub open spec fn with_object(self, engine: EngineView, slot: usize) -> EngineView {
        engine.with_new_user_data(NativeObject { ty: self.ty(), slot }).with_metatable(
            LuaValue::UserData(engine.userdata.len() as int),
            Some(engine.referenced(self.metatable())->Table_0),
        )
    }

    /// Hands the object behind `handle` to the engine: the handle goes into the first empty
    /// slot of the allocation table, and an allocation that stands for the slot is pushed,
    /// with the metatable of the type. Returns the number of values pushed, which is 1.
    pub fn push<S: LuaState>(&mut self, state: &mut S, handle: UserData<T>) -> (count: i32)
        requires
            old(state)@.has_room(2),
            old(self).registered_in(old(state)@),
        ensures
            count == 1,
            final(self).ty() == old(self).ty(),
            final(self).metatable() == old(self).metatable(),
            final(self).allocations() == stored(old(self).allocations(), handle),
            final(state)@ == old(self).with_object(
                old(state)@,
                first_free(old(self).allocations()) as usize,
            ),
            final(self).resolve(object_at(final(state)@, -1)) == Some(handle),
            forall|object: NativeObject|
                old(self).resolve(Some(object)) is Some ==> #[trigger] final(self).resolve(
                    Some(object),
                ) == old(self).resolve(Some(object)),
    {
        proof {
            lemma_stored(self.allocations@, handle);
            lemma_first_free(self.allocations@, 0);
        }
        let slot: usize = store(&mut self.allocations, handle);
        new_user_data(state, NativeObject { ty: self.ty, slot });
        let ghost made = state@;
        reference_push(state, self.metatable);
        assert(state@.popped(1) =~= made);
        set_metatable(state, -2);
        1
    }

    /// Reads the native object at `stack_pos`: the value must be an allocation that stands
    /// for an object of this type which the engine has not collected.
    pub fn from_stack<S: LuaState>(&self, state: &S, stack_pos: i32) -> (read: Result<
        (UserData<T>, i32),
        Error,
    >)
        requires
            state@.acceptable_index(stack_pos as int),
        ensures
            match self.resolve(object_at(state@, stack_pos as int)) {
                Some(handle) => read == Ok::<(UserData<T>, i32), Error>((handle, 1)),
                None => fails_with(read, FromStackError::InvalidUserdataType),
            },
    {
        if stack_pos > crate::lua::top(state) {
            return Err(Error::Generic(FromStackError::InvalidUserdataType));
        }
        match get_user_data(state, stack_pos) {
            Some(object) => {
                if same_type(&object.ty, &self.ty) && object.slot < self.allocations.len() {
                    match &self.allocations[object.slot] {
                        Some(handle) => Ok((handle.clone(), 1)),
                        None => Err(Error::Generic(FromStackError::InvalidUserdataType)),
                    }
                } else {
                    Err(Error::Generic(FromStackError::InvalidUserdataType))
                }
            },
            None => Err(Error::Generic(FromStackError::InvalidUserdataType)),
        }
    }

    /// Registers the type with the engine: builds the metatable that its objects share, with
    /// the methods of the type, the collector `gc` under `__gc` and the table itself under
    /// `__index`, and pins it.
    pub fn register<S: LuaState>(state: &mut S, gc: CFunc) -> (registry: Self)
        requires
            old(state)@.has_room(2),
            old(state)@.has_free_reference(),
        ensures
            registry.allocations().len() == 0,
            0 <= registry.metatable() <= i32::MAX,
            !old(state)@.references.contains_key(registry.metatable()),
            final(state)@ == (EngineView {
                tables: final(state)@.tables,
                references: old(state)@.references.insert(
                    registry.metatable(),
                    LuaValue::Table(old(state)@.tables.len() as int),
                ),
                ..old(state)@
            }),
            final(state)@.tables.len() == old(state)@.tables.len() + 1,
            final(state)@.tables.take(old(state)@.tables.len() as int) == old(state)@.tables,
            final(state)@.tables.last().metatable is None,
            final(state)@.tables.last().entries == metatable_entries(
                T::methods(),
                old(state)@.tables.len() as int,
                gc,
            ),
            final(state)@.tables.last().entries.contains_key(field_key("__gc"@)),
            final(state)@.tables.last().entries[field_key("__gc"@)] == LuaValue::Function(
                gc as int,
            ),
            final(state)@.tables.last().entries.contains_key(field_key("__index"@)),
            final(state)@.tables.last().entries[field_key("__index"@)] == LuaValue::Table(
                old(state)@.tables.len() as int,
            ),
    {
        let ghost t = old(state)@.tables.len() as int;
        let table = create_table(state);
        assert(state@.tables.take(t) =~= old(state)@.tables);
        let mut builder = MetatableBuilder::new();
        <T as UserType>::build_metatable(&mut builder);
        assert(builder.entries() =~= T::methods());
        assert(state@.tables[t].entries =~= with_methods(
            Map::empty(),
            builder.entries().take(0),
        ));
        let mut i: usize = 0;
        while i < builder.methods.len()
            invariant
                i <= builder.methods.len(),
                t == old(state)@.tables.len(),
                building(old(state)@, state@),
                old(state)@.has_room(2),
                state@.tables[t].entries == with_methods(
                    Map::empty(),
                    builder.entries().take(i as int),
                ),
            decreases builder.methods.len() - i,
        {
            let ghost before = state@;
            push_c_function(state, builder.methods[i].1);
            proof {
                lemma_building_frame(old(state)@, before, state@);
            }
            let ghost pushed = state@;
            set_field(state, -2, builder.methods[i].0.as_str());
            proof {
                lemma_building_step(old(state)@, before, pushed, state@);
                let named = builder.entries().take(i + 1);
                assert(named.drop_last() =~= builder.entries().take(i as int));
                assert(named.last() == (builder.methods[i as int].0@, builder.methods[i as int].1));
                assert(before.writes(
                    t,
                    field_key(builder.methods[i as int].0@),
                    pushed.stack.last(),
                    state@,
                ));
            }
            i += 1;
        }
        assert(builder.entries().take(i as int) =~= T::methods());
        let ghost before = state@;
        push_c_function(state, gc);
        proof {
            lemma_building_frame(old(state)@, before, state@);
        }
        let ghost pushed = state@;
        set_field(state, -2, "__gc");
        proof {
            lemma_building_step(old(state)@, before, pushed, state@);
            assert(before.writes(t, field_key("__gc"@), pushed.stack.last(), state@));
        }
        let ghost collected = state@;
        push_copy(state, -1);
        proof {
            lemma_building_frame(old(state)@, collected, state@);
        }
        let ghost copied = state@;
        set_field(state, -2, "__index");
        proof {
            lemma_building_step(old(state)@, collected, copied, state@);
            assert(collected.writes(t, field_key("__index"@), copied.stack.last(), state@));
        }
        proof {
            reveal_strlit("__gc");
            reveal_strlit("__index");
            assert("__gc"@.len() != "__index"@.len());
            crate::lua::bridge::lemma_field_key_injective("__gc"@, "__index"@);
        }
        let ghost built = state@;
        proof {
            let free = choose|reference: i32|
                reference >= 0 && !old(state)@.references.contains_key(reference as int);
            assert(!built.references.contains_key(free as int));
        }
        let r = reference_create(state);
        assert(state@ =~= (EngineView {
            tables: state@.tables,
            references: old(state)@.references.insert(r as int, LuaValue::Table(t)),
            ..old(state)@
        }));
        Self { ty: type_id_of::<T>(), metatable: r, allocations: Vec::new() }
    }
}

} // verus!
