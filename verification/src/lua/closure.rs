//! Native closures that scripts can call.
//!
//! To the engine a native closure is a function with one upvalue: an allocation that stands
//! for a slot of the closure table, where the closure itself sits. When the engine calls the
//! function, the closure is looked up and run; when the engine collects the allocation, the
//! slot is emptied.

use vstd::prelude::*;
use core::any::TypeId;
use crate::lua::bridge::{
    field_key, same_type, type_id_of, CFunc, EngineView, LuaState, LuaValue, NativeObject,
};
use crate::lua::error::Error;
use crate::lua::slots::{first_free, lemma_first_free, lemma_stored, store, stored};
use crate::lua::stack::{FromStackError, ToStack};
use crate::lua::{
    create_table, error_buffer, error_buffer_of, finish_call, get_user_data, new_user_data,
    push_c_closure, push_c_function, set_field, set_metatable, spec_upvalue_index, upvalue_index,
    NativeOutcome,
};

verus! {

/// The closures that the engine holds allocations for, by slot.
#[verifier::reject_recursive_types(F)]
pub struct ClosureTable<F> {
    ty: TypeId,
    slots: Vec<Option<F>>,
}

impl<F: 'static> ClosureTable<F> {
    /// The identity of the type of the closures.
    pub closed spec fn ty(self) -> TypeId {
        self.ty
    }

    /// Under each slot the closure, or nothing once the engine has collected it.
    pub closed spec fn slots(self) -> Seq<Option<F>> {
        self.slots@
    }

    /// The closure that `object` stands for, if it stands for one that is still there.
    pub open spec fn resolve(self, object: Option<NativeObject>) -> Option<F> {
        match object {
            Some(object) if object.ty == self.ty() && object.slot < self.slots().len() =>
                self.slots()[object.slot as int],
            _ => None,
        }
    }

    /// A table that holds no closure.
    pub fn new() -> (table: Self)
        ensures
            table.slots().len() == 0,
    {
        Self { ty: type_id_of::<F>(), slots: Vec::new() }
    }

    /// Puts `func` in the first empty slot and says what the engine is to store for it.
    pub fn store(&mut self, func: F) -> (object: NativeObject)
        ensures
            final(self).ty() == old(self).ty(),
            final(self).slots() == stored(old(self).slots(), func),
            object == (NativeObject {
                ty: old(self).ty(),
                slot: first_free(old(self).slots()) as usize,
            }),
            final(self).resolve(Some(object)) == Some(func),
    {
        proof {
            lemma_stored(self.slots@, func);
            lemma_first_free(self.slots@, 0);
        }
        let slot: usize = store(&mut self.slots, func);
        NativeObject { ty: self.ty, slot }
    }

    /// The slot that `object` stands for, if it stands for one of this table.
    fn slot_of(&self, object: Option<NativeObject>) -> (slot: Option<usize>)
        ensures
            match slot {
                Some(slot) => object matches Some(o) && o.ty == self.ty() && o.slot == slot
                    && slot < self.slots().len(),
                None => self.resolve(object) is None,
            },
    {
        match object {
            Some(object) => {
                if same_type(&object.ty, &self.ty) && object.slot < self.slots.len() {
                    Some(object.slot)
                } else {
                    None
                }
            },
            None => None,
        }
    }
}

/// A native closure, ready to be pushed: what the engine is to store for it, and the
/// addresses of the two functions through which the engine reaches it, one that the engine
/// calls to run the closure and one that it calls when it collects the allocation.
#[derive(Debug, Clone, Copy)]
pub struct Closure {
    pub object: NativeObject,
    pub call: CFunc,
    pub gc: CFunc,
}

/// Creates a closure that can be pushed to the stack: `func` goes into the closure table.
pub fn closure<F: 'static>(table: &mut ClosureTable<F>, func: F, call: CFunc, gc: CFunc) -> (made:
    Closure)
    ensures
        final(table).ty() == old(table).ty(),
        final(table).slots() == stored(old(table).slots(), func),
        made.call == call,
        made.gc == gc,
        final(table).resolve(Some(made.object)) == Some(func),
{
    let object = table.store(func);
    Closure { object, call, gc }
}

/// The engine after `made` has been pushed: a fresh allocation for the closure, whose fresh
/// metatable holds the collector under `__gc`, is the one upvalue of a fresh function over
/// the caller, and that function is on top of the stack.
pub open spec fn with_closure(engine: EngineView, made: Closure) -> EngineView {
    let u = engine.userdata.len() as int;
    let t = engine.tables.len() as int;
    engine.with_new_user_data(made.object).with_new_table().raw_set(
        t,
        field_key("__gc"@),
        LuaValue::Function(made.gc as int),
    ).popped(1).with_metatable(LuaValue::UserData(u), Some(t)).with_new_closure(
        made.call as int,
        1,
    )
}

impl ToStack for Closure {
    open spec fn can_push(&self, engine: EngineView) -> bool {
        engine.has_room(3)
    }

    open spec fn pushes(&self, before: EngineView, after: EngineView) -> bool {
        after == with_closure(before, *self)
    }

    open spec fn slots(&self) -> int {
        1
    }

    fn push<S: LuaState>(self, state: &mut S) -> (count: i32) {
        new_user_data(state, self.object);
        let ghost allocated = state@;
        create_table(state);
        let ghost tabled = state@;
        push_c_function(state, self.gc);
        assert(state@.popped(1) =~= tabled);
        set_field(state, -2, "__gc");
        let ghost collected = state@;
        assert(collected.stack =~= tabled.stack);
        set_metatable(state, -2);
        push_c_closure(state, self.call, 1);
        assert(state@.stack.take(old(state)@.top()) =~= old(state)@.stack);
        1
    }
}

/// Pushes a native closure to the stack
pub fn push_closure<S: LuaState, F: 'static>(
    state: &mut S,
    table: &mut ClosureTable<F>,
    func: F,
    call: CFunc,
    gc: CFunc,
)
    requires
        old(state)@.has_room(3),
    ensures
        final(table).ty() == old(table).ty(),
        final(table).slots() == stored(old(table).slots(), func),
        exists|made: Closure| #[trigger]
            final(table).resolve(Some(made.object)) == Some(func) && made.call == call && made.gc
                == gc && final(state)@ == with_closure(old(state)@, made),
{
    let made = closure(table, func, call, gc);
    crate::lua::push(state, made);
    assert(table.resolve(Some(made.object)) == Some(func));
}

/// What the engine stores for the running closure: what its first upvalue is an allocation
/// for.
pub open spec fn running_closure(engine: EngineView) -> Option<NativeObject> {
    if engine.upvalues.len() >= 1 {
        engine.native_object(engine.upvalues[0])
    } else {
        None
    }
}

/// The body of the function through which the engine calls a native closure: the closure
/// that the first upvalue stands for is run, in its slot, where it keeps what it changes of
/// itself for its next call, and what it came to ends the call. Where the
/// upvalue stands for no closure, an error is raised.
pub fn closure_call<S: LuaState, F: 'static, R: ToStack>(
    state: &mut S,
    table: &mut ClosureTable<F>,
) -> (outcome: NativeOutcome) where F: FnMut(&mut S) -> Result<R, Error>
    requires
        forall|func: F, s: &mut S| #[trigger] call_requires(func, (s,)),
        forall|func: F, s: &mut S, value: R|
            call_ensures(func, (s,), Ok::<R, Error>(value)) ==> value.can_push((*final(s))@),
    ensures
        final(table).ty() == old(table).ty(),
        final(table).slots().len() == old(table).slots().len(),
        old(table).resolve(running_closure(old(state)@)) is None ==> final(state)@ == old(state)@
            && final(table).slots() == old(table).slots() && (outcome matches NativeOutcome::Raised(
            buffer,
        ) && buffer@ == error_buffer_of(
            vstd::utf8::encode_utf8(FromStackError::InvalidUserdataType.message_text()),
        )),
        old(table).resolve(running_closure(old(state)@)) matches Some(func) ==> exists|
            s: &mut S,
            result: Result<R, Error>,
        |
            (*s)@ == old(state)@ && #[trigger] call_ensures(func, (s,), result) && finished(
                (*final(s))@,
                result,
                outcome,
                final(state)@,
            ),
        old(table).resolve(running_closure(old(state)@)) is Some ==> final(table).resolve(
            running_closure(old(state)@),
        ) is Some,
        forall|slot: int|
            0 <= slot < old(table).slots().len() && !(running_closure(old(state)@) matches Some(
                object,
            ) && object.slot == slot) ==> #[trigger] final(table).slots()[slot] == old(
                table,
            ).slots()[slot],
{
    let object = if crate::lua::bridge::LuaState::top(&*state) >= 0 && has_upvalue(&*state) {
        get_user_data(&*state, upvalue_index(1))
    } else {
        None
    };
    match table.slot_of(object) {
        Some(slot) => {
            let mut held: Option<F> = None;
            table.slots.set_and_swap(slot, &mut held);
            match held {
                Some(mut func) => {
                    let result = func(state);
                    let ghost ran = state@;
                    table.slots.set(slot, Some(func));
                    let outcome = finish_call(state, result);
                    assert(finished(ran, result, outcome, state@));
                    outcome
                },
                None => {
                    assert(table.slots@ =~= old(table).slots@);
                    missing_closure()
                },
            }
        },
        None => missing_closure(),
    }
}

/// How a native call ends once its body has come to `result` in the engine `ran`.
pub open spec fn finished<R: ToStack>(
    ran: EngineView,
    result: Result<R, Error>,
    outcome: NativeOutcome,
    after: EngineView,
) -> bool {
    match result {
        Ok(value) => outcome == NativeOutcome::Returned(value.slots() as i32) && value.pushes(
            ran,
            after,
        ),
        Err(err) => after == ran && (outcome matches NativeOutcome::Raised(buffer) && buffer@
            == error_buffer_of(vstd::utf8::encode_utf8(err.message_text()))),
    }
}

/// The error for a call that reached no closure.
fn missing_closure() -> (outcome: NativeOutcome)
    ensures
        outcome matches NativeOutcome::Raised(buffer) && buffer@ == error_buffer_of(
            vstd::utf8::encode_utf8(FromStackError::InvalidUserdataType.message_text()),
        ),
{
    let message = FromStackError::InvalidUserdataType.message();
    NativeOutcome::Raised(error_buffer(message.as_str()))
}

/// Whether the running closure has an upvalue.
fn has_upvalue<S: LuaState>(state: &S) -> (has: bool)
    ensures
        has == (state@.upvalues.len() >= 1),
        has ==> state@.valid_index(spec_upvalue_index(1)),
{
    state.upvalue_count() >= 1
}

/// The body of the function that the engine calls when it collects the allocation of a
/// native closure, which it hands over as the first argument: the slot of the closure is
/// emptied and the closure is given up.
pub fn closure_gc<S: LuaState, F: 'static>(state: &S, table: &mut ClosureTable<F>) -> (count: i32)
    requires
        state@.valid_index(1),
    ensures
        count == 0,
        final(table).ty() == old(table).ty(),
        match old(table).resolve(state@.native_object(state@.value_at(1))) {
            Some(_) => final(table).slots() == old(table).slots().update(
                state@.native_object(state@.value_at(1))->0.slot as int,
                None,
            ),
            None => final(table).slots() == old(table).slots(),
        },
{
    let object = get_user_data(state, 1);
    match table.slot_of(object) {
        Some(slot) => {
            let mut held: Option<F> = None;
            table.slots.set_and_swap(slot, &mut held);
            if held.is_none() {
                assert(table.slots@ =~= old(table).slots@);
            }
        },
        None => {},
    }
    0
}

} // verus!
