//! The handle that most native functions keep a callback in: it can be cloned and sent to any
//! thread, and the reference is given up with the last clone.

use vstd::prelude::*;
use std::sync::Arc;
use crate::internal::{Mailbox, ThreadAffinity};
use crate::lua::bridge::{EngineView, LuaState};
use crate::lua::stack::ToStack;
use crate::lua::{push_copy, reference_create, reference_push};
use crate::refs::{arc_clone, arc_into_inner, drop_last, free_last, handed_out};

verus! {

/// What the clones of an [`OwnedRef`] share: the reference itself.
#[derive(Debug)]
struct Internal(i32);

/// A reference that is shared by its clones.
#[derive(Debug)]
pub struct OwnedRef(Arc<Internal>);

impl OwnedRef {
    /// The reference that the clones share.
    pub closed spec fn id(&self) -> int {
        (*self.0).0 as int
    }

    /// Creates a new [OwnedRef] of the element at `stack_pos`
    pub fn new<S: LuaState>(state: &mut S, stack_pos: i32) -> (handle: Self)
        requires
            old(state)@.valid_index(stack_pos as int),
            old(state)@.has_room(1),
            old(state)@.has_free_reference(),
        ensures
            final(state)@ == old(state)@.pushed(old(state)@.value_at(stack_pos as int)).pinned(
                handle.id(),
            ),
            handed_out(old(state)@, old(state)@.value_at(stack_pos as int), handle.id()),
    {
        push_copy(state, stack_pos);
        proof {
            let free = choose|reference: i32|
                reference >= 0 && !old(state)@.references.contains_key(reference as int);
            assert(!state@.references.contains_key(free as int));
        }
        Self::from_top_of_stack(state)
    }

    /// Creates a new [OwnedRef] of the element at the top of the stack and pops it off
    pub fn from_top_of_stack<S: LuaState>(state: &mut S) -> (handle: Self)
        requires
            old(state)@.top() >= 1,
            old(state)@.has_free_reference(),
        ensures
            final(state)@ == old(state)@.pinned(handle.id()),
            handed_out(old(state)@, old(state)@.stack.last(), handle.id()),
    {
        let reference = reference_create(state);
        Self(Arc::new(Internal(reference)))
    }

    /// One more handle to the same reference.
    pub fn clone(&self) -> (second: Self)
        ensures
            second.id() == self.id(),
    {
        Self(arc_clone(&self.0))
    }

    /// Gives this handle up. With the last of its clones the reference is given up: freed at
    /// once on the owning thread, queued for the next pass over the mailbox on any other.
    pub fn release<S: LuaState, J>(self, cell: &mut ThreadAffinity<S>, mailbox: &Mailbox<J>)
        ensures
            match old(cell).engine() {
                Some(engine) => final(cell).engine() == Some(engine) || final(cell).engine()
                    == Some(engine.released(self.id())),
                None => final(cell).engine() is None,
            },
    {
        let last = match arc_into_inner(self.0) {
            Some(last) => Some(last.0),
            None => None,
        };
        drop_last(last, cell, mailbox)
    }
}

impl ToStack for OwnedRef {
    open spec fn can_push(&self, engine: EngineView) -> bool {
        engine.has_room(1)
    }

    /// The value is pushed; the reference is freed if this was its last handle.
    open spec fn pushes(&self, before: EngineView, after: EngineView) -> bool {
        ||| after == before.pushed(before.referenced(self.id()))
        ||| after == before.pushed(before.referenced(self.id())).released(self.id())
    }

    open spec fn slots(&self) -> int {
        1
    }

    fn push<S: LuaState>(self, state: &mut S) -> (count: i32) {
        reference_push(state, self.0.0);
        let last = match arc_into_inner(self.0) {
            Some(last) => Some(last.0),
            None => None,
        };
        free_last(state, last);
        assert(state@.stack.take(old(state)@.top()) =~= old(state)@.stack);
        1
    }
}

} // verus!
