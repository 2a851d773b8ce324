//! Handles to values that the engine keeps alive beyond the call that made them.
//!
//! A handle may live and die on any thread. The engine's reference table, though, is only
//! ever changed on the owning thread: a handle that is given up where the engine is at hand
//! frees its reference at once, one that is given up anywhere else leaves a request in the
//! mailbox.

use vstd::prelude::*;
use std::sync::atomic::{AtomicI32, Ordering};
use std::sync::Arc;
use crate::internal::{free_request, send_internal_message, InternalMessage, Mailbox, ThreadAffinity};
use crate::lua::bridge::{EngineView, LuaState, LuaValue, LUA_NOREF};
use crate::lua::error::Error;
use crate::lua::stack::{FromStack, ToStack};
use crate::lua::{push_copy, reference_create, reference_free, reference_push};

verus! {

/// A second handle to what `shared` holds, made with `Arc::clone`.
#[verifier::external_body]
pub(crate) fn arc_clone<T>(shared: &Arc<T>) -> (second: Arc<T>)
    ensures
        *second == **shared,
{
    Arc::clone(shared)
}

/// What `shared` holds, if this was the last handle to it, taken out with `Arc::into_inner`.
#[verifier::external_body]
pub(crate) fn arc_into_inner<T>(shared: Arc<T>) -> (inner: Option<T>)
    ensures
        inner matches Some(held) ==> held == *shared,
{
    Arc::into_inner(shared)
}

/// Frees `reference` where the engine is at hand, and says what to send where it is not.
pub fn release_or_defer<S: LuaState, J>(reference: i32, cell: &mut ThreadAffinity<S>) -> (request:
    Option<InternalMessage<J>>)
    ensures
        match old(cell).engine() {
            Some(engine) => request is None && final(cell).engine() == Some(
                engine.released(reference as int),
            ),
            None => request == Some(InternalMessage::<J>::ReferenceFree(reference))
                && final(cell).engine() is None,
        },
{
    match crate::internal::get_lua_state(cell) {
        Some(state) => {
            reference_free(state, reference);
            None
        },
        None => Some(free_request(reference)),
    }
}

/// Gives `reference` up: it is freed at once on the owning thread, and queued for the next
/// pass over the mailbox on any other.
pub fn drop_reference<S: LuaState, J>(
    reference: i32,
    cell: &mut ThreadAffinity<S>,
    mailbox: &Mailbox<J>,
)
    ensures
        match old(cell).engine() {
            Some(engine) => final(cell).engine() == Some(engine.released(reference as int)),
            None => final(cell).engine() is None,
        },
{
    match release_or_defer(reference, cell) {
        Some(request) => send_internal_message(mailbox, request),
        None => {},
    }
}

/// Gives up what the last handle to a shared reference left behind: `last` is the reference
/// where the handle that was given up was the last one, and nothing where other handles
/// remain, in which case nothing happens.
pub fn drop_last<S: LuaState, J>(
    last: Option<i32>,
    cell: &mut ThreadAffinity<S>,
    mailbox: &Mailbox<J>,
)
    ensures
        match (last, old(cell).engine()) {
            (Some(reference), Some(engine)) => final(cell).engine() == Some(
                engine.released(reference as int),
            ),
            (None, Some(engine)) => final(cell).engine() == Some(engine),
            (_, None) => final(cell).engine() is None,
        },
{
    match last {
        Some(reference) => drop_reference(reference, cell, mailbox),
        None => {},
    }
}

/// Frees, with the engine at hand, what the last handle to a shared reference left behind;
/// nothing happens where other handles remain.
pub fn free_last<S: LuaState>(state: &mut S, last: Option<i32>)
    ensures
        final(state)@ == (match last {
            Some(reference) => old(state)@.released(reference as int),
            None => old(state)@,
        }),
{
    match last {
        Some(reference) => reference_free(state, reference),
        None => {},
    }
}

/// `reference` is one that an engine in state `before` hands out for `value`: the nil
/// reference for `nil`, a reference that was free for anything else.
pub open spec fn handed_out(before: EngineView, value: LuaValue, reference: int) -> bool {
    if value is Nil {
        reference == crate::lua::bridge::LUA_REFNIL
    } else {
        0 <= reference <= i32::MAX && !before.references.contains_key(reference)
    }
}

/// The only owner of one reference.
#[derive(Debug)]
pub struct OwnedRef(i32);

impl OwnedRef {
    /// The reference that the handle owns.
    pub closed spec fn id(&self) -> int {
        self.0 as int
    }

    /// Creates a new [OwnedRef] of the element at `stack_pos`
    pub fn new<S: LuaState>(state: &mut S, stack_pos: i32) -> (handle: Self)
        requires
            old(state)@.valid_index(stack_pos as int),
            old(state)@.has_room(1),
            old(state)@.has_free_reference(),
        ensures
            final(state)@ == old(state)@.pushed(old(state)@.value_at(stack_pos as int)).pinned(
                handle.id(),
            ),
            handle.names(old(state)@, old(state)@.value_at(stack_pos as int)),
    {
        push_copy(state, stack_pos);
        proof {
            let free = choose|reference: i32|
                reference >= 0 && !old(state)@.references.contains_key(reference as int);
            assert(!state@.references.contains_key(free as int));
        }
        Self::from_top_of_stack(state)
    }

    /// Creates a new [OwnedRef] of the element at the top of the stack and pops it off
    pub fn from_top_of_stack<S: LuaState>(state: &mut S) -> (handle: Self)
        requires
            old(state)@.top() >= 1,
            old(state)@.has_free_reference(),
        ensures
            final(state)@ == old(state)@.pinned(handle.id()),
            handle.names(old(state)@, old(state)@.stack.last()),
    {
        let reference = reference_create(state);
        Self(reference)
    }

    /// The handle is one that an engine in state `before` hands out for `value`.
    pub open spec fn names(&self, before: EngineView, value: LuaValue) -> bool {
        handed_out(before, value, self.id())
    }

    /// The reference that the handle owns.
    pub fn reference(&self) -> (reference: i32)
        ensures
            reference == self.id(),
    {
        self.0
    }

    /// The reference, for a caller that takes over the duty to free it.
    pub fn into_reference(self) -> (reference: i32)
        ensures
            reference == self.id(),
    {
        self.0
    }

    /// Gives the handle up.
    pub fn release<S: LuaState, J>(self, cell: &mut ThreadAffinity<S>, mailbox: &Mailbox<J>)
        ensures
            match old(cell).engine() {
                Some(engine) => final(cell).engine() == Some(engine.released(self.id())),
                None => final(cell).engine() is None,
            },
    {
        drop_reference(self.0, cell, mailbox)
    }
}

impl FromStack for OwnedRef {
    open spec fn can_read(engine: EngineView, stack_pos: int) -> bool {
        engine.valid_index(stack_pos) && engine.has_room(1) && engine.has_free_reference()
    }

    open spec fn reads(
        before: EngineView,
        stack_pos: int,
        read: Result<(Self, i32), Error>,
        after: EngineView,
    ) -> bool {
        read matches Ok((handle, n)) && n == 1 && handle.names(before, before.value_at(stack_pos))
            && after == before.pushed(before.value_at(stack_pos)).pinned(handle.id())
    }

    fn from_stack<S: LuaState>(state: &mut S, stack_pos: i32) -> (read: Result<(Self, i32), Error>) {
        Ok((OwnedRef::new(state, stack_pos), 1))
    }
}

impl ToStack for OwnedRef {
    open spec fn can_push(&self, engine: EngineView) -> bool {
        engine.has_room(1)
    }

    /// The value is pushed and the reference, whose only handle is used up, is freed.
    open spec fn pushes(&self, before: EngineView, after: EngineView) -> bool {
        after == before.pushed(before.referenced(self.id())).released(self.id())
    }

    open spec fn slots(&self) -> int {
        1
    }

    fn push<S: LuaState>(self, state: &mut S) -> (count: i32) {
        reference_push(state, self.0);
        reference_free(state, self.0);
        assert(state@.stack.take(old(state)@.top()) =~= old(state)@.stack);
        1
    }
}

impl ToStack for &OwnedRef {
    open spec fn can_push(&self, engine: EngineView) -> bool {
        engine.has_room(1)
    }

    open spec fn pushes(&self, before: EngineView, after: EngineView) -> bool {
        after == before.pushed(before.referenced(self.id()))
    }

    open spec fn slots(&self) -> int {
        1
    }

    fn push<S: LuaState>(self, state: &mut S) -> (count: i32) {
        reference_push(state, self.0);
        assert(state@.stack.take(old(state)@.top()) =~= old(state)@.stack);
        1
    }
}

/// A reference pinned and then freed where the engine is at hand: while the handle lives the
/// reference gives the pinned value, and once it is freed the reference is live no longer,
/// looking it up gives `nil`, and the reference table is what it was before the pin.
pub proof fn lemma_pin_then_release(before: EngineView, reference: int)
    requires
        before.top() >= 1,
        !(before.stack.last() is Nil),
        handed_out(before, before.stack.last(), reference),
    ensures
        before.pinned(reference).referenced(reference) == before.stack.last(),
        !before.pinned(reference).released(reference).references.contains_key(reference),
        before.pinned(reference).released(reference).referenced(reference) is Nil,
        before.pinned(reference).released(reference).references == before.references,
{
    assert(before.pinned(reference).released(reference).references =~= before.references);
}

/// A handle gives back the value that it was made for, `nil` too: the reference that the
/// engine hands out for a value leads to that value.
pub proof fn lemma_pinned_value_comes_back(before: EngineView, reference: int)
    requires
        before.top() >= 1,
        handed_out(before, before.stack.last(), reference),
    ensures
        before.pinned(reference).referenced(reference) == before.stack.last(),
{
}

/// What a reference leads to changes neither with what is pushed or popped, nor with other
/// references that are made or freed: it is the same at any later time, on whatever thread
/// the handle has been in between.
pub proof fn lemma_reference_is_stable(engine: EngineView, reference: int, other: int)
    requires
        other != reference,
    ensures
        forall|value: LuaValue| #[trigger]
            engine.pushed(value).referenced(reference) == engine.referenced(reference),
        forall|count: int| #[trigger]
            engine.popped(count).referenced(reference) == engine.referenced(reference),
        engine.released(other).referenced(reference) == engine.referenced(reference),
        engine.top() >= 1 ==> engine.pinned(other).referenced(reference) == engine.referenced(
            reference,
        ),
{
}

/// Freeing a reference twice is freeing it once.
pub proof fn lemma_release_once(before: EngineView, reference: int)
    ensures
        before.released(reference).released(reference) == before.released(reference),
{
    assert(before.released(reference).released(reference).references =~= before.released(
        reference,
    ).references);
}

/// A shared owner of one reference: the reference is freed when the last clone is given up.
#[derive(Debug)]
pub struct ArcRef(Arc<OwnedRef>);

impl ArcRef {
    /// The reference that the handles share.
    pub closed spec fn id(&self) -> int {
        (*self.0).id()
    }

    pub fn new<S: LuaState>(state: &mut S, stack_pos: i32) -> (handle: Self)
        requires
            old(state)@.valid_index(stack_pos as int),
            old(state)@.has_room(1),
            old(state)@.has_free_reference(),
        ensures
            final(state)@ == old(state)@.pushed(old(state)@.value_at(stack_pos as int)).pinned(
                handle.id(),
            ),
    {
        Self(Arc::new(OwnedRef::new(state, stack_pos)))
    }

    pub fn from_top_of_stack<S: LuaState>(state: &mut S) -> (handle: Self)
        requires
            old(state)@.top() >= 1,
            old(state)@.has_free_reference(),
        ensures
            final(state)@ == old(state)@.pinned(handle.id()),
    {
        Self(Arc::new(OwnedRef::from_top_of_stack(state)))
    }

    /// A handle that shares what `owned_ref` owned.
    pub fn from(owned_ref: OwnedRef) -> (handle: Self)
        ensures
            handle.id() == owned_ref.id(),
    {
        Self(Arc::new(owned_ref))
    }

    /// One more handle to the same reference.
    pub fn clone(&self) -> (second: Self)
        ensures
            second.id() == self.id(),
    {
        Self(arc_clone(&self.0))
    }

    /// Gives this handle up. The reference is given up with the last of its handles.
    pub fn release<S: LuaState, J>(self, cell: &mut ThreadAffinity<S>, mailbox: &Mailbox<J>)
        ensures
            match old(cell).engine() {
                Some(engine) => final(cell).engine() == Some(engine) || final(cell).engine()
                    == Some(engine.released(self.id())),
                None => final(cell).engine() is None,
            },
    {
        let last = match arc_into_inner(self.0) {
            Some(last) => Some(last.into_reference()),
            None => None,
        };
        drop_last(last, cell, mailbox)
    }
}

impl ToStack for &ArcRef {
    open spec fn can_push(&self, engine: EngineView) -> bool {
        engine.has_room(1)
    }

    open spec fn pushes(&self, before: EngineView, after: EngineView) -> bool {
        after == before.pushed(before.referenced(self.id()))
    }

    open spec fn slots(&self) -> int {
        1
    }

    fn push<S: LuaState>(self, state: &mut S) -> (count: i32) {
        reference_push(state, self.0.0);
        assert(state@.stack.take(old(state)@.top()) =~= old(state)@.stack);
        1
    }
}

impl ToStack for ArcRef {
    open spec fn can_push(&self, engine: EngineView) -> bool {
        engine.has_room(1)
    }

    /// The value is pushed; the reference is freed if this was its last handle.
    open spec fn pushes(&self, before: EngineView, after: EngineView) -> bool {
        ||| after == before.pushed(before.referenced(self.id()))
        ||| after == before.pushed(before.referenced(self.id())).released(self.id())
    }

    open spec fn slots(&self) -> int {
        1
    }

    fn push<S: LuaState>(self, state: &mut S) -> (count: i32) {
        reference_push(state, self.0.0);
        let last = match arc_into_inner(self.0) {
            Some(last) => Some(last.into_reference()),
            None => None,
        };
        free_last(state, last);
        assert(state@.stack.take(old(state)@.top()) =~= old(state)@.stack);
        1
    }
}

/// The slot of an [`AtomicRef`].
#[derive(Debug)]
struct AtomicInternal(AtomicI32);

impl AtomicInternal {
    fn load(&self) -> i32 {
        self.0.load(Ordering::Relaxed)
    }

    /// Puts `reference` in the slot and takes out what was there, in one step.
    fn swap(&self, reference: i32) -> i32 {
        self.0.swap(reference, Ordering::Relaxed)
    }
}

/// A slot that holds one reference and is shared between threads. Whoever puts a reference in
/// takes out the one that was there, in a single atomic step: no reference is ever held
/// by two owners, and none is lost.
#[derive(Debug)]
pub struct AtomicRef(Arc<AtomicInternal>);

impl AtomicRef {
    /// Creates a new [AtomicRef] of the element at `stack_pos`
    pub fn new<S: LuaState>(state: &mut S, stack_pos: i32) -> (slot: Self)
        requires
            old(state)@.valid_index(stack_pos as int),
            old(state)@.has_room(1),
            old(state)@.has_free_reference(),
        ensures
            exists|reference: int| #[trigger]
                handed_out(old(state)@, old(state)@.value_at(stack_pos as int), reference)
                    && final(state)@ == old(state)@.pushed(
                    old(state)@.value_at(stack_pos as int),
                ).pinned(reference),
    {
        let owned = OwnedRef::new(state, stack_pos);
        assert(handed_out(old(state)@, old(state)@.value_at(stack_pos as int), owned.id()));
        Self::from(owned)
    }

    /// Creates a new [AtomicRef] of the element at the top of the stack and pops it off
    pub fn from_top_of_stack<S: LuaState>(state: &mut S) -> (slot: Self)
        requires
            old(state)@.top() >= 1,
            old(state)@.has_free_reference(),
        ensures
            exists|reference: int| #[trigger]
                handed_out(old(state)@, old(state)@.stack.last(), reference) && final(state)@
                    == old(state)@.pinned(reference),
    {
        let owned = OwnedRef::from_top_of_stack(state);
        assert(handed_out(old(state)@, old(state)@.stack.last(), owned.id()));
        Self::from(owned)
    }

    /// A slot that holds [`LUA_NOREF`].
    pub fn nill() -> Self {
        Self(Arc::new(AtomicInternal(AtomicI32::new(LUA_NOREF))))
    }

    /// Puts `reference` in the slot and hands back the owner of what the slot held, whose
    /// duty it now is to give that up.
    pub fn replace(&self, reference: OwnedRef) -> (previous: OwnedRef) {
        OwnedRef(self.0.swap(reference.into_reference()))
    }

    /// A slot that starts with what `owned_ref` owned.
    pub fn from(owned_ref: OwnedRef) -> Self {
        Self(Arc::new(AtomicInternal(AtomicI32::new(owned_ref.into_reference()))))
    }

    /// One more handle to the same slot.
    pub fn clone(&self) -> (second: Self)
        ensures
            second == *self,
    {
        Self(arc_clone(&self.0))
    }

    /// Gives this handle up. What the slot holds is given up with the last of its handles:
    /// where the engine is at hand it is left as it was, or one reference, the one that the
    /// slot held, has been freed in it.
    pub fn release<S: LuaState, J>(self, cell: &mut ThreadAffinity<S>, mailbox: &Mailbox<J>)
        ensures
            match old(cell).engine() {
                Some(engine) => final(cell).engine() == Some(engine) || exists|reference: i32|
                    final(cell).engine() == Some(#[trigger] engine.released(reference as int)),
                None => final(cell).engine() is None,
            },
    {
        let last = match arc_into_inner(self.0) {
            Some(last) => Some(last.load()),
            None => None,
        };
        drop_last(last, cell, mailbox);
        assert(last matches Some(held) ==> (old(cell).engine() matches Some(engine) ==> cell.engine()
            == Some(engine.released(held as int))));
    }
}

impl Default for AtomicRef {
    fn default() -> Self {
        Self::nill()
    }
}

impl ToStack for &AtomicRef {
    open spec fn can_push(&self, engine: EngineView) -> bool {
        engine.has_room(1)
    }

    /// The value behind the reference that the slot held at some moment of the call.
    open spec fn pushes(&self, before: EngineView, after: EngineView) -> bool {
        exists|reference: int| after == before.pushed(#[trigger] before.referenced(reference))
    }

    open spec fn slots(&self) -> int {
        1
    }

    fn push<S: LuaState>(self, state: &mut S) -> (count: i32) {
        let reference = self.0.load();
        reference_push(state, reference);
        assert(state@ == old(state)@.pushed(old(state)@.referenced(reference as int)));
        assert(state@.stack.take(old(state)@.top()) =~= old(state)@.stack);
        1
    }
}

/// The slot and what has been handed back after each of `submitted` was put in, in this
/// order: every reference goes in by one swap and the one before it comes out.
pub open spec fn after_swaps(slot: int, submitted: Seq<int>) -> (int, Seq<int>)
    decreases submitted.len(),
{
    if submitted.len() == 0 {
        (slot, Seq::empty())
    } else {
        let (held, back) = after_swaps(slot, submitted.drop_last());
        (submitted.last(), back.push(held))
    }
}

/// In whatever order a number of swaps take effect, the slot ends with the reference that
/// went in last, as many references have come out as went in, and those that came out are,
/// with the one still held, exactly those that went in and the one held at the start: each
/// reference has one owner, none has two, none is lost.
pub proof fn lemma_swaps_conserve(slot: int, submitted: Seq<int>)
    ensures
        submitted.len() > 0 ==> after_swaps(slot, submitted).0 == submitted.last(),
        after_swaps(slot, submitted).1.len() == submitted.len(),
        after_swaps(slot, submitted).1.to_multiset().insert(after_swaps(slot, submitted).0)
            == submitted.to_multiset().insert(slot),
    decreases submitted.len(),
{
    broadcast use vstd::seq_lib::group_to_multiset_ensures;

    if submitted.len() == 0 {
        assert(submitted =~= Seq::empty());
    } else {
        let shorter = submitted.drop_last();
        lemma_swaps_conserve(slot, shorter);
        let (held, back) = after_swaps(slot, shorter);
        assert(submitted =~= shorter.push(submitted.last()));
        assert(back.push(held).to_multiset() =~= back.to_multiset().insert(held));
        assert(shorter.push(submitted.last()).to_multiset() =~= shorter.to_multiset().insert(
            submitted.last(),
        ));
        assert(back.to_multiset().insert(held).insert(submitted.last())
            =~= shorter.to_multiset().insert(slot).insert(submitted.last()));
        assert(shorter.to_multiset().insert(slot).insert(submitted.last())
            =~= shorter.to_multiset().insert(submitted.last()).insert(slot));
    }
}

} // verus!
