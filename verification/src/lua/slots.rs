//! Tables of things that the engine holds allocations for. A thing sits in a slot until the
//! engine collects its allocation; the slot is then empty and is the first to be used again.

use vstd::prelude::*;

verus! {

/// The first empty slot at or after `from`; the length of the table where there is none.
pub open spec fn first_free_from<T>(slots: Seq<Option<T>>, from: int) -> int
    decreases slots.len() - from,
{
    if from < 0 || from >= slots.len() {
        slots.len() as int
    } else if slots[from] is None {
        from
    } else {
        first_free_from(slots, from + 1)
    }
}

/// The first empty slot; the length of the table where every slot is taken.
pub open spec fn first_free<T>(slots: Seq<Option<T>>) -> int {
    first_free_from(slots, 0)
}

/// The table after `item` has been put in its first empty slot, or in a new slot at the end
/// where none was empty.
pub open spec fn stored<T>(slots: Seq<Option<T>>, item: T) -> Seq<Option<T>> {
    if first_free(slots) < slots.len() {
        slots.update(first_free(slots), Some(item))
    } else {
        slots.push(Some(item))
    }
}

/// The first empty slot lies within the table or right behind it, it is empty, and every slot
/// before it is taken.
pub proof fn lemma_first_free<T>(slots: Seq<Option<T>>, from: int)
    requires
        0 <= from <= slots.len(),
    ensures
        from <= first_free_from(slots, from) <= slots.len(),
        first_free_from(slots, from) < slots.len() ==> slots[first_free_from(slots, from)] is None,
        forall|i: int| from <= i < first_free_from(slots, from) ==> (#[trigger] slots[i]) is Some,
    decreases slots.len() - from,
{
    if from < slots.len() && slots[from] is Some {
        lemma_first_free(slots, from + 1);
    }
}

/// Putting something in takes no other slot's content away, and the thing is then in the slot
/// that was the first empty one.
pub proof fn lemma_stored<T>(slots: Seq<Option<T>>, item: T)
    ensures
        stored(slots, item).len() >= slots.len(),
        stored(slots, item)[first_free(slots)] == Some(item),
        forall|i: int|
            0 <= i < slots.len() && i != first_free(slots) ==> #[trigger] stored(slots, item)[i]
                == slots[i],
{
    lemma_first_free(slots, 0);
}

/// Puts `item` in the first empty slot, or in a new one, and tells the slot.
pub fn store<T>(slots: &mut Vec<Option<T>>, item: T) -> (at: usize)
    ensures
        at == first_free(old(slots)@),
        final(slots)@ == stored(old(slots)@, item),
{
    let mut at: usize = 0;
    while at < slots.len() && slots[at].is_some()
        invariant
            at <= slots.len(),
            *slots == *old(slots),
            first_free(slots@) == first_free_from(slots@, at as int),
        decreases slots.len() - at,
    {
        at += 1;
    }
    if at < slots.len() {
        slots.set(at, Some(item));
    } else {
        slots.push(Some(item));
    }
    at
}

} // verus!
