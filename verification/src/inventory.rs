//! The player's bag: a row of slots, each empty or holding a stack of one
//! kind of item.

use vstd::prelude::*;
use crate::equipment::ItemId;

verus! {

/// A number of items of one kind.
#[derive(Clone, Copy, Debug, PartialEq, Eq, Structural)]
pub struct ItemStack {
    pub id: ItemId,
    pub count: u32,
}

/// A bag of slots.
#[derive(Debug)]
pub struct Inventory {
    pub slots: Vec<Option<ItemStack>>,
}

/// What is in a bag and what is still in the hand.
pub struct Packing {
    pub slots: Seq<Option<ItemStack>>,
    pub left: u32,
}

/// Whether `slot` holds a stack of `id` that has room under `max_stack`.
pub open spec fn has_room(slot: Option<ItemStack>, id: ItemId, max_stack: u32) -> bool {
    slot is Some && slot->0.id == id && slot->0.count < max_stack
}

/// How many of `count` items go onto a stack that holds `held`.
pub open spec fn fits(held: u32, count: u32, max_stack: u32) -> u32 {
    if max_stack - held < count {
        (max_stack - held) as u32
    } else {
        count
    }
}

/// The first step of adding `count` items of `id`: the stacks of `id` that
/// have room are topped up, first slot first.
pub open spec fn topped_up(slots: Seq<Option<ItemStack>>, id: ItemId, count: u32, max_stack: u32) -> Packing
    decreases slots.len(),
{
    if slots.len() == 0 {
        Packing { slots, left: count }
    } else {
        let before = topped_up(slots.drop_last(), id, count, max_stack);
        let slot = slots.last();
        if has_room(slot, id, max_stack) && before.left > 0 {
            let can = fits(slot->0.count, before.left, max_stack);
            Packing {
                slots: before.slots.push(Some(ItemStack { id, count: (slot->0.count + can) as u32 })),
                left: (before.left - can) as u32,
            }
        } else {
            Packing { slots: before.slots.push(slot), left: before.left }
        }
    }
}

/// The second step: what is left goes into the empty slots, first slot
/// first, a stack of at most `max_stack` into each.
pub open spec fn filled(slots: Seq<Option<ItemStack>>, id: ItemId, count: u32, max_stack: u32) -> Packing
    decreases slots.len(),
{
    if slots.len() == 0 {
        Packing { slots, left: count }
    } else {
        let before = filled(slots.drop_last(), id, count, max_stack);
        let slot = slots.last();
        if slot is None && before.left > 0 {
            let put = if max_stack < before.left {
                max_stack
            } else {
                before.left
            };
            Packing {
                slots: before.slots.push(Some(ItemStack { id, count: put })),
                left: (before.left - put) as u32,
            }
        } else {
            Packing { slots: before.slots.push(slot), left: before.left }
        }
    }
}

/// The bag and the hand after `count` items of `id` were added.
pub open spec fn added(slots: Seq<Option<ItemStack>>, id: ItemId, count: u32, max_stack: u32) -> Packing {
    let first = topped_up(slots, id, count, max_stack);
    filled(first.slots, id, first.left, max_stack)
}

/// How many items of `id` the slots hold.
pub open spec fn held(slots: Seq<Option<ItemStack>>, id: ItemId) -> nat
    decreases slots.len(),
{
    if slots.len() == 0 {
        0
    } else {
        held(slots.drop_last(), id) + if slots.last() is Some && slots.last()->0.id == id {
            slots.last()->0.count as nat
        } else {
            0nat
        }
    }
}

/// Topping up loses nothing: the slots stay as many, and what the bag holds
/// of `id` together with what is left in the hand is what there was.
pub proof fn lemma_topped_up_keeps_items(
    slots: Seq<Option<ItemStack>>,
    id: ItemId,
    count: u32,
    max_stack: u32,
)
    ensures
        topped_up(slots, id, count, max_stack).slots.len() == slots.len(),
        topped_up(slots, id, count, max_stack).left <= count,
        held(topped_up(slots, id, count, max_stack).slots, id) + topped_up(
            slots,
            id,
            count,
            max_stack,
        ).left == held(slots, id) + count,
    decreases slots.len(),
{
    if slots.len() > 0 {
        lemma_topped_up_keeps_items(slots.drop_last(), id, count, max_stack);
        let before = topped_up(slots.drop_last(), id, count, max_stack);
        let after = topped_up(slots, id, count, max_stack);
        assert(after.slots.drop_last() =~= before.slots);
    }
}

/// Filling loses nothing either.
pub proof fn lemma_filled_keeps_items(
    slots: Seq<Option<ItemStack>>,
    id: ItemId,
    count: u32,
    max_stack: u32,
)
    ensures
        filled(slots, id, count, max_stack).slots.len() == slots.len(),
        filled(slots, id, count, max_stack).left <= count,
        held(filled(slots, id, count, max_stack).slots, id) + filled(
            slots,
            id,
            count,
            max_stack,
        ).left == held(slots, id) + count,
    decreases slots.len(),
{
    if slots.len() > 0 {
        lemma_filled_keeps_items(slots.drop_last(), id, count, max_stack);
        let before = filled(slots.drop_last(), id, count, max_stack);
        let after = filled(slots, id, count, max_stack);
        assert(after.slots.drop_last() =~= before.slots);
    }
}

/// Adding items loses none and makes none: what the bag holds of the item
/// afterwards, together with what did not fit, is what it held before
/// together with what was to be added.
pub proof fn lemma_added_keeps_items(
    slots: Seq<Option<ItemStack>>,
    id: ItemId,
    count: u32,
    max_stack: u32,
)
    ensures
        added(slots, id, count, max_stack).slots.len() == slots.len(),
        added(slots, id, count, max_stack).left <= count,
        held(added(slots, id, count, max_stack).slots, id) + added(
            slots,
            id,
            count,
            max_stack,
        ).left == held(slots, id) + count,
{
    lemma_topped_up_keeps_items(slots, id, count, max_stack);
    let first = topped_up(slots, id, count, max_stack);
    lemma_filled_keeps_items(first.slots, id, first.left, max_stack);
}

/// Whether `slot` holds at least one item of `id`.
pub open spec fn holds(slot: Option<ItemStack>, id: ItemId) -> bool {
    slot is Some && slot->0.id == id && slot->0.count > 0
}

/// The first slot that holds an item of `id`, or the number of slots if
/// none does.
pub open spec fn first_holding(slots: Seq<Option<ItemStack>>, id: ItemId) -> int
    decreases slots.len(),
{
    if slots.len() == 0 {
        0
    } else if holds(slots[0], id) {
        0
    } else {
        1 + first_holding(slots.drop_first(), id)
    }
}

/// `first_holding` is the first slot that holds the item, or the number of
/// slots.
pub proof fn lemma_first_holding(slots: Seq<Option<ItemStack>>, id: ItemId)
    ensures
        0 <= first_holding(slots, id) <= slots.len(),
        first_holding(slots, id) < slots.len() ==> holds(slots[first_holding(slots, id)], id),
        forall|j: int| 0 <= j < first_holding(slots, id) ==> !holds(#[trigger] slots[j], id),
    decreases slots.len(),
{
    if slots.len() > 0 && !holds(slots[0], id) {
        let rest = slots.drop_first();
        lemma_first_holding(rest, id);
        assert forall|j: int| 0 <= j < first_holding(slots, id) implies !holds(
            #[trigger] slots[j],
            id,
        ) by {
            if j > 0 {
                assert(rest[j - 1] == slots[j]);
            }
        }
    }
}

/// The slot `slot` with one item taken off: empty when that was the last.
pub open spec fn one_less(slot: Option<ItemStack>) -> Option<ItemStack> {
    if slot->0.count <= 1 {
        None
    } else {
        Some(ItemStack { id: slot->0.id, count: (slot->0.count - 1) as u32 })
    }
}

impl Inventory {
    /// A bag of `slot_count` empty slots.
    pub fn new(slot_count: usize) -> (bag: Inventory)
        ensures
            bag.slots@.len() == slot_count,
            forall|i: int| 0 <= i < slot_count ==> bag.slots@[i] is None,
    {
        let mut slots: Vec<Option<ItemStack>> = Vec::new();
        let mut i: usize = 0;
        while i < slot_count
            invariant
                i <= slot_count,
                slots@.len() == i,
                forall|j: int| 0 <= j < i ==> slots@[j] is None,
            decreases slot_count - i,
        {
            slots.push(None);
            i += 1;
        }
        Inventory { slots }
    }

    pub fn slot_count(&self) -> (n: usize)
        ensures
            n == self.slots@.len(),
    {
        self.slots.len()
    }

    /// Puts `count` items of `id` into the bag, stacks of at most
    /// `max_stack`: first onto the stacks of `id` that have room, then into
    /// the empty slots, first slot first each time. Returns how many did not
    /// fit.
    pub fn try_add(&mut self, id: ItemId, count: u32, max_stack: u32) -> (left: u32)
        ensures
            final(self).slots@ == added(old(self).slots@, id, count, max_stack).slots,
            left == added(old(self).slots@, id, count, max_stack).left,
            final(self).slots@.len() == old(self).slots@.len(),
            left <= count,
            held(final(self).slots@, id) + left == held(old(self).slots@, id) + count,
    {
        proof {
            lemma_added_keeps_items(self.slots@, id, count, max_stack);
        }
        let n = self.slots.len();
        let mut count = count;
        let ghost start = count;
        let mut i: usize = 0;
        while i < n
            invariant
                i <= n,
                n == self.slots.len(),
                n == old(self).slots.len(),
                self.slots@.take(i as int) == topped_up(
                    old(self).slots@.take(i as int),
                    id,
                    start,
                    max_stack,
                ).slots,
                count == topped_up(old(self).slots@.take(i as int), id, start, max_stack).left,
                forall|j: int| i <= j < n ==> self.slots@[j] == old(self).slots@[j],
            decreases n - i,
        {
            let ghost done = self.slots@.take(i as int);
            proof {
                assert(old(self).slots@.take(i + 1).drop_last() =~= old(self).slots@.take(i as int));
                assert(old(self).slots@.take(i + 1).last() == old(self).slots@[i as int]);
            }
            match self.slots[i] {
                Some(s) => {
                    if s.id == id && s.count < max_stack && count > 0 {
                        let room = max_stack - s.count;
                        let can = if room < count {
                            room
                        } else {
                            count
                        };
                        self.slots.set(i, Some(ItemStack { id, count: s.count + can }));
                        count = count - can;
                    }
                },
                None => {},
            }
            proof {
                assert(self.slots@.take(i + 1) =~= done.push(self.slots@[i as int]));
            }
            i += 1;
        }
        proof {
            assert(self.slots@.take(n as int) =~= self.slots@);
            assert(old(self).slots@.take(n as int) =~= old(self).slots@);
        }
        let ghost first = self.slots@;
        let ghost rest = count;
        let mut k: usize = 0;
        while k < n
            invariant
                k <= n,
                n == self.slots.len(),
                n == first.len(),
                self.slots@.take(k as int) == filled(first.take(k as int), id, rest, max_stack).slots,
                count == filled(first.take(k as int), id, rest, max_stack).left,
                forall|j: int| k <= j < n ==> self.slots@[j] == first[j],
            decreases n - k,
        {
            let ghost done = self.slots@.take(k as int);
            proof {
                assert(first.take(k + 1).drop_last() =~= first.take(k as int));
                assert(first.take(k + 1).last() == first[k as int]);
            }
            if self.slots[k].is_none() && count > 0 {
                let put = if max_stack < count {
                    max_stack
                } else {
                    count
                };
                self.slots.set(k, Some(ItemStack { id, count: put }));
                count = count - put;
            }
            proof {
                assert(self.slots@.take(k + 1) =~= done.push(self.slots@[k as int]));
            }
            k += 1;
        }
        proof {
            assert(self.slots@.take(n as int) =~= self.slots@);
            assert(first.take(n as int) =~= first);
        }
        count
    }

    /// Takes one item of `id` out of the first slot that holds one, and says
    /// whether there was one. A slot that gives its last item is empty
    /// afterwards.
    pub fn try_remove_one(&mut self, id: ItemId) -> (removed: bool)
        ensures
            removed == (first_holding(old(self).slots@, id) < old(self).slots@.len()),
            removed ==> final(self).slots@ == old(self).slots@.update(
                first_holding(old(self).slots@, id),
                one_less(old(self).slots@[first_holding(old(self).slots@, id)]),
            ),
            !removed ==> final(self).slots@ == old(self).slots@,
    {
        proof {
            lemma_first_holding(self.slots@, id);
        }
        let n = self.slots.len();
        let mut i: usize = 0;
        while i < n
            invariant
                i <= n,
                n == self.slots.len(),
                self.slots@ == old(self).slots@,
                i <= first_holding(self.slots@, id),
                0 <= first_holding(self.slots@, id) <= n,
                first_holding(self.slots@, id) < n ==> holds(
                    self.slots@[first_holding(self.slots@, id)],
                    id,
                ),
                forall|j: int| 0 <= j < first_holding(self.slots@, id) ==> !holds(
                    #[trigger] self.slots@[j],
                    id,
                ),
            decreases n - i,
        {
            match self.slots[i] {
                Some(s) => {
                    if s.id == id && s.count > 0 {
                        assert(holds(self.slots@[i as int], id));
                        assert(i == first_holding(self.slots@, id));
                        if s.count == 1 {
                            self.slots.set(i, None);
                        } else {
                            self.slots.set(i, Some(ItemStack { id: s.id, count: s.count - 1 }));
                        }
                        return true;
                    }
                },
                None => {},
            }
            assert(!holds(self.slots@[i as int], id));
            i += 1;
        }
        false
    }

    /// Exchanges what slots `a` and `b` hold. Where either is not a slot of
    /// the bag, nothing happens.
    pub fn swap_slots(&mut self, a: usize, b: usize)
        ensures
            a < old(self).slots@.len() && b < old(self).slots@.len() ==> final(self).slots@ == old(
                self,
            ).slots@.update(a as int, old(self).slots@[b as int]).update(
                b as int,
                old(self).slots@[a as int],
            ),
            !(a < old(self).slots@.len() && b < old(self).slots@.len()) ==> final(self).slots@
                == old(self).slots@,
    {
        if a >= self.slots.len() || b >= self.slots.len() {
            return ;
        }
        let first = self.slots[a];
        let second = self.slots[b];
        self.slots.set(a, second);
        self.slots.set(b, first);
    }
}

} // verus!
