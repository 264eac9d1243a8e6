//! Equipping a weapon out of the bag, and the pages of the bag's view.

use vstd::prelude::*;
use crate::equipment::{equipment_of, EquipmentSet, EquippedItems, ItemDatabase, ItemId};
use crate::inventory::{added, first_holding, held, one_less, Inventory, ItemStack};
use crate::inventory::{lemma_added_keeps_items, lemma_first_holding};

verus! {

/// How many weapons of one kind a slot of the bag stacks.
pub const WEAPON_STACK: u32 = 99;

/// How many slots a new player's bag has.
pub const STARTING_SLOTS: usize = 120;

/// What the view of the bag remembers: whether it is open, the page it
/// shows and the slot that was clicked last.
#[derive(Clone, Copy, Debug, PartialEq, Eq, Structural)]
pub struct InventoryUiState {
    pub open: bool,
    pub page: usize,
    pub selected: Option<usize>,
}

/// The player's weapon and the slots of their bag.
pub struct Loadout {
    pub weapon: ItemId,
    pub slots: Seq<Option<ItemStack>>,
}

/// The bag of a new player: a magic wand and a hunter's bow, the rest
/// empty.
pub fn starting_inventory() -> (bag: Inventory)
    ensures
        bag.slots@.len() == STARTING_SLOTS,
        bag.slots@[0] == Some(ItemStack { id: ItemId::MagicWand, count: 1 }),
        bag.slots@[1] == Some(ItemStack { id: ItemId::HunterBow, count: 1 }),
        forall|i: int| 2 <= i < STARTING_SLOTS ==> bag.slots@[i] is None,
{
    let mut slots: Vec<Option<ItemStack>> = Vec::new();
    slots.push(Some(ItemStack { id: ItemId::MagicWand, count: 1 }));
    slots.push(Some(ItemStack { id: ItemId::HunterBow, count: 1 }));
    let mut i: usize = 2;
    while i < STARTING_SLOTS
        invariant
            2 <= i <= STARTING_SLOTS,
            slots@.len() == i,
            slots@[0] == Some(ItemStack { id: ItemId::MagicWand, count: 1 }),
            slots@[1] == Some(ItemStack { id: ItemId::HunterBow, count: 1 }),
            forall|j: int| 2 <= j < i ==> slots@[j] is None,
        decreases STARTING_SLOTS - i,
    {
        slots.push(None);
        i += 1;
    }
    Inventory { slots }
}

/// Whether the weapon `new_id` can be equipped from the bag: it is not the
/// weapon in hand, and the bag holds one.
pub open spec fn can_equip(loadout: Loadout, new_id: ItemId) -> bool {
    new_id != loadout.weapon && first_holding(loadout.slots, new_id) < loadout.slots.len()
}

/// The loadout after `new_id` was equipped from the bag: one of it leaves
/// the first slot that holds one, and the weapon that was in hand goes into
/// the bag, where there is room for it.
pub open spec fn equipped_from_bag(loadout: Loadout, new_id: ItemId) -> Loadout {
    let at = first_holding(loadout.slots, new_id);
    let taken = loadout.slots.update(at, one_less(loadout.slots[at]));
    Loadout { weapon: new_id, slots: added(taken, loadout.weapon, 1, WEAPON_STACK).slots }
}

/// Equips the weapon `new_id` from the bag, if it can be equipped, and says
/// whether it was. The attack values follow the new weapon.
pub fn equip_weapon(
    inv: &mut Inventory,
    equipped: &mut EquippedItems,
    equip_set: &mut EquipmentSet,
    db: &ItemDatabase,
    new_id: ItemId,
) -> (done: bool)
    ensures
        done == can_equip(Loadout { weapon: old(equipped).weapon, slots: old(inv).slots@ }, new_id),
        done ==> (Loadout { weapon: final(equipped).weapon, slots: final(inv).slots@ })
            == equipped_from_bag(
            Loadout { weapon: old(equipped).weapon, slots: old(inv).slots@ },
            new_id,
        ),
        done ==> *final(equip_set) == equipment_of(db.entry(new_id)),
        !done ==> final(inv).slots@ == old(inv).slots@ && *final(equipped) == *old(equipped)
            && *final(equip_set) == *old(equip_set),
{
    if new_id == equipped.weapon {
        return false;
    }
    if !inv.try_remove_one(new_id) {
        return false;
    }
    let old_weapon = equipped.weapon;
    inv.try_add(old_weapon, 1, WEAPON_STACK);
    equipped.weapon = new_id;
    match db.weapon(new_id) {
        Some(def) => {
            *equip_set = EquipmentSet::from_weapon(def);
        },
        None => {},
    }
    true
}

/// Whether a click on slot `idx` equips what the slot holds: the slot is
/// there, it holds a stack, and the stack is not of the weapon in hand.
pub open spec fn click_equips(loadout: Loadout, idx: usize) -> bool {
    idx < loadout.slots.len() && loadout.slots[idx as int] is Some
        && loadout.slots[idx as int]->0.id != loadout.weapon
}

/// The slots after a click on slot `idx` has equipped what the slot held:
/// one item leaves the slot, and the weapon that was in hand goes into the
/// bag; if the bag has no room for it, it goes into the clicked slot where
/// that is now empty, and is lost where it is not.
pub open spec fn slots_after_click(loadout: Loadout, idx: usize) -> Seq<Option<ItemStack>> {
    let stack = loadout.slots[idx as int]->0;
    let taken = loadout.slots.update(
        idx as int,
        if stack.count > 1 {
            Some(ItemStack { id: stack.id, count: (stack.count - 1) as u32 })
        } else {
            None
        },
    );
    let back = added(taken, loadout.weapon, 1, WEAPON_STACK);
    if back.left > 0 && back.slots[idx as int] is None {
        back.slots.update(idx as int, Some(ItemStack { id: loadout.weapon, count: 1 }))
    } else {
        back.slots
    }
}

/// A click on slot `idx` of the bag. A click beside the bag does nothing.
/// Any other click selects the slot; on a stack of another weapon than the
/// one in hand it also equips that weapon.
pub fn click_slot(
    inv: &mut Inventory,
    equipped: &mut EquippedItems,
    equip_set: &mut EquipmentSet,
    db: &ItemDatabase,
    state: &mut InventoryUiState,
    idx: usize,
) -> (done: bool)
    ensures
        done == click_equips(Loadout { weapon: old(equipped).weapon, slots: old(inv).slots@ }, idx),
        final(state).open == old(state).open,
        final(state).page == old(state).page,
        final(state).selected == (if idx < old(inv).slots@.len() {
            Some(idx)
        } else {
            old(state).selected
        }),
        done ==> final(inv).slots@ == slots_after_click(
            Loadout { weapon: old(equipped).weapon, slots: old(inv).slots@ },
            idx,
        ),
        done ==> final(equipped).weapon == old(inv).slots@[idx as int]->0.id,
        done ==> *final(equip_set) == equipment_of(db.entry(old(inv).slots@[idx as int]->0.id)),
        !done ==> final(inv).slots@ == old(inv).slots@ && *final(equipped) == *old(equipped)
            && *final(equip_set) == *old(equip_set),
{
    if idx >= inv.slots.len() {
        return false;
    }
    state.selected = Some(idx);
    let stack = match inv.slots[idx] {
        Some(stack) => stack,
        None => {
            return false;
        },
    };
    let old_weapon = equipped.weapon;
    if stack.id == old_weapon {
        return false;
    }
    if stack.count > 1 {
        inv.slots.set(idx, Some(ItemStack { id: stack.id, count: stack.count - 1 }));
    } else {
        inv.slots.set(idx, None);
    }
    let remaining = inv.try_add(old_weapon, 1, WEAPON_STACK);
    if remaining > 0 && inv.slots[idx].is_none() {
        inv.slots.set(idx, Some(ItemStack { id: old_weapon, count: 1 }));
    }
    equipped.weapon = stack.id;
    match db.weapon(stack.id) {
        Some(def) => {
            *equip_set = EquipmentSet::from_weapon(def);
        },
        None => {},
    }
    true
}

/// How many pages of `page_size` slots it takes to show `slot_count`
/// slots.
pub open spec fn pages(slot_count: usize, page_size: usize) -> int {
    (slot_count + page_size - 1) / (page_size as int)
}

/// How many pages of `page_size` slots it takes to show `slot_count`
/// slots.
pub fn page_count(slot_count: usize, page_size: usize) -> (n: usize)
    requires
        page_size > 0,
    ensures
        n == pages(slot_count, page_size),
{
    let full = slot_count / page_size;
    let rest = slot_count % page_size;
    assert(pages(slot_count, page_size) == full + if rest > 0 { 1int } else { 0 })
        by (nonlinear_arith)
        requires
            page_size > 0,
            full == slot_count / page_size,
            rest == slot_count % page_size,
            pages(slot_count, page_size) == (slot_count + page_size - 1) / (page_size as int),
    ;
    assert(full + (if rest > 0 { 1int } else { 0 }) <= slot_count) by (nonlinear_arith)
        requires
            page_size > 0,
            full == slot_count / page_size,
            rest == slot_count % page_size,
    ;
    if rest > 0 {
        full + 1
    } else {
        full
    }
}

/// The page that is shown after turning by `delta` from `page`: it stays
/// among the `page_count` pages, and is the first where there is none.
pub open spec fn turned(page: usize, delta: i32, page_count: usize) -> int {
    if page_count == 0 || page + delta < 0 {
        0
    } else if page + delta > page_count - 1 {
        page_count - 1
    } else {
        page + delta
    }
}

/// Turns the view by `delta` pages.
pub fn turn_page(state: &mut InventoryUiState, delta: i32, page_count: usize)
    ensures
        final(state).page == turned(old(state).page, delta, page_count),
        final(state).open == old(state).open,
        final(state).selected == old(state).selected,
{
    let target: i128 = state.page as i128 + delta as i128;
    if page_count == 0 || target < 0 {
        state.page = 0;
    } else if target > page_count as i128 - 1 {
        state.page = page_count - 1;
    } else {
        state.page = target as usize;
    }
}

/// Equipping from the bag does not lose the weapon that was in hand unless
/// the bag has no room for it: what the bag then holds of that weapon,
/// together with what of it did not fit, is one more than it held before.
pub proof fn lemma_equip_keeps_weapons(loadout: Loadout, new_id: ItemId)
    requires
        can_equip(loadout, new_id),
    ensures
        equipped_from_bag(loadout, new_id).slots.len() == loadout.slots.len(),
        held(equipped_from_bag(loadout, new_id).slots, loadout.weapon) + added(
            loadout.slots.update(
                first_holding(loadout.slots, new_id),
                one_less(loadout.slots[first_holding(loadout.slots, new_id)]),
            ),
            loadout.weapon,
            1,
            WEAPON_STACK,
        ).left == held(loadout.slots, loadout.weapon) + 1,
{
    let at = first_holding(loadout.slots, new_id);
    lemma_first_holding(loadout.slots, new_id);
    let taken = loadout.slots.update(at, one_less(loadout.slots[at]));
    lemma_added_keeps_items(taken, loadout.weapon, 1, WEAPON_STACK);
    lemma_held_after_update(loadout.slots, at, one_less(loadout.slots[at]), loadout.weapon);
}

/// Changing a slot that holds none of `id` into one that holds none of it
/// changes nothing in how many of `id` the slots hold.
pub proof fn lemma_held_after_update(
    slots: Seq<Option<ItemStack>>,
    at: int,
    slot: Option<ItemStack>,
    id: ItemId,
)
    requires
        0 <= at < slots.len(),
        !(slots[at] is Some && slots[at]->0.id == id),
        !(slot is Some && slot->0.id == id),
    ensures
        held(slots.update(at, slot), id) == held(slots, id),
    decreases slots.len(),
{
    let changed = slots.update(at, slot);
    if at == slots.len() - 1 {
        assert(changed.drop_last() =~= slots.drop_last());
    } else {
        assert(changed.drop_last() =~= slots.drop_last().update(at, slot));
        lemma_held_after_update(slots.drop_last(), at, slot, id);
    }
}

} // verus!
