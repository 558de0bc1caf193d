//! Fixed-capacity stacking inventory.
//!
//! `add_item` makes two front-to-back passes: it first merges into
//! existing matching stacks, up to their caps, and only then opens new
//! stacks in empty slots. `remove_item` scans back to front. Every loop is
//! proved equal to a recursive specification function that pins the exact
//! contents of every slot and the exact leftover amount.

use vstd::prelude::*;
use crate::item::Item;
use crate::utils::{can_stack, spec_can_stack};

verus! {

broadcast use vstd::seq_lib::group_seq_properties;

/// A stored stack holds at least one unit and never exceeds its cap.
pub open spec fn wf_slot(slot: Option<Item>) -> bool {
    slot matches Some(s) ==> 1 <= s.amount <= s.max_stack
}

/// Effect of the merge pass on one slot: top up a stack that matches the
/// offered item, up to its cap; every other slot is passed over.
pub open spec fn spec_merge_slot(slot: Option<Item>, item: Item) -> (Option<Item>, Item) {
    match slot {
        Some(s) => {
            if spec_can_stack(s, item) {
                let space = s.max_stack - s.amount;
                let to_add = if item.amount <= space {
                    item.amount as int
                } else {
                    space
                };
                (
                    Some(
                        Item {
                            amount: (s.amount + to_add) as usize,
                            max_stack: s.max_stack,
                            rarity: s.rarity,
                            name: s.name,
                            color: s.color,
                            props: s.props,
                        },
                    ),
                    Item {
                        amount: (item.amount - to_add) as usize,
                        max_stack: item.max_stack,
                        rarity: item.rarity,
                        name: item.name,
                        color: item.color,
                        props: item.props,
                    },
                )
            } else {
                (slot, item)
            }
        },
        None => (slot, item),
    }
}

/// Effect of the placement pass on one slot: open a new stack of at most
/// one cap's worth in an empty slot; occupied slots are passed over.
pub open spec fn spec_place_slot(slot: Option<Item>, item: Item) -> (Option<Item>, Item) {
    match slot {
        Some(_) => (slot, item),
        None => {
            if item.amount > 0 {
                let to_place = if item.amount <= item.max_stack {
                    item.amount
                } else {
                    item.max_stack
                };
                (
                    Some(
                        Item {
                            amount: to_place,
                            max_stack: item.max_stack,
                            rarity: item.rarity,
                            name: item.name,
                            color: item.color,
                            props: item.props,
                        },
                    ),
                    Item {
                        amount: (item.amount - to_place) as usize,
                        max_stack: item.max_stack,
                        rarity: item.rarity,
                        name: item.name,
                        color: item.color,
                        props: item.props,
                    },
                )
            } else {
                (slot, item)
            }
        },
    }
}

/// The merge pass over the slots front to back, stopping once nothing is
/// left to place.
pub open spec fn spec_merge_items(slots: Seq<Option<Item>>, item: Item) -> (Seq<
    Option<Item>,
>, Item)
    decreases slots.len(),
{
    if slots.len() == 0 || item.amount == 0 {
        (slots, item)
    } else {
        let (slot2, item1) = spec_merge_slot(slots[0], item);
        let (rest, item2) = spec_merge_items(slots.drop_first(), item1);
        (seq![slot2] + rest, item2)
    }
}

/// The placement pass over the slots front to back, stopping once nothing
/// is left to place.
pub open spec fn spec_place_items(slots: Seq<Option<Item>>, item: Item) -> (Seq<
    Option<Item>,
>, Item)
    decreases slots.len(),
{
    if slots.len() == 0 || item.amount == 0 {
        (slots, item)
    } else {
        let (slot2, item1) = spec_place_slot(slots[0], item);
        let (rest, item2) = spec_place_items(slots.drop_first(), item1);
        (seq![slot2] + rest, item2)
    }
}

/// Offering `item` to the slots: existing matching stacks are merged into
/// first, up to their caps, and only then are new stacks opened in empty
/// slots; yields the final slots and the undistributed remainder.
pub open spec fn spec_add_items(slots: Seq<Option<Item>>, item: Item) -> (Seq<
    Option<Item>,
>, Item) {
    let merged = spec_merge_items(slots, item);
    spec_place_items(merged.0, merged.1)
}

/// Effect of taking units of `item` back out of one slot: shrink a stack
/// with the same identifier, emptying the slot when it reaches zero.
pub open spec fn spec_drain_slot(slot: Option<Item>, item: Item) -> (Option<Item>, Item) {
    match slot {
        Some(s) => {
            if s.name == item.name {
                let to_remove = if s.amount <= item.amount {
                    s.amount as int
                } else {
                    item.amount as int
                };
                let left = s.amount - to_remove;
                (
                    if left == 0 {
                        None
                    } else {
                        Some(
                            Item {
                                amount: left as usize,
                                max_stack: s.max_stack,
                                rarity: s.rarity,
                                name: s.name,
                                color: s.color,
                                props: s.props,
                            },
                        )
                    },
                    Item {
                        amount: (item.amount - to_remove) as usize,
                        max_stack: item.max_stack,
                        rarity: item.rarity,
                        name: item.name,
                        color: item.color,
                        props: item.props,
                    },
                )
            } else {
                (slot, item)
            }
        },
        None => (slot, item),
    }
}

/// Taking units of `item` out of the slots back to front, stopping once the
/// requested amount has been gathered; yields the final slots and what of
/// the request could not be gathered.
pub open spec fn spec_remove_items(slots: Seq<Option<Item>>, item: Item) -> (Seq<
    Option<Item>,
>, Item)
    decreases slots.len(),
{
    if slots.len() == 0 || item.amount == 0 {
        (slots, item)
    } else {
        let (slot2, item1) = spec_drain_slot(slots.last(), item);
        let (front, item2) = spec_remove_items(slots.drop_last(), item1);
        (front.push(slot2), item2)
    }
}

/// The merge pass never changes how many slots there are.
pub proof fn lemma_merge_items_len(slots: Seq<Option<Item>>, item: Item)
    ensures
        spec_merge_items(slots, item).0.len() == slots.len(),
    decreases slots.len(),
{
    if slots.len() == 0 || item.amount == 0 {
    } else {
        lemma_merge_items_len(slots.drop_first(), spec_merge_slot(slots[0], item).1);
    }
}

/// The placement pass never changes how many slots there are.
pub proof fn lemma_place_items_len(slots: Seq<Option<Item>>, item: Item)
    ensures
        spec_place_items(slots, item).0.len() == slots.len(),
    decreases slots.len(),
{
    if slots.len() == 0 || item.amount == 0 {
    } else {
        lemma_place_items_len(slots.drop_first(), spec_place_slot(slots[0], item).1);
    }
}

/// Offering an item to slots never changes how many slots there are.
pub proof fn lemma_add_items_len(slots: Seq<Option<Item>>, item: Item)
    ensures
        spec_add_items(slots, item).0.len() == slots.len(),
{
    lemma_merge_items_len(slots, item);
    lemma_place_items_len(spec_merge_items(slots, item).0, spec_merge_items(slots, item).1);
}

/// Draining an item from slots never changes how many slots there are.
pub proof fn lemma_remove_items_len(slots: Seq<Option<Item>>, item: Item)
    ensures
        spec_remove_items(slots, item).0.len() == slots.len(),
    decreases slots.len(),
{
    if slots.len() == 0 || item.amount == 0 {
    } else {
        lemma_remove_items_len(slots.drop_last(), spec_drain_slot(slots.last(), item).1);
    }
}

/// A fixed array of `N` optional item stacks.
#[derive(Debug)]
pub struct Inventory<const N: usize> {
    slots: Vec<Option<Item>>,
}

impl<const N: usize> View for Inventory<N> {
    type V = Seq<Option<Item>>;

    closed spec fn view(&self) -> Seq<Option<Item>> {
        self.slots@
    }
}

impl<const N: usize> Inventory<N> {
    /// Exactly `N` slots, every stored stack well formed.
    pub open spec fn wf(&self) -> bool {
        &&& self@.len() == N
        &&& forall|i: int| 0 <= i < self@.len() ==> wf_slot(#[trigger] self@[i])
    }

    pub fn new() -> (inv: Inventory<N>)
        ensures
            inv.wf(),
            forall|i: int| 0 <= i < N ==> inv@[i] is None,
    {
        let mut slots: Vec<Option<Item>> = Vec::new();
        let mut i: usize = 0;
        while i < N
            invariant
                i <= N,
                slots@.len() == i,
                forall|k: int| 0 <= k < i ==> slots@[k] is None,
            decreases N - i,
        {
            slots.push(None);
            i += 1;
        }
        Inventory { slots }
    }

    /// Distribute `item` over the slots: merge into existing matching
    /// stacks first, up to their caps, then open new stacks in empty
    /// slots; returns the amount that found no room.
    pub fn add_item(&mut self, item: Item) -> (leftover: usize)
        requires
            old(self).wf(),
            item.max_stack >= 1,
        ensures
            final(self).wf(),
            final(self)@ == spec_add_items(old(self)@, item).0,
            leftover == spec_add_items(old(self)@, item).1.amount,
    {
        let ghost orig = self@;
        let ghost item0 = item;
        let mut item = item;
        let n = self.slots.len();

        let mut i: usize = 0;
        while i < n
            invariant
                i <= n,
                n == N,
                self.slots@.len() == n,
                item.max_stack >= 1,
                forall|k: int| 0 <= k < n ==> wf_slot(#[trigger] self.slots@[k]),
                spec_merge_items(orig, item0).0 == self.slots@.take(i as int)
                    + spec_merge_items(self.slots@.skip(i as int), item).0,
                spec_merge_items(orig, item0).1 == spec_merge_items(
                    self.slots@.skip(i as int),
                    item,
                ).1,
            ensures
                i == n || item.amount == 0,
                n == N,
                item.max_stack >= 1,
                self.slots@.len() == n,
                forall|k: int| 0 <= k < n ==> wf_slot(#[trigger] self.slots@[k]),
                spec_merge_items(orig, item0).0 == self.slots@.take(i as int)
                    + spec_merge_items(self.slots@.skip(i as int), item).0,
                spec_merge_items(orig, item0).1 == spec_merge_items(
                    self.slots@.skip(i as int),
                    item,
                ).1,
            decreases n - i,
        {
            let ghost pre = self.slots@;
            let ghost item_pre = item;
            let slot = self.slots[i];
            if let Some(mut st) = slot {
                if can_stack(&st, &item) {
                    let space = st.max_stack - st.amount;
                    let to_add = if item.amount < space {
                        item.amount
                    } else {
                        space
                    };
                    st.amount = st.amount + to_add;
                    item.amount = item.amount - to_add;
                    self.slots[i] = Some(st);
                }
            }
            proof {
                let idx = i as int;
                let cur = self.slots@;
                assert((cur[idx], item) == spec_merge_slot(pre[idx], item_pre));
                assert(cur.skip(idx + 1) =~= pre.skip(idx + 1));
                assert(cur.take(idx) =~= pre.take(idx));
                if item_pre.amount != 0 {
                    assert(pre.skip(idx)[0] == pre[idx]);
                    assert(pre.skip(idx).drop_first() =~= pre.skip(idx + 1));
                    assert(spec_merge_items(pre.skip(idx), item_pre) == (
                        seq![cur[idx]] + spec_merge_items(cur.skip(idx + 1), item).0,
                        spec_merge_items(cur.skip(idx + 1), item).1,
                    ));
                    assert(pre.take(idx) + (seq![cur[idx]] + spec_merge_items(
                        cur.skip(idx + 1),
                        item,
                    ).0) =~= cur.take(idx + 1) + spec_merge_items(cur.skip(idx + 1), item).0);
                } else {
                    assert(cur =~= pre);
                    assert(spec_merge_items(cur.skip(idx + 1), item) == (
                        cur.skip(idx + 1),
                        item,
                    ));
                    assert(spec_merge_items(pre.skip(idx), item_pre) == (
                        pre.skip(idx),
                        item_pre,
                    ));
                    assert(pre.take(idx) + pre.skip(idx) =~= cur.take(idx + 1) + cur.skip(
                        idx + 1,
                    ));
                }
            }
            i += 1;
            if item.amount == 0 {
                break;
            }
        }
        proof {
            if item.amount == 0 {
                assert(spec_merge_items(self.slots@.skip(i as int), item) == (
                    self.slots@.skip(i as int),
                    item,
                ));
            } else {
                assert(self.slots@.skip(i as int).len() == 0);
            }
            assert(self.slots@.take(i as int) + self.slots@.skip(i as int) =~= self.slots@);
        }
        let ghost merged = self.slots@;
        let ghost item1 = item;
        proof {
            assert(spec_merge_items(orig, item0) == (merged, item1));
        }

        let mut j: usize = 0;
        while j < n
            invariant
                j <= n,
                n == N,
                self.slots@.len() == n,
                item.max_stack >= 1,
                forall|k: int| 0 <= k < n ==> wf_slot(#[trigger] self.slots@[k]),
                spec_place_items(merged, item1).0 == self.slots@.take(j as int)
                    + spec_place_items(self.slots@.skip(j as int), item).0,
                spec_place_items(merged, item1).1 == spec_place_items(
                    self.slots@.skip(j as int),
                    item,
                ).1,
            ensures
                j == n || item.amount == 0,
                self.slots@.len() == n,
                forall|k: int| 0 <= k < n ==> wf_slot(#[trigger] self.slots@[k]),
                spec_place_items(merged, item1).0 == self.slots@.take(j as int)
                    + spec_place_items(self.slots@.skip(j as int), item).0,
                spec_place_items(merged, item1).1 == spec_place_items(
                    self.slots@.skip(j as int),
                    item,
                ).1,
            decreases n - j,
        {
            let ghost pre = self.slots@;
            let ghost item_pre = item;
            if self.slots[j].is_none() && item.amount > 0 {
                let to_place = if item.amount < item.max_stack {
                    item.amount
                } else {
                    item.max_stack
                };
                let mut new_item = item;
                new_item.amount = to_place;
                self.slots[j] = Some(new_item);
                item.amount = item.amount - to_place;
            }
            proof {
                let idx = j as int;
                let cur = self.slots@;
                assert((cur[idx], item) == spec_place_slot(pre[idx], item_pre));
                assert(cur.skip(idx + 1) =~= pre.skip(idx + 1));
                assert(cur.take(idx) =~= pre.take(idx));
                if item_pre.amount != 0 {
                    assert(pre.skip(idx)[0] == pre[idx]);
                    assert(pre.skip(idx).drop_first() =~= pre.skip(idx + 1));
                    assert(spec_place_items(pre.skip(idx), item_pre) == (
                        seq![cur[idx]] + spec_place_items(cur.skip(idx + 1), item).0,
                        spec_place_items(cur.skip(idx + 1), item).1,
                    ));
                    assert(pre.take(idx) + (seq![cur[idx]] + spec_place_items(
                        cur.skip(idx + 1),
                        item,
                    ).0) =~= cur.take(idx + 1) + spec_place_items(cur.skip(idx + 1), item).0);
                } else {
                    assert(cur =~= pre);
                    assert(spec_place_items(cur.skip(idx + 1), item) == (
                        cur.skip(idx + 1),
                        item,
                    ));
                    assert(spec_place_items(pre.skip(idx), item_pre) == (
                        pre.skip(idx),
                        item_pre,
                    ));
                    assert(pre.take(idx) + pre.skip(idx) =~= cur.take(idx + 1) + cur.skip(
                        idx + 1,
                    ));
                }
            }
            j += 1;
            if item.amount == 0 {
                break;
            }
        }
        proof {
            if item.amount == 0 {
                assert(spec_place_items(self.slots@.skip(j as int), item) == (
                    self.slots@.skip(j as int),
                    item,
                ));
            } else {
                assert(self.slots@.skip(j as int).len() == 0);
            }
            assert(self.slots@.take(j as int) + self.slots@.skip(j as int) =~= self.slots@);
            assert(spec_place_items(merged, item1) == (self.slots@, item));
        }
        item.amount
    }

    /// Take `item.amount` units with `item`'s identifier back out of the
    /// slots, scanning from the last slot backwards; true when the full
    /// amount was gathered.
    pub fn remove_item(&mut self, item: Item) -> (removed_all: bool)
        requires
            old(self).wf(),
        ensures
            final(self).wf(),
            final(self)@ == spec_remove_items(old(self)@, item).0,
            removed_all == (spec_remove_items(old(self)@, item).1.amount == 0),
    {
        let ghost orig = self@;
        let ghost item0 = item;
        let mut item = item;
        let n = self.slots.len();
        let mut j: usize = n;
        while j > 0
            invariant
                j <= n,
                n == N,
                self.slots@.len() == n,
                forall|k: int| 0 <= k < n ==> wf_slot(#[trigger] self.slots@[k]),
                spec_remove_items(orig, item0).0 == spec_remove_items(
                    self.slots@.take(j as int),
                    item,
                ).0 + self.slots@.skip(j as int),
                spec_remove_items(orig, item0).1 == spec_remove_items(
                    self.slots@.take(j as int),
                    item,
                ).1,
            ensures
                j == 0 || item.amount == 0,
                self.slots@.len() == n,
                forall|k: int| 0 <= k < n ==> wf_slot(#[trigger] self.slots@[k]),
                spec_remove_items(orig, item0).0 == spec_remove_items(
                    self.slots@.take(j as int),
                    item,
                ).0 + self.slots@.skip(j as int),
                spec_remove_items(orig, item0).1 == spec_remove_items(
                    self.slots@.take(j as int),
                    item,
                ).1,
            decreases j,
        {
            let ghost pre = self.slots@;
            let ghost item_pre = item;
            j -= 1;
            let slot = self.slots[j];
            if let Some(mut st) = slot {
                if st.name == item.name {
                    let to_remove = if st.amount < item.amount {
                        st.amount
                    } else {
                        item.amount
                    };
                    st.amount = st.amount - to_remove;
                    item.amount = item.amount - to_remove;
                    if st.amount == 0 {
                        self.slots[j] = None;
                    } else {
                        self.slots[j] = Some(st);
                    }
                }
            }
            proof {
                let idx = j as int;
                let cur = self.slots@;
                assert((cur[idx], item) == spec_drain_slot(pre[idx], item_pre));
                assert(cur.take(idx) =~= pre.take(idx));
                assert(cur.skip(idx + 1) =~= pre.skip(idx + 1));
                lemma_remove_items_len(cur.take(idx), item);
                if item_pre.amount != 0 {
                    assert(pre.take(idx + 1).last() == pre[idx]);
                    assert(pre.take(idx + 1).drop_last() =~= pre.take(idx));
                    assert(spec_remove_items(pre.take(idx + 1), item_pre) == (
                        spec_remove_items(cur.take(idx), item).0.push(cur[idx]),
                        spec_remove_items(cur.take(idx), item).1,
                    ));
                    assert(spec_remove_items(cur.take(idx), item).0.push(cur[idx]) + pre.skip(
                        idx + 1,
                    ) =~= spec_remove_items(cur.take(idx), item).0 + cur.skip(idx));
                } else {
                    assert(cur =~= pre);
                    assert(spec_remove_items(pre.take(idx + 1), item_pre) == (
                        pre.take(idx + 1),
                        item_pre,
                    ));
                    assert(spec_remove_items(cur.take(idx), item) == (cur.take(idx), item));
                    assert(pre.take(idx + 1) + pre.skip(idx + 1) =~= cur.take(idx) + cur.skip(
                        idx,
                    ));
                }
            }
            if item.amount == 0 {
                break;
            }
        }
        proof {
            if item.amount == 0 {
                assert(spec_remove_items(self.slots@.take(j as int), item) == (
                    self.slots@.take(j as int),
                    item,
                ));
            } else {
                assert(self.slots@.take(j as int).len() == 0);
            }
            assert(self.slots@.take(j as int) + self.slots@.skip(j as int) =~= self.slots@);
        }
        item.amount == 0
    }

    /// A copy of all slots, in order.
    pub fn get_items(&self) -> (items: Vec<Option<Item>>)
        ensures
            items@ == self@,
    {
        let mut items: Vec<Option<Item>> = Vec::new();
        let mut i: usize = 0;
        while i < self.slots.len()
            invariant
                i <= self.slots@.len(),
                items@ == self.slots@.take(i as int),
            decreases self.slots@.len() - i,
        {
            items.push(self.slots[i]);
            proof {
                assert(self.slots@.take(i + 1) =~= self.slots@.take(i as int).push(
                    self.slots@[i as int],
                ));
            }
            i += 1;
        }
        proof {
            assert(self.slots@.take(self.slots@.len() as int) =~= self.slots@);
        }
        items
    }
}

/// The merge pass passes over an all-empty inventory untouched: there is
/// no stack to merge into.
pub proof fn lemma_merge_items_all_empty(slots: Seq<Option<Item>>, item: Item)
    requires
        forall|i: int| 0 <= i < slots.len() ==> (#[trigger] slots[i]) is None,
    ensures
        spec_merge_items(slots, item) == (slots, item),
    decreases slots.len(),
{
    if slots.len() == 0 || item.amount == 0 {
    } else {
        assert(slots[0] is None);
        lemma_merge_items_all_empty(slots.drop_first(), item);
        assert(seq![slots[0]] + slots.drop_first() =~= slots);
    }
}

/// Stacking law: offering two full stacks' worth of a stackable item to an
/// all-empty inventory of at least two slots fills exactly the first two
/// slots to the cap, leaves every other slot empty, and leaves nothing
/// over.
pub proof fn lemma_two_stacks_fill_two_slots(slots: Seq<Option<Item>>, item: Item)
    requires
        slots.len() >= 2,
        forall|i: int| 0 <= i < slots.len() ==> (#[trigger] slots[i]) is None,
        item.max_stack >= 1,
        item.amount == 2 * item.max_stack,
    ensures
        ({
            let r = spec_add_items(slots, item);
            let full = Item {
                amount: item.max_stack,
                max_stack: item.max_stack,
                rarity: item.rarity,
                name: item.name,
                color: item.color,
                props: item.props,
            };
            &&& r.1.amount == 0
            &&& r.0.len() == slots.len()
            &&& r.0[0] == Some(full)
            &&& r.0[1] == Some(full)
            &&& forall|i: int| 2 <= i < slots.len() ==> (#[trigger] r.0[i]) is None
        }),
{
    let full = Item {
        amount: item.max_stack,
        max_stack: item.max_stack,
        rarity: item.rarity,
        name: item.name,
        color: item.color,
        props: item.props,
    };
    lemma_merge_items_all_empty(slots, item);
    let item1 = spec_place_slot(slots[0], item).1;
    assert(slots[0] is None);
    assert(spec_place_slot(slots[0], item) == (Some(full), item1));
    assert(item1.amount == item.max_stack);
    let rest1 = slots.drop_first();
    assert(rest1[0] is None);
    let item2 = spec_place_slot(rest1[0], item1).1;
    assert(spec_place_slot(rest1[0], item1) == (Some(full), item2));
    assert(item2.amount == 0);
    let rest2 = rest1.drop_first();
    assert(spec_place_items(rest2, item2) == (rest2, item2));
    assert(spec_place_items(rest1, item1) == (seq![Some(full)] + rest2, item2));
    assert(spec_place_items(slots, item) == (
        seq![Some(full)] + (seq![Some(full)] + rest2),
        item2,
    ));
    let r = spec_add_items(slots, item);
    assert(r.0[0] == Some(full));
    assert(r.0[1] == (seq![Some(full)] + rest2)[0]);
    assert forall|i: int| 2 <= i < slots.len() implies (#[trigger] r.0[i]) is None by {
        assert(r.0[i] == rest2[i - 2]);
        assert(rest2[i - 2] == slots[i]);
    }
}

/// A fixed-capacity inventory's slots, reachable from anything that
/// carries one.
pub trait HasInventory<const N: usize> {
    fn inventory(&self) -> &Inventory<N>;

    fn inventory_mut(&mut self) -> &mut Inventory<N>;
}

} // verus!
