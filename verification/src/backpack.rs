//! The backpack: an unequipped pool keyed by item name and an equipped map
//! keyed by slot, with at most one item per slot.
//!
//! The two stores are kept as vectors with uniqueness invariants: pool names
//! are pairwise distinct (a later insert under an existing name overwrites),
//! and equipped items carry pairwise distinct slots. An owned item sits in
//! exactly one of the two stores.

use vstd::prelude::*;
use crate::item::Item;
use crate::item::str_eq;
use crate::slot::Slot;

verus! {

/// Why an equip request failed.
#[derive(Debug, Clone, Copy, PartialEq, Eq, Structural)]
pub enum EquipError {
    /// No unequipped item of the requested name exists.
    ItemNotFound,
    /// The named item has no slot, so it cannot be equipped.
    NoEquipSlot,
}

/// Pairwise distinct item names: the pool's key invariant.
pub open spec fn names_unique(s: Seq<Item>) -> bool {
    forall|i: int, j: int| 0 <= i < j < s.len() ==> s[i].name@ != s[j].name@
}

/// Whether some item of the sequence bears the name `n`.
pub open spec fn has_name(s: Seq<Item>, n: Seq<char>) -> bool {
    exists|i: int| 0 <= i < s.len() && s[i].name@ == n
}

/// The position of the item named `n`; meaningful under `names_unique` when
/// `has_name` holds.
pub open spec fn index_of_name(s: Seq<Item>, n: Seq<char>) -> int {
    choose|i: int| 0 <= i < s.len() && s[i].name@ == n
}

/// The item named `n`; meaningful under `names_unique` when `has_name` holds.
pub open spec fn item_named(s: Seq<Item>, n: Seq<char>) -> Item {
    s[index_of_name(s, n)]
}

/// Every item carries a slot: the equipped store's shape invariant.
pub open spec fn all_slotted(s: Seq<Item>) -> bool {
    forall|i: int| 0 <= i < s.len() ==> s[i].slot is Some
}

/// Pairwise distinct slots: at most one equipped item per slot.
pub open spec fn slots_unique(s: Seq<Item>) -> bool {
    forall|i: int, j: int| 0 <= i < j < s.len() ==> s[i].slot != s[j].slot
}

/// Whether some item of the sequence occupies slot `sl`.
pub open spec fn has_slot(s: Seq<Item>, sl: Slot) -> bool {
    exists|i: int| 0 <= i < s.len() && s[i].slot == Option::Some(sl)
}

/// The position of the item in slot `sl`; meaningful under `slots_unique`
/// when `has_slot` holds.
pub open spec fn index_of_slot(s: Seq<Item>, sl: Slot) -> int {
    choose|i: int| 0 <= i < s.len() && s[i].slot == Option::Some(sl)
}

/// The item in slot `sl`; meaningful under `slots_unique` when `has_slot`
/// holds.
pub open spec fn item_in_slot(s: Seq<Item>, sl: Slot) -> Item {
    s[index_of_slot(s, sl)]
}

/// Every damage bonus is non-negative, as the data model demands of items.
pub open spec fn boosts_nonneg(s: Seq<Item>) -> bool {
    forall|i: int| 0 <= i < s.len() ==> s[i].damage_boost >= 0
}

/// The sum of the damage bonuses of a sequence of items.
pub open spec fn sum_boosts(s: Seq<Item>) -> int
    decreases s.len(),
{
    if s.len() == 0 {
        0
    } else {
        sum_boosts(s.drop_last()) + s.last().damage_boost
    }
}

/// Under unique names, the item found at `i` is the item `item_named`
/// denotes for its name.
pub proof fn lemma_item_named_at(s: Seq<Item>, i: int)
    requires
        names_unique(s),
        0 <= i < s.len(),
    ensures
        has_name(s, s[i].name@),
        index_of_name(s, s[i].name@) == i,
        item_named(s, s[i].name@) == s[i],
{
    let n = s[i].name@;
    assert(has_name(s, n));
    let j = index_of_name(s, n);
    assert(0 <= j < s.len() && s[j].name@ == n);
    if i < j {
        assert(s[i].name@ != s[j].name@);
    } else if j < i {
        assert(s[j].name@ != s[i].name@);
    }
}

/// Under unique slots, the item found at `i` is the item `item_in_slot`
/// denotes for its slot.
pub proof fn lemma_item_in_slot_at(s: Seq<Item>, i: int, sl: Slot)
    requires
        slots_unique(s),
        0 <= i < s.len(),
        s[i].slot == Option::Some(sl),
    ensures
        has_slot(s, sl),
        index_of_slot(s, sl) == i,
        item_in_slot(s, sl) == s[i],
{
    assert(has_slot(s, sl));
    let j = index_of_slot(s, sl);
    assert(0 <= j < s.len() && s[j].slot == Option::Some(sl));
    if i < j {
        assert(s[i].slot != s[j].slot);
    } else if j < i {
        assert(s[j].slot != s[i].slot);
    }
}

/// A sum of non-negative bonuses is non-negative.
pub proof fn lemma_sum_nonneg(s: Seq<Item>)
    requires
        boosts_nonneg(s),
    ensures
        sum_boosts(s) >= 0,
    decreases s.len(),
{
    if s.len() > 0 {
        assert(boosts_nonneg(s.drop_last()));
        lemma_sum_nonneg(s.drop_last());
    }
}

/// The sum over a sequence splits at any cut point.
pub proof fn lemma_sum_split(s: Seq<Item>, i: int)
    requires
        0 <= i <= s.len(),
    ensures
        sum_boosts(s) == sum_boosts(s.subrange(0, i)) + sum_boosts(s.subrange(i, s.len() as int)),
    decreases s.len(),
{
    if i == s.len() {
        assert(s.subrange(0, i) =~= s);
        assert(sum_boosts(s.subrange(i, s.len() as int)) == 0);
    } else {
        let d = s.drop_last();
        lemma_sum_split(d, i);
        assert(d.subrange(0, i) =~= s.subrange(0, i));
        assert(s.subrange(i, s.len() as int).drop_last() =~= d.subrange(i, d.len() as int));
        assert(s.subrange(i, s.len() as int).last() == s.last());
    }
}

/// A name occurs in a sequence extended by one item exactly when it occurs
/// in the sequence or belongs to that item.
pub proof fn lemma_has_name_push(s: Seq<Item>, x: Item, n: Seq<char>)
    ensures
        has_name(s.push(x), n) <==> (has_name(s, n) || x.name@ == n),
{
    if has_name(s.push(x), n) {
        let k = choose|k: int| 0 <= k < s.push(x).len() && s.push(x)[k].name@ == n;
        if k < s.len() {
            assert(s[k] == s.push(x)[k]);
            assert(has_name(s, n));
        } else {
            assert(s.push(x)[k] == x);
        }
    }
    if has_name(s, n) {
        let k = choose|k: int| 0 <= k < s.len() && s[k].name@ == n;
        assert(s.push(x)[k] == s[k]);
        assert(has_name(s.push(x), n));
    }
    if x.name@ == n {
        assert(s.push(x)[s.len() as int] == x);
        assert(has_name(s.push(x), n));
    }
}

/// Removing the only item of a name leaves the rest of the pool untouched.
proof fn lemma_pool_remove(s0: Seq<Item>, i: int)
    requires
        names_unique(s0),
        0 <= i < s0.len(),
    ensures
        names_unique(s0.remove(i)),
        boosts_nonneg(s0) ==> boosts_nonneg(s0.remove(i)),
        !has_name(s0.remove(i), s0[i].name@),
        forall|m: Seq<char>|
            m != s0[i].name@ ==> (#[trigger] has_name(s0.remove(i), m) <==> has_name(s0, m)),
        forall|m: Seq<char>|
            m != s0[i].name@ && has_name(s0, m) ==> #[trigger] item_named(s0.remove(i), m)
                == item_named(s0, m),
{
    let s1 = s0.remove(i);
    assert forall|k: int| 0 <= k < s1.len() implies s1[k] == (if k < i {
        s0[k]
    } else {
        s0[k + 1]
    }) by {}
    assert forall|m: Seq<char>| m != s0[i].name@ && has_name(s1, m) implies has_name(s0, m)
        && item_named(s1, m) == item_named(s0, m) by {
        let k = index_of_name(s1, m);
        assert(0 <= k < s1.len() && s1[k].name@ == m);
        let ko: int = if k < i { k } else { k + 1 };
        assert(s0[ko] == s1[k]);
        lemma_item_named_at(s0, ko);
        lemma_item_named_at(s1, k);
    }
    assert forall|m: Seq<char>| m != s0[i].name@ && has_name(s0, m) implies has_name(s1, m) by {
        let k = index_of_name(s0, m);
        assert(0 <= k < s0.len() && s0[k].name@ == m);
        lemma_item_named_at(s0, i);
        let kn: int = if k < i { k } else { k - 1 };
        assert(s1[kn] == s0[k]);
    }
    if has_name(s1, s0[i].name@) {
        let k = index_of_name(s1, s0[i].name@);
        assert(0 <= k < s1.len() && s1[k].name@ == s0[i].name@);
        let ko: int = if k < i { k } else { k + 1 };
        assert(s0[ko] == s1[k]);
        lemma_item_named_at(s0, ko);
        lemma_item_named_at(s0, i);
    }
}

/// Removing the occupant of a slot leaves the other slots untouched.
proof fn lemma_equipped_remove(s0: Seq<Item>, j: int, sl: Slot)
    requires
        slots_unique(s0),
        all_slotted(s0),
        0 <= j < s0.len(),
        s0[j].slot == Option::Some(sl),
    ensures
        slots_unique(s0.remove(j)),
        all_slotted(s0.remove(j)),
        boosts_nonneg(s0) ==> boosts_nonneg(s0.remove(j)),
        !has_slot(s0.remove(j), sl),
        forall|t: Slot| t != sl ==> (#[trigger] has_slot(s0.remove(j), t) <==> has_slot(s0, t)),
        forall|t: Slot|
            t != sl && has_slot(s0, t) ==> #[trigger] item_in_slot(s0.remove(j), t) == item_in_slot(
                s0,
                t,
            ),
{
    let s1 = s0.remove(j);
    assert forall|k: int| 0 <= k < s1.len() implies s1[k] == (if k < j {
        s0[k]
    } else {
        s0[k + 1]
    }) by {}
    assert forall|t: Slot| t != sl && has_slot(s1, t) implies has_slot(s0, t) && item_in_slot(s1, t)
        == item_in_slot(s0, t) by {
        let k = index_of_slot(s1, t);
        assert(0 <= k < s1.len() && s1[k].slot == Option::Some(t));
        let ko: int = if k < j { k } else { k + 1 };
        assert(s0[ko] == s1[k]);
        lemma_item_in_slot_at(s0, ko, t);
        lemma_item_in_slot_at(s1, k, t);
    }
    assert forall|t: Slot| t != sl && has_slot(s0, t) implies has_slot(s1, t) by {
        let k = index_of_slot(s0, t);
        assert(0 <= k < s0.len() && s0[k].slot == Option::Some(t));
        lemma_item_in_slot_at(s0, j, sl);
        let kn: int = if k < j { k } else { k - 1 };
        assert(s1[kn] == s0[k]);
    }
    if has_slot(s1, sl) {
        let k = index_of_slot(s1, sl);
        assert(0 <= k < s1.len() && s1[k].slot == Option::Some(sl));
        let ko: int = if k < j { k } else { k + 1 };
        assert(s0[ko] == s1[k]);
        lemma_item_in_slot_at(s0, ko, sl);
        lemma_item_in_slot_at(s0, j, sl);
    }
}

/// Equipping into a free slot leaves the other slots untouched.
proof fn lemma_equipped_push(s0: Seq<Item>, item: Item, sl: Slot)
    requires
        slots_unique(s0),
        all_slotted(s0),
        !has_slot(s0, sl),
        item.slot == Option::Some(sl),
    ensures
        slots_unique(s0.push(item)),
        all_slotted(s0.push(item)),
        boosts_nonneg(s0) && item.damage_boost >= 0 ==> boosts_nonneg(s0.push(item)),
        has_slot(s0.push(item), sl),
        item_in_slot(s0.push(item), sl) == item,
        forall|t: Slot| t != sl ==> (#[trigger] has_slot(s0.push(item), t) <==> has_slot(s0, t)),
        forall|t: Slot|
            t != sl && has_slot(s0, t) ==> #[trigger] item_in_slot(s0.push(item), t)
                == item_in_slot(s0, t),
{
    let s1 = s0.push(item);
    assert forall|a: int, b: int| 0 <= a < b < s1.len() implies s1[a].slot != s1[b].slot by {
        if b == s1.len() - 1 {
            assert(s1[a] == s0[a]);
            if s0[a].slot == Option::Some(sl) {
                assert(has_slot(s0, sl));
            }
        }
    }
    lemma_item_in_slot_at(s1, s1.len() - 1, sl);
    assert forall|t: Slot| t != sl && has_slot(s1, t) implies has_slot(s0, t) && item_in_slot(s1, t)
        == item_in_slot(s0, t) by {
        let k = index_of_slot(s1, t);
        assert(0 <= k < s1.len() && s1[k].slot == Option::Some(t));
        assert(s0[k] == s1[k]);
        lemma_item_in_slot_at(s0, k, t);
        lemma_item_in_slot_at(s1, k, t);
    }
    assert forall|t: Slot| t != sl && has_slot(s0, t) implies has_slot(s1, t) by {
        let k = index_of_slot(s0, t);
        assert(s1[k] == s0[k]);
    }
}

/// An entity's item storage: the unequipped pool and the equipped map.
#[derive(Debug)]
pub struct Backpack {
    /// The unequipped pool, keyed by item name.
    pub items: Vec<Item>,
    /// The equipped items, at most one per slot.
    pub equipped_items: Vec<Item>,
}

/// An element-wise copy of a vector of items.
fn clone_items(v: &Vec<Item>) -> (r: Vec<Item>)
    ensures
        r@ == v@,
{
    let mut r: Vec<Item> = Vec::new();
    let mut i: usize = 0;
    while i < v.len()
        invariant
            i <= v@.len(),
            r@ == v@.subrange(0, i as int),
        decreases v@.len() - i,
    {
        r.push(v[i].clone());
        proof {
            assert(r@ =~= v@.subrange(0, i + 1 as int));
        }
        i = i + 1;
    }
    proof {
        assert(r@ =~= v@);
    }
    r
}

impl Clone for Backpack {
    fn clone(&self) -> (r: Self)
        ensures
            r.items@ == self.items@,
            r.equipped_items@ == self.equipped_items@,
    {
        Backpack {
            items: clone_items(&self.items),
            equipped_items: clone_items(&self.equipped_items),
        }
    }
}

/// What `equip_item(item_name)` promises of the backpack before (`pre`) and
/// after (`post`) the call and of its result `r`: a missing name or a
/// slotless item fails and changes nothing; otherwise the item takes its
/// slot, a previous occupant returns to the pool, and all other names and
/// slots are untouched.
pub open spec fn equip_post(
    pre: Backpack,
    post: Backpack,
    item_name: Seq<char>,
    r: Result<(), EquipError>,
) -> bool {
    &&& !pre.pool_has(item_name) ==> r == Result::<(), EquipError>::Err(EquipError::ItemNotFound)
        && post == pre
    &&& pre.pool_has(item_name) && pre.pool_item(item_name).slot is None ==> r == Result::<
        (),
        EquipError,
    >::Err(EquipError::NoEquipSlot) && post == pre
    &&& pre.pool_has(item_name) && pre.pool_item(item_name).slot is Some ==> ({
        let it = pre.pool_item(item_name);
        let sl = it.slot->0;
        &&& r == Result::<(), EquipError>::Ok(())
        &&& post.slot_filled(sl)
        &&& post.equipped_in(sl) == it
        &&& forall|t: Slot| t != sl ==> (#[trigger] post.slot_filled(t) <==> pre.slot_filled(t))
        &&& forall|t: Slot|
            t != sl && pre.slot_filled(t) ==> #[trigger] post.equipped_in(t) == pre.equipped_in(t)
        &&& pre.slot_filled(sl) ==> post.pool_has(pre.equipped_in(sl).name@) && post.pool_item(
            pre.equipped_in(sl).name@,
        ) == pre.equipped_in(sl)
        &&& forall|m: Seq<char>|
            #[trigger] post.pool_has(m) <==> ((pre.pool_has(m) && m != item_name) || (
            pre.slot_filled(sl) && pre.equipped_in(sl).name@ == m))
        &&& forall|m: Seq<char>|
            m != item_name && pre.pool_has(m) && !(pre.slot_filled(sl) && pre.equipped_in(
                sl,
            ).name@ == m) ==> #[trigger] post.pool_item(m) == pre.pool_item(m)
    })
}

/// What `unequip_item(slot)` promises of the backpack before (`pre`) and
/// after (`post`) the call and of its result `r`: an empty slot returns
/// `None` and changes nothing; otherwise the occupant moves back into the
/// pool under its name and is returned, with every other name and slot
/// untouched.
pub open spec fn unequip_post(pre: Backpack, post: Backpack, sl: Slot, r: Option<Item>) -> bool {
    &&& !pre.slot_filled(sl) ==> r is None && post == pre
    &&& pre.slot_filled(sl) ==> ({
        let it = pre.equipped_in(sl);
        &&& r == Option::Some(it)
        &&& !post.slot_filled(sl)
        &&& forall|t: Slot| t != sl ==> (#[trigger] post.slot_filled(t) <==> pre.slot_filled(t))
        &&& forall|t: Slot|
            t != sl && pre.slot_filled(t) ==> #[trigger] post.equipped_in(t) == pre.equipped_in(t)
        &&& post.pool_has(it.name@)
        &&& post.pool_item(it.name@) == it
        &&& forall|m: Seq<char>|
            m != it.name@ ==> (#[trigger] post.pool_has(m) <==> pre.pool_has(m))
        &&& forall|m: Seq<char>|
            m != it.name@ && pre.pool_has(m) ==> #[trigger] post.pool_item(m) == pre.pool_item(m)
    })
}

impl Backpack {
    /// The backpack's invariant: unique pool names, one item per slot, every
    /// equipped item slotted, and non-negative bonuses throughout.
    pub open spec fn wf(self) -> bool {
        &&& names_unique(self.items@)
        &&& boosts_nonneg(self.items@)
        &&& all_slotted(self.equipped_items@)
        &&& slots_unique(self.equipped_items@)
        &&& boosts_nonneg(self.equipped_items@)
    }

    /// Whether the unequipped pool holds an item named `n`.
    pub open spec fn pool_has(self, n: Seq<char>) -> bool {
        has_name(self.items@, n)
    }

    /// The pool item named `n` (meaningful when `pool_has(n)` under `wf`).
    pub open spec fn pool_item(self, n: Seq<char>) -> Item {
        item_named(self.items@, n)
    }

    /// Whether slot `sl` is occupied.
    pub open spec fn slot_filled(self, sl: Slot) -> bool {
        has_slot(self.equipped_items@, sl)
    }

    /// The item equipped in slot `sl` (meaningful when `slot_filled(sl)`
    /// under `wf`).
    pub open spec fn equipped_in(self, sl: Slot) -> Item {
        item_in_slot(self.equipped_items@, sl)
    }

    /// The summed damage bonus of the equipped items.
    pub open spec fn total_boost(self) -> int {
        sum_boosts(self.equipped_items@)
    }

    /// An empty backpack.
    pub fn new() -> (r: Backpack)
        ensures
            r.wf(),
            r.items@.len() == 0,
            r.equipped_items@.len() == 0,
    {
        Backpack { items: Vec::new(), equipped_items: Vec::new() }
    }

    /// Inserts `item` into the unequipped pool under its name, silently
    /// overwriting any pool item of the same name; everything else is kept.
    pub fn add_item(&mut self, item: Item)
        requires
            old(self).wf(),
            item.damage_boost >= 0,
        ensures
            final(self).wf(),
            final(self).pool_has(item.name@),
            final(self).pool_item(item.name@) == item,
            forall|m: Seq<char>|
                m != item.name@ ==> (#[trigger] final(self).pool_has(m) <==> old(self).pool_has(m)),
            forall|m: Seq<char>|
                m != item.name@ && old(self).pool_has(m) ==> #[trigger] final(self).pool_item(m)
                    == old(self).pool_item(m),
            final(self).equipped_items == old(self).equipped_items,
    {
        self.insert_into_pool(item);
    }

    /// The shared pool insert: overwrite-by-name semantics, used by
    /// `add_item` and by the swap and unequip paths.
    fn insert_into_pool(&mut self, item: Item)
        requires
            names_unique(old(self).items@),
            boosts_nonneg(old(self).items@),
            item.damage_boost >= 0,
        ensures
            names_unique(final(self).items@),
            boosts_nonneg(final(self).items@),
            has_name(final(self).items@, item.name@),
            item_named(final(self).items@, item.name@) == item,
            forall|m: Seq<char>|
                m != item.name@ ==> (#[trigger] has_name(final(self).items@, m) <==> has_name(
                    old(self).items@,
                    m,
                )),
            forall|m: Seq<char>|
                m != item.name@ && has_name(old(self).items@, m) ==> #[trigger] item_named(
                    final(self).items@,
                    m,
                ) == item_named(old(self).items@, m),
            final(self).equipped_items == old(self).equipped_items,
    {
        let ghost s0 = self.items@;
        match find_item_index(&self.items, item.name.as_str()) {
            Option::Some(i) => {
                let _ = self.items.remove(i);
                self.items.push(item);
                proof {
                    let s1 = self.items@;
                    assert forall|a: int, b: int| 0 <= a < b < s1.len() implies s1[a].name@
                        != s1[b].name@ by {
                        if b == s1.len() - 1 {
                            if a < i {
                                assert(s1[a] == s0[a]);
                            } else {
                                assert(s1[a] == s0[a + 1]);
                            }
                        }
                    }
                    lemma_item_named_at(s1, s1.len() - 1);
                    assert forall|m: Seq<char>|
                        m != item.name@ && has_name(s1, m) implies has_name(s0, m) && item_named(
                        s1,
                        m,
                    ) == item_named(s0, m) by {
                        let k = index_of_name(s1, m);
                        assert(0 <= k < s1.len() && s1[k].name@ == m);
                        let ko: int = if k < i { k } else { k + 1 };
                        assert(s0[ko] == s1[k]);
                        lemma_item_named_at(s0, ko);
                        lemma_item_named_at(s1, k);
                    }
                    assert forall|m: Seq<char>| m != item.name@ && has_name(s0, m) implies has_name(
                        s1,
                        m,
                    ) by {
                        let k = index_of_name(s0, m);
                        assert(0 <= k < s0.len() && s0[k].name@ == m);
                        lemma_item_named_at(s0, i as int);
                        let kn: int = if k < i { k } else { k - 1 };
                        assert(s1[kn] == s0[k]);
                    }
                }
            },
            Option::None => {
                self.items.push(item);
                proof {
                    let s1 = self.items@;
                    lemma_item_named_at(s1, s1.len() - 1);
                    assert forall|m: Seq<char>|
                        m != item.name@ && has_name(s1, m) implies has_name(s0, m) && item_named(
                        s1,
                        m,
                    ) == item_named(s0, m) by {
                        let k = index_of_name(s1, m);
                        assert(0 <= k < s1.len() && s1[k].name@ == m);
                        assert(s0[k] == s1[k]);
                        lemma_item_named_at(s0, k);
                        lemma_item_named_at(s1, k);
                    }
                    assert forall|m: Seq<char>| m != item.name@ && has_name(s0, m) implies has_name(
                        s1,
                        m,
                    ) by {
                        let k = index_of_name(s0, m);
                        assert(s1[k] == s0[k]);
                    }
                }
            },
        }
    }

    /// Drains the unequipped pool, returning every pool item in storage
    /// order; equipped items stay where they are. Used for loot transfer
    /// after a battle.
    pub fn remove_items(&mut self) -> (r: Vec<Option<Item>>)
        requires
            old(self).wf(),
        ensures
            final(self).wf(),
            final(self).items@.len() == 0,
            final(self).equipped_items == old(self).equipped_items,
            r@.len() == old(self).items@.len(),
            forall|i: int| 0 <= i < r@.len() ==> r@[i] == Option::Some(old(self).items@[i]),
    {
        let mut r: Vec<Option<Item>> = Vec::new();
        let mut i: usize = 0;
        while i < self.items.len()
            invariant
                i <= self.items@.len(),
                r@.len() == i,
                forall|j: int| 0 <= j < i ==> r@[j] == Option::Some(self.items@[j]),
            decreases self.items@.len() - i,
        {
            r.push(Option::Some(self.items[i].clone()));
            i = i + 1;
        }
        self.items = Vec::new();
        r
    }

    /// Equips the pool item named `item_name`. Fails with `ItemNotFound` if
    /// no such pool item exists and with `NoEquipSlot` if it has no slot, in
    /// both cases leaving the backpack unchanged. On success the item moves
    /// to its slot; a previous occupant of that slot is put back into the
    /// pool under its name (swap semantics, never dropped).
    pub fn equip_item(&mut self, item_name: &str) -> (r: Result<(), EquipError>)
        requires
            old(self).wf(),
        ensures
            final(self).wf(),
            equip_post(*old(self), *final(self), item_name@, r),
    {
        let idx = match find_item_index(&self.items, item_name) {
            Option::Some(i) => i,
            Option::None => {
                return Result::Err(EquipError::ItemNotFound);
            },
        };
        proof {
            lemma_item_named_at(self.items@, idx as int);
        }
        if self.items[idx].slot.is_none() {
            return Result::Err(EquipError::NoEquipSlot);
        }
        let ghost s0 = self.items@;
        let ghost e0 = self.equipped_items@;
        let item = self.items.remove(idx);
        let sl = item.slot.unwrap();
        proof {
            lemma_pool_remove(s0, idx as int);
        }
        match find_slot_index(&self.equipped_items, sl) {
            Option::Some(j) => {
                let prev = self.equipped_items.remove(j);
                proof {
                    lemma_item_in_slot_at(e0, j as int, sl);
                    lemma_equipped_remove(e0, j as int, sl);
                }
                self.insert_into_pool(prev);
                self.equipped_items.push(item);
                proof {
                    lemma_equipped_push(e0.remove(j as int), item, sl);
                }
            },
            Option::None => {
                self.equipped_items.push(item);
                proof {
                    lemma_equipped_push(e0, item, sl);
                }
            },
        }
        Result::Ok(())
    }

    /// Removes the item equipped in `slot`, if any, putting it back into the
    /// unequipped pool under its name and returning it; an empty slot
    /// returns `None` and changes nothing.
    pub fn unequip_item(&mut self, slot: &Slot) -> (r: Option<Item>)
        requires
            old(self).wf(),
        ensures
            final(self).wf(),
            unequip_post(*old(self), *final(self), *slot, r),
    {
        let ghost e0 = self.equipped_items@;
        match find_slot_index(&self.equipped_items, *slot) {
            Option::None => Option::None,
            Option::Some(j) => {
                let item = self.equipped_items.remove(j);
                proof {
                    lemma_item_in_slot_at(e0, j as int, *slot);
                    lemma_equipped_remove(e0, j as int, *slot);
                }
                let ret = item.clone();
                self.insert_into_pool(item);
                Option::Some(ret)
            },
        }
    }

    /// The total damage bonus the equipped items grant: the sum of
    /// `damage_boost` over exactly the equipped set, 0 when nothing is
    /// equipped.
    pub fn calculate_total_damage(&self) -> (r: i128)
        requires
            self.wf(),
            sum_boosts(self.equipped_items@) <= i128::MAX,
        ensures
            r == self.total_boost(),
            r >= 0,
    {
        let ghost s = self.equipped_items@;
        let mut sum: i128 = 0;
        let mut i: usize = 0;
        while i < self.equipped_items.len()
            invariant
                self.wf(),
                sum_boosts(s) <= i128::MAX,
                s == self.equipped_items@,
                i <= s.len(),
                sum == sum_boosts(s.subrange(0, i as int)),
                sum >= 0,
            decreases s.len() - i,
        {
            proof {
                lemma_sum_split(s, i + 1 as int);
                assert(s.subrange(0, i + 1 as int).drop_last() =~= s.subrange(0, i as int));
                assert(s.subrange(0, i + 1 as int).last() == s[i as int]);
                assert(boosts_nonneg(s.subrange(i + 1 as int, s.len() as int)));
                lemma_sum_nonneg(s.subrange(i + 1 as int, s.len() as int));
            }
            sum = sum + self.equipped_items[i].damage_boost;
            i = i + 1;
        }
        proof {
            assert(s.subrange(0, s.len() as int) =~= s);
        }
        sum
    }

    /// The grouped listing view: the unequipped pool and the equipped items,
    /// each sorted by (slot, damage bonus) ascending with slotless items
    /// first, ready for display. The backpack itself is unchanged.
    pub fn list_items(&self) -> (r: (Vec<Item>, Vec<Item>))
        ensures
            sorted_by_slot(r.0@),
            r.0@.to_multiset() == self.items@.to_multiset(),
            sorted_by_slot(r.1@),
            r.1@.to_multiset() == self.equipped_items@.to_multiset(),
    {
        (sort_items(&self.items), sort_items(&self.equipped_items))
    }

    /// Draws a fresh random item; the backpack itself is unchanged.
    pub fn generate_item(&self) -> (r: Item)
        ensures
            exists|pi: int, si: int, di: int| crate::item::item_matches(r, pi, si, di),
            r.slot is Some,
            r.damage_boost >= 0,
    {
        Item::new_random()
    }
}

/// The listing order on items: by slot rank first (`None` before every
/// slot), then by damage bonus, ascending.
pub open spec fn item_le(a: Item, b: Item) -> bool {
    ||| crate::slot::opt_slot_rank(a.slot) < crate::slot::opt_slot_rank(b.slot)
    ||| (crate::slot::opt_slot_rank(a.slot) == crate::slot::opt_slot_rank(b.slot)
        && a.damage_boost <= b.damage_boost)
}

/// Whether a sequence of items is sorted in the listing order.
pub open spec fn sorted_by_slot(s: Seq<Item>) -> bool {
    forall|i: int, j: int| 0 <= i < j < s.len() ==> item_le(s[i], s[j])
}

/// The listing rank of an optional slot, as an executable value.
fn opt_rank(s: &Option<Slot>) -> (r: i32)
    ensures
        r == crate::slot::opt_slot_rank(*s),
{
    match s {
        Option::None => -1,
        Option::Some(sl) => sl.rank() as i32,
    }
}

/// Compares two items in the listing order.
fn item_le_exec(a: &Item, b: &Item) -> (r: bool)
    ensures
        r == item_le(*a, *b),
{
    let ra = opt_rank(&a.slot);
    let rb = opt_rank(&b.slot);
    ra < rb || (ra == rb && a.damage_boost <= b.damage_boost)
}

/// The position of a least item in the listing order.
fn min_index(v: &Vec<Item>) -> (m: usize)
    requires
        v@.len() > 0,
    ensures
        m < v@.len(),
        forall|j: int| 0 <= j < v@.len() ==> item_le(v@[m as int], v@[j]),
    {
    let mut m: usize = 0;
    let mut i: usize = 1;
    while i < v.len()
        invariant
            m < i <= v@.len(),
            forall|j: int| 0 <= j < i ==> item_le(v@[m as int], v@[j]),
        decreases v@.len() - i,
    {
        if item_le_exec(&v[i], &v[m]) {
            m = i;
        }
        i = i + 1;
    }
    m
}

/// A copy of `v` sorted in the listing order, by repeated extraction of a
/// least remaining item.
fn sort_items(v: &Vec<Item>) -> (out: Vec<Item>)
    ensures
        sorted_by_slot(out@),
        out@.to_multiset() == v@.to_multiset(),
{
    broadcast use vstd::seq_lib::group_to_multiset_ensures;

    let mut src = clone_items(v);
    let mut out: Vec<Item> = Vec::new();
    while src.len() > 0
        invariant
            sorted_by_slot(out@),
            out@.to_multiset().add(src@.to_multiset()) == v@.to_multiset(),
            forall|a: int, b: int|
                0 <= a < out@.len() && 0 <= b < src@.len() ==> item_le(out@[a], src@[b]),
        decreases src@.len(),
    {
        let ghost srcs = src@;
        let ghost outs = out@;
        let m = min_index(&src);
        let it = src.remove(m);
        out.push(it);
        proof {
            assert(srcs.contains(srcs[m as int]));
            vstd::seq_lib::to_multiset_remove::<Item>(srcs, m as int);
            vstd::seq_lib::to_multiset_build::<Item>(outs, it);
            assert(src@.to_multiset() =~= srcs.to_multiset().remove(it));
            assert(out@.to_multiset() =~= outs.to_multiset().insert(it));
            vstd::seq_lib::to_multiset_contains::<Item>(srcs, it);
            assert(srcs.to_multiset().count(it) > 0);
            assert(out@.to_multiset().add(src@.to_multiset()) =~= outs.to_multiset().add(
                srcs.to_multiset(),
            ));
            assert forall|b: int| 0 <= b < src@.len() implies item_le(it, src@[b]) by {
                if b < m {
                    assert(src@[b] == srcs[b]);
                } else {
                    assert(src@[b] == srcs[b + 1]);
                }
            }
        }
    }
    proof {
        assert(out@.to_multiset().add(src@.to_multiset()) =~= out@.to_multiset());
    }
    out
}

/// Under the backpack invariant, the pool item looked up by a name bears
/// that name.
pub proof fn lemma_pool_item_name(bp: Backpack, n: Seq<char>)
    requires
        bp.pool_has(n),
    ensures
        bp.pool_item(n).name@ == n,
{
    let k = index_of_name(bp.items@, n);
    assert(0 <= k < bp.items@.len() && bp.items@[k].name@ == n);
}

/// Equip/unequip round trip: equipping a pool item into a free slot and
/// then unequipping that slot returns the pool to its prior state — the
/// same set of names holds the same items, the round-tripped item is again
/// present and unequipped, and every slot is filled exactly as before.
pub proof fn lemma_equip_unequip_round_trip(
    pre: Backpack,
    mid: Backpack,
    post: Backpack,
    n: Seq<char>,
    r1: Result<(), EquipError>,
    r2: Option<Item>,
)
    requires
        pre.wf(),
        pre.pool_has(n),
        pre.pool_item(n).slot is Some,
        !pre.slot_filled(pre.pool_item(n).slot->0),
        equip_post(pre, mid, n, r1),
        unequip_post(mid, post, pre.pool_item(n).slot->0, r2),
    ensures
        r1 == Result::<(), EquipError>::Ok(()),
        r2 == Option::Some(pre.pool_item(n)),
        post.pool_has(n),
        post.pool_item(n) == pre.pool_item(n),
        !post.slot_filled(pre.pool_item(n).slot->0),
        forall|m: Seq<char>| #[trigger] post.pool_has(m) <==> pre.pool_has(m),
        forall|m: Seq<char>|
            m != n && pre.pool_has(m) ==> #[trigger] post.pool_item(m) == pre.pool_item(m),
        forall|t: Slot| #[trigger] post.slot_filled(t) <==> pre.slot_filled(t),
{
    let it = pre.pool_item(n);
    let sl = it.slot->0;
    lemma_pool_item_name(pre, n);
    assert(mid.slot_filled(sl) && mid.equipped_in(sl) == it);
    assert(r2 == Option::Some(it));
    assert forall|m: Seq<char>| #[trigger] post.pool_has(m) <==> pre.pool_has(m) by {
        assert(post.pool_has(m) <==> (m == n || mid.pool_has(m)));
        assert(mid.pool_has(m) <==> (pre.pool_has(m) && m != n));
    }
}

/// Swap invariant: equipping a second item into an occupied slot never
/// loses the first — the previous occupant reappears in the pool under its
/// name, and the new item holds the slot.
pub proof fn lemma_swap_keeps_occupant(
    pre: Backpack,
    post: Backpack,
    n: Seq<char>,
    r: Result<(), EquipError>,
)
    requires
        pre.wf(),
        pre.pool_has(n),
        pre.pool_item(n).slot is Some,
        pre.slot_filled(pre.pool_item(n).slot->0),
        equip_post(pre, post, n, r),
    ensures
        r == Result::<(), EquipError>::Ok(()),
        post.pool_has(pre.equipped_in(pre.pool_item(n).slot->0).name@),
        post.pool_item(pre.equipped_in(pre.pool_item(n).slot->0).name@) == pre.equipped_in(
            pre.pool_item(n).slot->0,
        ),
        post.equipped_in(pre.pool_item(n).slot->0) == pre.pool_item(n),
{
}

/// The total equipped damage of a backpack with nothing equipped is zero.
pub proof fn lemma_total_boost_empty(bp: Backpack)
    requires
        bp.equipped_items@.len() == 0,
    ensures
        bp.total_boost() == 0,
{
}

/// The position of the pool item named `name`, if the pool holds one.
fn find_item_index(items: &Vec<Item>, name: &str) -> (r: Option<usize>)
    ensures
        match r {
            Option::Some(i) => i < items@.len() && items@[i as int].name@ == name@,
            Option::None => !has_name(items@, name@),
        },
{
    let mut i: usize = 0;
    while i < items.len()
        invariant
            i <= items@.len(),
            forall|j: int| 0 <= j < i ==> items@[j].name@ != name@,
        decreases items@.len() - i,
    {
        if str_eq(items[i].name.as_str(), name) {
            return Option::Some(i);
        }
        i = i + 1;
    }
    Option::None
}

/// The position of the equipped item occupying `sl`, if any.
fn find_slot_index(equipped: &Vec<Item>, sl: Slot) -> (r: Option<usize>)
    ensures
        match r {
            Option::Some(i) => i < equipped@.len() && equipped@[i as int].slot == Option::Some(sl),
            Option::None => !has_slot(equipped@, sl),
        },
{
    let mut i: usize = 0;
    while i < equipped.len()
        invariant
            i <= equipped@.len(),
            forall|j: int| 0 <= j < i ==> equipped@[j].slot != Option::Some(sl),
        decreases equipped@.len() - i,
    {
        match equipped[i].slot {
            Option::Some(s2) => {
                if s2 == sl {
                    return Option::Some(i);
                }
            },
            Option::None => {},
        }
        i = i + 1;
    }
    Option::None
}

} // verus!
