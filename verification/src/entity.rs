//! Entities: the fighters. An entity owns a backpack, tracks health, damage
//! and experience, and levels up by consuming stored experience.
//!
//! The two growth multipliers are exact rationals held as integer
//! numerators over fixed denominators: `multiplier_num` over 10 (the
//! per-level growth factor, 11/10) and `level_up_multiplier_num` over 100
//! (the threshold growth factor, initially 101/100). Each level-up applies
//! the growth with floor at the integer boundary, and the threshold grows
//! with ceiling.

use vstd::prelude::*;
use vstd::arithmetic::div_mod::lemma_div_pos_is_pos;
use vstd::arithmetic::div_mod::lemma_div_is_ordered;
use vstd::arithmetic::div_mod::lemma_mod_bound;
use crate::backpack::Backpack;
use crate::backpack::EquipError;
use crate::backpack::equip_post;
use crate::backpack::unequip_post;
use crate::item::Item;
use crate::rng::rand_range;
use crate::slot::Slot;

verus! {

/// A fighter: stats plus an owned backpack. `damage` is the current
/// effective damage; it is only resynchronised with the equipment by an
/// explicit `recalculate_damage` call, never implicitly.
#[derive(Debug)]
pub struct Entity {
    pub name: String,
    pub age: i32,
    pub health: i128,
    pub damage: i128,
    pub base_damage: i128,
    pub level: i128,
    pub xp_drop: i128,
    pub xp_stored: i128,
    /// Numerator of the threshold growth factor, over the denominator 100.
    pub level_up_multiplier_num: i128,
    pub xp_threshold: i128,
    /// Numerator of the per-level growth factor, over the denominator 10.
    pub multiplier_num: i128,
    pub backpack: Backpack,
}

/// Whether the stats of `a` and `b` agree on everything but `xp_stored` and
/// the backpack: the frame of battle resolution.
pub open spec fn stats_unchanged(a: Entity, b: Entity) -> bool {
    &&& a.name == b.name
    &&& a.age == b.age
    &&& a.health == b.health
    &&& a.damage == b.damage
    &&& a.base_damage == b.base_damage
    &&& a.level == b.level
    &&& a.xp_drop == b.xp_drop
    &&& a.level_up_multiplier_num == b.level_up_multiplier_num
    &&& a.xp_threshold == b.xp_threshold
    &&& a.multiplier_num == b.multiplier_num
}

impl Clone for Entity {
    fn clone(&self) -> (r: Self)
        ensures
            stats_unchanged(*self, r),
            r.xp_stored == self.xp_stored,
            r.backpack.items@ == self.backpack.items@,
            r.backpack.equipped_items@ == self.backpack.equipped_items@,
    {
        Entity {
            name: self.name.clone(),
            age: self.age,
            health: self.health,
            damage: self.damage,
            base_damage: self.base_damage,
            level: self.level,
            xp_drop: self.xp_drop,
            xp_stored: self.xp_stored,
            level_up_multiplier_num: self.level_up_multiplier_num,
            xp_threshold: self.xp_threshold,
            multiplier_num: self.multiplier_num,
            backpack: self.backpack.clone(),
        }
    }
}

impl Entity {
    /// The entity's invariant: non-negative stats, a positive threshold,
    /// growth numerators of at least one (factors of at least 1/10 and
    /// 1/100), and a well-formed backpack.
    pub open spec fn wf(self) -> bool {
        &&& self.health >= 0
        &&& self.damage >= 0
        &&& self.base_damage >= 0
        &&& self.level >= 1
        &&& self.xp_drop >= 0
        &&& self.xp_threshold >= 1
        &&& self.level_up_multiplier_num >= 1
        &&& self.multiplier_num >= 1
        &&& self.backpack.wf()
    }

    /// Levels gained by one level-up: stored experience over the threshold,
    /// rounded down.
    pub open spec fn spec_levels_gained(self) -> int {
        self.xp_stored / self.xp_threshold
    }

    /// The entity after one level-up that gains at least one level: health,
    /// experience drop and current damage each grow by the per-level factor
    /// (floored) plus the levels gained; stored experience keeps only the
    /// remainder; the threshold growth factor picks up one whole step per
    /// hundred levels of the new level; and the threshold grows by the new
    /// factor, rounded up.
    pub open spec fn spec_level_up(self) -> Entity {
        let levels = self.spec_levels_gained();
        let new_level = self.level + levels;
        let new_lum = self.level_up_multiplier_num * (1 + new_level / 100);
        Entity {
            health: (self.health * self.multiplier_num / 10 + levels) as i128,
            damage: (self.damage * self.multiplier_num / 10 + levels) as i128,
            level: new_level as i128,
            xp_drop: (self.xp_drop * self.multiplier_num / 10 + levels) as i128,
            xp_stored: (self.xp_stored % self.xp_threshold) as i128,
            level_up_multiplier_num: new_lum as i128,
            xp_threshold: ((self.xp_threshold * new_lum + 99) / 100) as i128,
            ..self
        }
    }

    /// Whether every intermediate of one level-up fits in `i128`.
    pub open spec fn spec_level_up_fits(self) -> bool {
        let levels = self.spec_levels_gained();
        let new_level = self.level + levels;
        let new_lum = self.level_up_multiplier_num * (1 + new_level / 100);
        &&& self.health * self.multiplier_num <= i128::MAX
        &&& self.damage * self.multiplier_num <= i128::MAX
        &&& self.xp_drop * self.multiplier_num <= i128::MAX
        &&& self.health * self.multiplier_num / 10 + levels <= i128::MAX
        &&& self.damage * self.multiplier_num / 10 + levels <= i128::MAX
        &&& self.xp_drop * self.multiplier_num / 10 + levels <= i128::MAX
        &&& new_level <= i128::MAX
        &&& new_lum <= i128::MAX
        &&& self.xp_threshold * new_lum + 99 <= i128::MAX
    }

    /// A fresh entity with the given name and randomized stats: damage in
    /// 1..10 (base and current equal), age in 18..100, health in 10..100,
    /// experience drop in 1..50, level 1, nothing stored, threshold 100,
    /// growth factors 11/10 and 101/100, and an empty backpack.
    pub fn new(name: String) -> (r: Entity)
        ensures
            r.wf(),
            r.name == name,
            18 <= r.age < 100,
            10 <= r.health < 100,
            1 <= r.damage < 10,
            r.base_damage == r.damage,
            r.level == 1,
            1 <= r.xp_drop < 50,
            r.xp_stored == 0,
            r.level_up_multiplier_num == 101,
            r.xp_threshold == 100,
            r.multiplier_num == 11,
            r.backpack.items@.len() == 0,
            r.backpack.equipped_items@.len() == 0,
    {
        let damage = rand_range(1, 10);
        Entity {
            name,
            age: rand_range(18, 100) as i32,
            health: rand_range(10, 100),
            damage,
            base_damage: damage,
            level: 1,
            xp_drop: rand_range(1, 50),
            xp_stored: 0,
            level_up_multiplier_num: 101,
            xp_threshold: 100,
            multiplier_num: 11,
            backpack: Backpack::new(),
        }
    }

    /// The entity's name.
    pub fn get_name(&self) -> (r: &str)
        ensures
            r@ == self.name@,
    {
        self.name.as_str()
    }

    /// Current health.
    pub fn get_health(&self) -> (r: i128)
        ensures
            r == self.health,
    {
        self.health
    }

    /// Current effective damage.
    pub fn get_damage(&self) -> (r: i128)
        ensures
            r == self.damage,
    {
        self.damage
    }

    /// Stored, not yet consumed, experience.
    pub fn get_xp_stored(&self) -> (r: i128)
        ensures
            r == self.xp_stored,
    {
        self.xp_stored
    }

    /// The experience a victor over this entity gains.
    pub fn get_xp_drop(&self) -> (r: i128)
        ensures
            r == self.xp_drop,
    {
        self.xp_drop
    }

    /// Adds experience to the store; no cap and no automatic level-up.
    pub fn add_xp(&mut self, xp: i128)
        requires
            i128::MIN <= old(self).xp_stored + xp <= i128::MAX,
        ensures
            final(self).xp_stored == old(self).xp_stored + xp,
            stats_unchanged(*old(self), *final(self)),
            final(self).backpack == old(self).backpack,
    {
        self.xp_stored = self.xp_stored + xp;
    }

    /// Resynchronises the current damage with the equipment: base damage
    /// plus the summed bonus of the equipped items. Callers must invoke
    /// this after equipment changes; nothing does so implicitly.
    pub fn recalculate_damage(&mut self)
        requires
            old(self).backpack.wf(),
            old(self).base_damage + old(self).backpack.total_boost() <= i128::MAX,
            old(self).base_damage >= 0,
        ensures
            final(self).damage == old(self).base_damage + old(self).backpack.total_boost(),
            final(self).health == old(self).health,
            final(self).base_damage == old(self).base_damage,
            final(self).level == old(self).level,
            final(self).xp_drop == old(self).xp_drop,
            final(self).xp_stored == old(self).xp_stored,
            final(self).xp_threshold == old(self).xp_threshold,
            final(self).level_up_multiplier_num == old(self).level_up_multiplier_num,
            final(self).multiplier_num == old(self).multiplier_num,
            final(self).name == old(self).name,
            final(self).age == old(self).age,
            final(self).backpack == old(self).backpack,
    {
        let total_item_damage = self.backpack.calculate_total_damage();
        self.damage = self.base_damage + total_item_damage;
    }

    /// Consumes stored experience: with fewer stored points than the
    /// threshold this changes nothing; otherwise the entity advances by
    /// `spec_level_up`.
    pub fn level_up(&mut self)
        requires
            old(self).wf(),
            old(self).xp_stored >= old(self).xp_threshold ==> old(self).spec_level_up_fits(),
        ensures
            final(self).wf(),
            old(self).xp_stored < old(self).xp_threshold ==> *final(self) == *old(self),
            old(self).xp_stored >= old(self).xp_threshold ==> *final(self) == old(
                self,
            ).spec_level_up(),
    {
        if self.xp_stored >= self.xp_threshold {
            proof {
                lemma_div_pos_is_pos(self.xp_stored as int, self.xp_threshold as int);
                lemma_div_is_ordered(
                    self.xp_threshold as int,
                    self.xp_stored as int,
                    self.xp_threshold as int,
                );
                assert(self.xp_stored as int / self.xp_threshold as int >= 1);
                assert(self.health * self.multiplier_num >= 0) by (nonlinear_arith)
                    requires
                        self.health >= 0,
                        self.multiplier_num >= 1,
                ;
                assert(self.damage * self.multiplier_num >= 0) by (nonlinear_arith)
                    requires
                        self.damage >= 0,
                        self.multiplier_num >= 1,
                ;
                assert(self.xp_drop * self.multiplier_num >= 0) by (nonlinear_arith)
                    requires
                        self.xp_drop >= 0,
                        self.multiplier_num >= 1,
                ;
                lemma_div_pos_is_pos(self.health * self.multiplier_num, 10);
                lemma_div_pos_is_pos(self.damage * self.multiplier_num, 10);
                lemma_div_pos_is_pos(self.xp_drop * self.multiplier_num, 10);
                lemma_mod_bound(self.xp_stored as int, self.xp_threshold as int);
            }
            let levels = self.xp_stored / self.xp_threshold;
            self.level = self.level + levels;
            self.health = self.health * self.multiplier_num / 10 + levels;
            self.xp_drop = self.xp_drop * self.multiplier_num / 10 + levels;
            self.damage = self.damage * self.multiplier_num / 10 + levels;
            self.xp_stored = self.xp_stored % self.xp_threshold;
            proof {
                lemma_div_pos_is_pos(self.level as int, 100);
                assert(self.level_up_multiplier_num * (1 + self.level as int / 100)
                    >= 1) by (nonlinear_arith)
                    requires
                        self.level_up_multiplier_num >= 1,
                        self.level as int / 100 >= 0,
                ;
            }
            self.level_up_multiplier_num = self.level_up_multiplier_num * (1 + self.level / 100);
            proof {
                assert(self.xp_threshold * self.level_up_multiplier_num >= 1) by (nonlinear_arith)
                    requires
                        self.xp_threshold >= 1,
                        self.level_up_multiplier_num >= 1,
                ;
                lemma_div_is_ordered(
                    100,
                    self.xp_threshold * self.level_up_multiplier_num + 99,
                    100,
                );
            }
            self.xp_threshold = (self.xp_threshold * self.level_up_multiplier_num + 99) / 100;
        }
    }

    /// Equips the named item from this entity's backpack; the entity's
    /// stats are untouched (in particular, `damage` is not resynchronised).
    pub fn equip_item(&mut self, item_name: &str) -> (r: Result<(), EquipError>)
        requires
            old(self).backpack.wf(),
        ensures
            final(self).backpack.wf(),
            equip_post(old(self).backpack, final(self).backpack, item_name@, r),
            stats_unchanged(*old(self), *final(self)),
            final(self).xp_stored == old(self).xp_stored,
    {
        self.backpack.equip_item(item_name)
    }

    /// Unequips the given slot of this entity's backpack; the entity's
    /// stats are untouched (in particular, `damage` is not resynchronised).
    pub fn unequip_item(&mut self, slot: &Slot) -> (r: Option<Item>)
        requires
            old(self).backpack.wf(),
        ensures
            final(self).backpack.wf(),
            unequip_post(old(self).backpack, final(self).backpack, *slot, r),
            stats_unchanged(*old(self), *final(self)),
            final(self).xp_stored == old(self).xp_stored,
    {
        self.backpack.unequip_item(slot)
    }
}

} // verus!
