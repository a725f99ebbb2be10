//! Closed-form battle resolution between two entities.
//!
//! A battle is a single transition, not iterated combat: each side's total
//! is the rounds it can land (the opponent's health over its own damage,
//! rounded down, with zero damage guarded to zero rounds) times its damage.
//! A side wins only when its total strictly exceeds both the opponent's
//! health and the opponent's total; otherwise the attack is unsuccessful
//! and nothing changes. Only an attacker's win moves anything: the attacker
//! gains the defender's experience drop and every unequipped item of the
//! defender, while the defender keeps its equipped items. Health is never
//! reduced; it serves only as a threshold in the round computation.

use vstd::prelude::*;
use vstd::arithmetic::div_mod::lemma_fundamental_div_mod;
use vstd::arithmetic::div_mod::lemma_mod_bound;
use vstd::arithmetic::div_mod::lemma_div_pos_is_pos;
use crate::backpack::has_name;
use crate::backpack::names_unique;
use crate::backpack::boosts_nonneg;
use crate::backpack::lemma_item_named_at;
use crate::backpack::lemma_has_name_push;
use crate::entity::Entity;
use crate::entity::stats_unchanged;

verus! {

/// How one attack resolved.
#[derive(Debug, Clone, Copy, PartialEq, Eq, Structural)]
pub enum BattleOutcome {
    /// The attacker won: it gains the defender's experience drop and the
    /// defender's unequipped items.
    AttackerWins,
    /// The defender won: nothing is transferred.
    DefenderWins,
    /// Neither win condition held: no state changes at all.
    Unsuccessful,
}

/// The rounds a side can land against an opponent of the given health: the
/// health over the side's damage, rounded down, with zero damage guarded to
/// zero rounds rather than an error.
pub open spec fn spec_rounds(opponent_health: int, damage: int) -> int {
    if damage == 0 {
        0
    } else {
        opponent_health / damage
    }
}

/// The outcome as a pure function of the four numbers that decide it:
/// attacker health and damage, defender health and damage.
pub open spec fn spec_outcome(
    a_health: int,
    a_damage: int,
    d_health: int,
    d_damage: int,
) -> BattleOutcome {
    let attacker_total = spec_rounds(d_health, a_damage) * a_damage;
    let defender_total = spec_rounds(a_health, d_damage) * d_damage;
    if attacker_total > d_health && attacker_total > defender_total {
        BattleOutcome::AttackerWins
    } else if defender_total > a_health && defender_total > attacker_total {
        BattleOutcome::DefenderWins
    } else {
        BattleOutcome::Unsuccessful
    }
}

/// A zero-damage opponent side lands zero rounds: the division is guarded,
/// never an error.
pub proof fn lemma_zero_damage_zero_rounds(opponent_health: int)
    ensures
        spec_rounds(opponent_health, 0) == 0,
{
}

/// The two round counts of one battle.
#[derive(Debug, Clone, Copy)]
pub struct Round {
    /// Rounds the attacker can land against the defender's health.
    pub max_attacker_rounds: i128,
    /// Rounds the defender can land against the attacker's health.
    pub max_defender_rounds: i128,
}

/// Division with an explicit zero-divisor error instead of a panic.
fn divide(x: i128, y: i128) -> (r: Result<i128, &'static str>)
    requires
        x >= 0,
        y >= 0,
    ensures
        y != 0 ==> (r matches Result::Ok(v) && v == x as int / y as int),
        y == 0 ==> r is Err,
{
    if y != 0 {
        Result::Ok(x / y)
    } else {
        Result::Err("Division by zero")
    }
}

/// The round counts for one battle: each side's rounds are the opponent's
/// health over its own damage, with zero damage yielding zero rounds.
pub fn get_max_rounds(attacker: &Entity, defender: &Entity) -> (r: Round)
    requires
        attacker.health >= 0,
        attacker.damage >= 0,
        defender.health >= 0,
        defender.damage >= 0,
    ensures
        r.max_attacker_rounds == spec_rounds(defender.health as int, attacker.damage as int),
        r.max_defender_rounds == spec_rounds(attacker.health as int, defender.damage as int),
        r.max_attacker_rounds >= 0,
        r.max_defender_rounds >= 0,
{
    let max_attacker_rounds = match divide(defender.get_health(), attacker.get_damage()) {
        Result::Ok(v) => v,
        Result::Err(_) => 0,
    };
    let max_defender_rounds = match divide(attacker.get_health(), defender.get_damage()) {
        Result::Ok(v) => v,
        Result::Err(_) => 0,
    };
    proof {
        if attacker.damage > 0 {
            lemma_div_pos_is_pos(defender.health as int, attacker.damage as int);
        }
        if defender.damage > 0 {
            lemma_div_pos_is_pos(attacker.health as int, defender.damage as int);
        }
    }
    Round { max_attacker_rounds, max_defender_rounds }
}

/// A side's total is at least zero and at most the opponent's health.
proof fn lemma_total_bounds(opponent_health: int, damage: int)
    requires
        opponent_health >= 0,
        damage >= 0,
    ensures
        0 <= spec_rounds(opponent_health, damage) * damage <= opponent_health,
{
    if damage > 0 {
        lemma_fundamental_div_mod(opponent_health, damage);
        lemma_mod_bound(opponent_health, damage);
        lemma_div_pos_is_pos(opponent_health, damage);
        assert(damage * (opponent_health / damage) == opponent_health - opponent_health % damage);
        assert((opponent_health / damage) * damage == damage * (opponent_health
            / damage)) by (nonlinear_arith);
        assert((opponent_health / damage) * damage >= 0) by (nonlinear_arith)
            requires
                opponent_health / damage >= 0,
                damage > 0,
        ;
    }
}

/// Resolves one attack between two distinct entities, returning the
/// outcome; the two exclusive borrows already rule out aliasing one entity
/// as both sides. Health is never changed. Only an attacker's win changes
/// any state: the defender's experience drop joins the attacker's store,
/// the defender's unequipped pool is drained, and every drained item lands
/// in the attacker's pool (the defender's item overwriting the attacker's
/// on a name collision); the defender's equipped items stay with the
/// defender.
pub fn attack(attacker: &mut Entity, defender: &mut Entity) -> (r: BattleOutcome)
    requires
        old(attacker).wf(),
        old(defender).wf(),
        old(attacker).xp_stored + old(defender).xp_drop <= i128::MAX,
    ensures
        final(attacker).wf(),
        final(defender).wf(),
        r == spec_outcome(
            old(attacker).health as int,
            old(attacker).damage as int,
            old(defender).health as int,
            old(defender).damage as int,
        ),
        stats_unchanged(*old(attacker), *final(attacker)),
        stats_unchanged(*old(defender), *final(defender)),
        final(defender).xp_stored == old(defender).xp_stored,
        r != BattleOutcome::AttackerWins ==> *final(attacker) == *old(attacker) && *final(defender)
            == *old(defender),
        r == BattleOutcome::AttackerWins ==> ({
            &&& final(attacker).xp_stored == old(attacker).xp_stored + old(defender).xp_drop
            &&& final(defender).backpack.items@.len() == 0
            &&& final(defender).backpack.equipped_items == old(defender).backpack.equipped_items
            &&& final(attacker).backpack.equipped_items == old(attacker).backpack.equipped_items
            &&& forall|n: Seq<char>|
                #[trigger] final(attacker).backpack.pool_has(n) <==> (old(
                    attacker,
                ).backpack.pool_has(n) || old(defender).backpack.pool_has(n))
            &&& forall|n: Seq<char>|
                old(defender).backpack.pool_has(n) ==> #[trigger] final(attacker).backpack.pool_item(
                    n,
                ) == old(defender).backpack.pool_item(n)
            &&& forall|n: Seq<char>|
                old(attacker).backpack.pool_has(n) && !old(defender).backpack.pool_has(n)
                    ==> #[trigger] final(attacker).backpack.pool_item(n) == old(
                    attacker,
                ).backpack.pool_item(n)
        }),
{
    let rounds = get_max_rounds(attacker, defender);
    proof {
        lemma_total_bounds(defender.health as int, attacker.damage as int);
        lemma_total_bounds(attacker.health as int, defender.damage as int);
    }
    let attacker_damage = rounds.max_attacker_rounds * attacker.get_damage();
    let defender_damage = rounds.max_defender_rounds * defender.get_damage();
    if attacker_damage > defender.get_health() && attacker_damage > defender_damage {
        attacker.add_xp(defender.get_xp_drop());
        transfer_items(attacker, defender);
        BattleOutcome::AttackerWins
    } else if defender_damage > attacker.get_health() && defender_damage > attacker_damage {
        BattleOutcome::DefenderWins
    } else {
        BattleOutcome::Unsuccessful
    }
}

/// Moves every unequipped item of the defender into the attacker's pool,
/// in pool order, leaving the defender's pool empty and its equipped items
/// untouched. On a name collision the defender's item overwrites the
/// attacker's, as a later insert under the same name always does.
pub fn transfer_items(attacker: &mut Entity, defender: &mut Entity)
    requires
        old(attacker).backpack.wf(),
        old(defender).backpack.wf(),
    ensures
        final(attacker).backpack.wf(),
        final(defender).backpack.wf(),
        stats_unchanged(*old(attacker), *final(attacker)),
        stats_unchanged(*old(defender), *final(defender)),
        final(attacker).xp_stored == old(attacker).xp_stored,
        final(defender).xp_stored == old(defender).xp_stored,
        final(defender).backpack.items@.len() == 0,
        final(defender).backpack.equipped_items == old(defender).backpack.equipped_items,
        final(attacker).backpack.equipped_items == old(attacker).backpack.equipped_items,
        forall|n: Seq<char>|
            #[trigger] final(attacker).backpack.pool_has(n) <==> (old(attacker).backpack.pool_has(n)
                || old(defender).backpack.pool_has(n)),
        forall|n: Seq<char>|
            old(defender).backpack.pool_has(n) ==> #[trigger] final(attacker).backpack.pool_item(n)
                == old(defender).backpack.pool_item(n),
        forall|n: Seq<char>|
            old(attacker).backpack.pool_has(n) && !old(defender).backpack.pool_has(n)
                ==> #[trigger] final(attacker).backpack.pool_item(n) == old(
                attacker,
            ).backpack.pool_item(n),
{
    let ghost dpool = old(defender).backpack.items@;
    let items = defender.backpack.remove_items();
    let mut i: usize = 0;
    while i < items.len()
        invariant
            attacker.backpack.wf(),
            i <= items@.len(),
            items@.len() == dpool.len(),
            forall|k: int| 0 <= k < dpool.len() ==> items@[k] == Option::Some(dpool[k]),
            names_unique(dpool),
            boosts_nonneg(dpool),
            stats_unchanged(*old(attacker), *attacker),
            attacker.xp_stored == old(attacker).xp_stored,
            attacker.backpack.equipped_items == old(attacker).backpack.equipped_items,
            forall|n: Seq<char>|
                #[trigger] attacker.backpack.pool_has(n) <==> (old(attacker).backpack.pool_has(n)
                    || has_name(dpool.subrange(0, i as int), n)),
            forall|k: int|
                0 <= k < i ==> attacker.backpack.pool_has(dpool[k].name@)
                    && #[trigger] attacker.backpack.pool_item(dpool[k].name@) == dpool[k],
            forall|n: Seq<char>|
                old(attacker).backpack.pool_has(n) && !has_name(dpool.subrange(0, i as int), n)
                    ==> #[trigger] attacker.backpack.pool_item(n) == old(
                    attacker,
                ).backpack.pool_item(n),
            defender.backpack.wf(),
            defender.backpack.items@.len() == 0,
            defender.backpack.equipped_items == old(defender).backpack.equipped_items,
            stats_unchanged(*old(defender), *defender),
            defender.xp_stored == old(defender).xp_stored,
        decreases items@.len() - i,
    {
        let ghost sub_i = dpool.subrange(0, i as int);
        let ghost before = attacker.backpack;
        match &items[i] {
            Option::Some(x) => {
                proof {
                    assert(items@[i as int] == Option::Some(dpool[i as int]));
                    assert(*x == dpool[i as int]);
                }
                let it = x.clone();
                attacker.backpack.add_item(it);
                proof {
                    assert(it == dpool[i as int]);
                    assert(dpool.subrange(0, i + 1 as int) =~= sub_i.push(dpool[i as int]));
                    assert forall|n: Seq<char>|
                        #[trigger] attacker.backpack.pool_has(n) <==> (old(
                            attacker,
                        ).backpack.pool_has(n) || has_name(
                            dpool.subrange(0, i + 1 as int),
                            n,
                        )) by {
                        lemma_has_name_push(sub_i, dpool[i as int], n);
                    }
                    assert forall|k: int|
                        0 <= k < i + 1 implies attacker.backpack.pool_has(dpool[k].name@)
                        && #[trigger] attacker.backpack.pool_item(dpool[k].name@) == dpool[k] by {
                        if k < i {
                            assert(dpool[k].name@ != dpool[i as int].name@);
                            assert(before.pool_has(dpool[k].name@));
                            assert(before.pool_item(dpool[k].name@) == dpool[k]);
                            assert(attacker.backpack.pool_has(dpool[k].name@));
                            assert(attacker.backpack.pool_item(dpool[k].name@) == dpool[k]);
                        } else {
                            assert(dpool[k].name@ == it.name@);
                            assert(attacker.backpack.pool_has(it.name@));
                            assert(attacker.backpack.pool_item(it.name@) == it);
                        }
                    }
                    assert forall|n: Seq<char>|
                        old(attacker).backpack.pool_has(n) && !has_name(
                            dpool.subrange(0, i + 1 as int),
                            n,
                        ) implies #[trigger] attacker.backpack.pool_item(n) == old(
                        attacker,
                    ).backpack.pool_item(n) by {
                        lemma_has_name_push(sub_i, dpool[i as int], n);
                    }
                }
            },
            Option::None => {
                proof {
                    assert(items@[i as int] == Option::Some(dpool[i as int]));
                    assert(false);
                }
            },
        }
        i = i + 1;
    }
    proof {
        assert(dpool.subrange(0, dpool.len() as int) =~= dpool);
        assert forall|n: Seq<char>|
            old(defender).backpack.pool_has(n) implies #[trigger] attacker.backpack.pool_item(n)
            == old(defender).backpack.pool_item(n) by {
            let k = crate::backpack::index_of_name(dpool, n);
            assert(0 <= k < dpool.len() && dpool[k].name@ == n);
            lemma_item_named_at(dpool, k);
        }
    }
}

} // verus!
