use dungeon_fighter::backpack::Backpack;
use dungeon_fighter::backpack::EquipError;
use dungeon_fighter::battle::attack;
use dungeon_fighter::battle::get_max_rounds;
use dungeon_fighter::battle::transfer_items;
use dungeon_fighter::battle::BattleOutcome;
use dungeon_fighter::entity::Entity;
use dungeon_fighter::item::determine_item_slot;
use dungeon_fighter::item::parse_item_name;
use dungeon_fighter::item::Item;
use dungeon_fighter::slot::parse_slot;
use dungeon_fighter::slot::Slot;

fn item(name: &str, boost: i128, slot: Option<Slot>) -> Item {
    Item {
        name: name.to_string(),
        description: "test gear".to_string(),
        damage_boost: boost,
        slot,
    }
}

fn entity(name: &str, health: i128, damage: i128) -> Entity {
    Entity {
        name: name.to_string(),
        age: 30,
        health,
        damage,
        base_damage: damage,
        level: 1,
        xp_drop: 10,
        xp_stored: 0,
        level_up_multiplier_num: 101,
        xp_threshold: 100,
        multiplier_num: 11,
        backpack: Backpack::new(),
    }
}

fn pool_names(bp: &Backpack) -> Vec<String> {
    let mut names: Vec<String> = bp.items.iter().map(|i| i.name.clone()).collect();
    names.sort();
    names
}

#[test]
fn equip_unequip_round_trip_restores_pool() {
    let mut bp = Backpack::new();
    bp.add_item(item("Ancient Sword", 5, Some(Slot::Weapon)));
    bp.add_item(item("Cursed Ring", 3, Some(Slot::Ring)));
    let before = pool_names(&bp);

    assert!(bp.equip_item("Ancient Sword").is_ok());
    assert_eq!(bp.items.len(), 1);
    let back = bp.unequip_item(&Slot::Weapon).expect("item should come back");
    assert_eq!(back.name, "Ancient Sword");
    assert_eq!(back.damage_boost, 5);

    assert_eq!(pool_names(&bp), before);
    assert!(bp.equipped_items.is_empty());
}

#[test]
fn equip_swap_keeps_previous_occupant() {
    let mut bp = Backpack::new();
    bp.add_item(item("Ancient Sword", 5, Some(Slot::Weapon)));
    bp.add_item(item("Divine Staff", 8, Some(Slot::Weapon)));

    assert!(bp.equip_item("Ancient Sword").is_ok());
    assert!(bp.equip_item("Divine Staff").is_ok());

    assert_eq!(bp.equipped_items.len(), 1);
    assert_eq!(bp.equipped_items[0].name, "Divine Staff");
    assert_eq!(pool_names(&bp), vec!["Ancient Sword".to_string()]);
}

#[test]
fn equip_missing_item_fails() {
    let mut bp = Backpack::new();
    assert_eq!(bp.equip_item("Nothing"), Err(EquipError::ItemNotFound));
}

#[test]
fn equip_slotless_item_fails_and_keeps_item() {
    let mut bp = Backpack::new();
    bp.add_item(item("Odd Trinket", 4, None));
    assert_eq!(bp.equip_item("Odd Trinket"), Err(EquipError::NoEquipSlot));
    assert_eq!(pool_names(&bp), vec!["Odd Trinket".to_string()]);
    assert!(bp.equipped_items.is_empty());
}

#[test]
fn add_item_overwrites_same_name() {
    let mut bp = Backpack::new();
    bp.add_item(item("Ancient Sword", 5, Some(Slot::Weapon)));
    bp.add_item(item("Ancient Sword", 9, Some(Slot::Weapon)));
    assert_eq!(bp.items.len(), 1);
    assert_eq!(bp.items[0].damage_boost, 9);
}

#[test]
fn total_damage_sums_exactly_the_equipped_set() {
    let mut bp = Backpack::new();
    assert_eq!(bp.calculate_total_damage(), 0);

    bp.add_item(item("Ancient Sword", 5, Some(Slot::Weapon)));
    bp.add_item(item("Cursed Ring", 3, Some(Slot::Ring)));
    bp.add_item(item("Strange Belt", 7, Some(Slot::Belt)));
    bp.equip_item("Ancient Sword").unwrap();
    bp.equip_item("Cursed Ring").unwrap();
    // The belt stays unequipped and must not count.
    assert_eq!(bp.calculate_total_damage(), 8);

    bp.unequip_item(&Slot::Ring);
    assert_eq!(bp.calculate_total_damage(), 5);
}

#[test]
fn remove_items_drains_pool_not_equipment() {
    let mut bp = Backpack::new();
    bp.add_item(item("Ancient Sword", 5, Some(Slot::Weapon)));
    bp.add_item(item("Cursed Ring", 3, Some(Slot::Ring)));
    bp.equip_item("Ancient Sword").unwrap();

    let drained = bp.remove_items();
    assert_eq!(drained.len(), 1);
    assert_eq!(drained[0].as_ref().unwrap().name, "Cursed Ring");
    assert!(bp.items.is_empty());
    assert_eq!(bp.equipped_items.len(), 1);
    assert_eq!(bp.equipped_items[0].name, "Ancient Sword");
}

#[test]
fn battle_boundary_case_is_unsuccessful() {
    // health 50, damage 10 versus health 30, damage 3:
    // attacker rounds = floor(30 / 10) = 3, total 30; defender rounds =
    // floor(50 / 3) = 16, total 48. 30 is not > 30 and 48 is not > 50, so
    // neither win condition holds.
    let mut a = entity("A", 50, 10);
    let mut d = entity("D", 30, 3);
    let rounds = get_max_rounds(&a, &d);
    assert_eq!(rounds.max_attacker_rounds, 3);
    assert_eq!(rounds.max_defender_rounds, 16);

    let outcome = attack(&mut a, &mut d);
    assert_eq!(outcome, BattleOutcome::Unsuccessful);
    // No state changed, and in particular no health was reduced.
    assert_eq!(a.health, 50);
    assert_eq!(d.health, 30);
    assert_eq!(a.xp_stored, 0);
    assert!(a.backpack.items.is_empty());
}

#[test]
fn zero_damage_guards_division() {
    let a = entity("A", 50, 0);
    let d = entity("D", 30, 7);
    let rounds = get_max_rounds(&a, &d);
    // The attacker's zero damage yields zero rounds instead of an error.
    assert_eq!(rounds.max_attacker_rounds, 0);
    assert_eq!(rounds.max_defender_rounds, 7);

    let mut a = a;
    let mut d = d;
    let outcome = attack(&mut a, &mut d);
    assert_eq!(outcome, BattleOutcome::Unsuccessful);
}

#[test]
fn loot_transfer_moves_pool_and_spares_equipment() {
    let mut winner = entity("W", 50, 10);
    winner.backpack.add_item(item("Strange Belt", 7, Some(Slot::Belt)));

    let mut loser = entity("L", 30, 3);
    loser.backpack.add_item(item("Ancient Sword", 5, Some(Slot::Weapon)));
    loser.backpack.add_item(item("Cursed Ring", 3, Some(Slot::Ring)));
    loser.backpack.add_item(item("Mystical Cloak", 6, Some(Slot::Cloak)));
    loser.backpack.equip_item("Mystical Cloak").unwrap();

    transfer_items(&mut winner, &mut loser);

    assert_eq!(
        pool_names(&winner.backpack),
        vec![
            "Ancient Sword".to_string(),
            "Cursed Ring".to_string(),
            "Strange Belt".to_string(),
        ]
    );
    assert!(loser.backpack.items.is_empty());
    assert_eq!(loser.backpack.equipped_items.len(), 1);
    assert_eq!(loser.backpack.equipped_items[0].name, "Mystical Cloak");
}

#[test]
fn loot_transfer_overwrites_on_name_collision() {
    let mut winner = entity("W", 50, 10);
    winner.backpack.add_item(item("Ancient Sword", 5, Some(Slot::Weapon)));

    let mut loser = entity("L", 30, 3);
    loser.backpack.add_item(item("Ancient Sword", 9, Some(Slot::Weapon)));

    transfer_items(&mut winner, &mut loser);

    assert_eq!(winner.backpack.items.len(), 1);
    assert_eq!(winner.backpack.items[0].name, "Ancient Sword");
    // The defender's item arrives later, so it replaces the attacker's.
    assert_eq!(winner.backpack.items[0].damage_boost, 9);
    assert!(loser.backpack.items.is_empty());
}

#[test]
fn clone_copies_stats_and_backpack() {
    let mut e = entity("E", 40, 4);
    e.backpack.add_item(item("Ancient Sword", 5, Some(Slot::Weapon)));
    e.equip_item("Ancient Sword").unwrap();
    e.backpack.add_item(item("Cursed Ring", 3, Some(Slot::Ring)));

    let c = e.clone();
    assert_eq!(c.name, e.name);
    assert_eq!(c.health, e.health);
    assert_eq!(c.damage, e.damage);
    assert_eq!(c.xp_threshold, e.xp_threshold);
    assert_eq!(pool_names(&c.backpack), pool_names(&e.backpack));
    assert_eq!(c.backpack.equipped_items.len(), 1);
    assert_eq!(c.backpack.equipped_items[0].name, "Ancient Sword");
}

#[test]
fn level_up_below_threshold_is_a_no_op() {
    let mut e = entity("E", 42, 7);
    e.xp_stored = 99;
    e.xp_threshold = 100;
    e.level_up();
    assert_eq!(e.level, 1);
    assert_eq!(e.health, 42);
    assert_eq!(e.damage, 7);
    assert_eq!(e.xp_drop, 10);
    assert_eq!(e.xp_stored, 99);
    assert_eq!(e.xp_threshold, 100);
    assert_eq!(e.level_up_multiplier_num, 101);
}

#[test]
fn level_up_consumes_xp_and_grows_stats() {
    let mut e = entity("E", 50, 7);
    e.xp_stored = 250;
    e.level_up();
    // Two levels gained: 250 / 100 = 2.
    assert_eq!(e.level, 3);
    // floor(50 * 11 / 10) + 2 = 57, and likewise for drop and damage.
    assert_eq!(e.health, 57);
    assert_eq!(e.xp_drop, 13);
    assert_eq!(e.damage, 9);
    assert_eq!(e.xp_stored, 50);
    // The growth factor numerator picks up no step below level 100, and the
    // threshold rises by ceil(100 * 101 / 100) = 101.
    assert_eq!(e.level_up_multiplier_num, 101);
    assert_eq!(e.xp_threshold, 101);
}

#[test]
fn level_up_multiplier_steps_at_level_hundred() {
    let mut e = entity("E", 50, 7);
    e.level = 99;
    e.xp_stored = 100;
    e.level_up();
    // One level gained lands exactly on level 100, so the threshold growth
    // factor doubles: 101 * (1 + 100 / 100) = 202, and the threshold rises
    // to ceil(100 * 202 / 100) = 202.
    assert_eq!(e.level, 100);
    assert_eq!(e.level_up_multiplier_num, 202);
    assert_eq!(e.xp_threshold, 202);
    assert_eq!(e.xp_stored, 0);
}

#[test]
fn recalculate_damage_syncs_with_equipment() {
    let mut e = entity("E", 40, 4);
    e.backpack.add_item(item("Ancient Sword", 5, Some(Slot::Weapon)));
    e.equip_item("Ancient Sword").unwrap();
    // Not synchronised until the explicit call.
    assert_eq!(e.damage, 4);
    e.recalculate_damage();
    assert_eq!(e.damage, 9);
    e.unequip_item(&Slot::Weapon);
    e.recalculate_damage();
    assert_eq!(e.damage, 4);
}

#[test]
fn add_xp_accumulates_without_leveling() {
    let mut e = entity("E", 40, 4);
    e.add_xp(60);
    e.add_xp(70);
    assert_eq!(e.xp_stored, 130);
    assert_eq!(e.level, 1);
}

#[test]
fn parse_slot_accepts_all_names_case_insensitively() {
    assert_eq!(parse_slot("weapon"), Ok(Slot::Weapon));
    assert_eq!(parse_slot(" WEAPON "), Ok(Slot::Weapon));
    assert_eq!(parse_slot("Helmet"), Ok(Slot::Helmet));
    assert_eq!(parse_slot("chestplate"), Ok(Slot::Chestplate));
    assert_eq!(parse_slot("gauntlets"), Ok(Slot::Gauntlets));
    assert_eq!(parse_slot("greaves"), Ok(Slot::Greaves));
    assert_eq!(parse_slot("boots"), Ok(Slot::Boots));
    assert_eq!(parse_slot("shield"), Ok(Slot::Shield));
    assert_eq!(parse_slot("pauldrons"), Ok(Slot::Pauldrons));
    assert_eq!(parse_slot("bracers"), Ok(Slot::Bracers));
    assert_eq!(parse_slot("cloak"), Ok(Slot::Cloak));
    assert_eq!(parse_slot("belt"), Ok(Slot::Belt));
    assert_eq!(parse_slot("amulet"), Ok(Slot::Amulet));
    assert_eq!(parse_slot("ring"), Ok(Slot::Ring));
    assert_eq!(parse_slot("potion"), Ok(Slot::Potion));
    assert_eq!(parse_slot("Scroll"), Ok(Slot::Potion));
    assert!(parse_slot("banana").is_err());
    assert!(parse_slot("").is_err());
    assert!(parse_slot("   ").is_err());
}

#[test]
fn parse_item_name_splits_two_words() {
    let (prefix, suffix) = parse_item_name("Ancient Sword");
    assert_eq!(prefix, "Ancient");
    assert_eq!(suffix, "Sword");

    let (prefix, suffix) = parse_item_name("  Divine   Staff  ");
    assert_eq!(prefix, "Divine");
    assert_eq!(suffix, "Staff");

    let (prefix, suffix) = parse_item_name("OneWord");
    assert_eq!(prefix, "");
    assert_eq!(suffix, "");

    let (prefix, suffix) = parse_item_name("One Two Three");
    assert_eq!(prefix, "");
    assert_eq!(suffix, "");
}

#[test]
fn determine_item_slot_follows_the_fixed_mapping() {
    assert_eq!(determine_item_slot("Sword"), Some(Slot::Weapon));
    assert_eq!(determine_item_slot("Staff"), Some(Slot::Weapon));
    assert_eq!(determine_item_slot("Potion"), Some(Slot::Potion));
    assert_eq!(determine_item_slot("Scroll"), Some(Slot::Potion));
    assert_eq!(determine_item_slot("Amulet"), Some(Slot::Amulet));
    assert_eq!(determine_item_slot("Ring"), Some(Slot::Ring));
    // An unmapped suffix yields no slot at all.
    assert_eq!(determine_item_slot("Banana"), None);
    assert_eq!(determine_item_slot("sword"), None);
}
