use dungeon_fighter::backpack::Backpack;
use dungeon_fighter::entity::Entity;
use dungeon_fighter::item::determine_item_slot;
use dungeon_fighter::item::item_name_from;
use dungeon_fighter::item::parse_item_name;
use dungeon_fighter::item::Item;
use dungeon_fighter::slot::Slot;

const PREFIXES: [&str; 10] = [
    "Ancient", "Mystical", "Legendary", "Powerful", "Cursed", "Divine", "Epic", "Strange",
    "Exquisite", "Enchanted",
];

const SUFFIXES: [&str; 17] = [
    "Sword", "Staff", "Ring", "Amulet", "Potion", "Scroll", "Helmet", "Chestplate", "Gauntlets",
    "Greaves", "Boots", "Shield", "Pauldrons", "Bracers", "Cloak", "Belt", "Amulet",
];

#[test]
fn item_names_come_from_the_tables() {
    assert_eq!(item_name_from(0, 0), "Ancient Sword");
    assert_eq!(item_name_from(9, 16), "Enchanted Amulet");
    assert_eq!(item_name_from(4, 2), "Cursed Ring");
}

#[test]
fn deterministic_item_rows_build_the_expected_item() {
    let it = Item::from_indices(0, 0, 0);
    assert_eq!(it.name, "Ancient Sword");
    assert_eq!(it.description, "A powerful artifact from ancient times.");
    assert_eq!(it.damage_boost, 5);
    assert_eq!(it.slot, Some(Slot::Weapon));

    let it = Item::from_indices(5, 5, 5);
    assert_eq!(it.name, "Divine Scroll");
    assert_eq!(it.description, "A divine relic imbued with extraordinary abilities.");
    assert_eq!(it.damage_boost, 12);
    assert_eq!(it.slot, Some(Slot::Potion));
}

#[test]
fn every_generated_item_is_slotted_and_named_from_the_tables() {
    for _ in 0..50 {
        let it = Item::new_random();
        let (prefix, suffix) = parse_item_name(&it.name);
        assert!(PREFIXES.contains(&prefix));
        assert!(SUFFIXES.contains(&suffix.as_str()));
        // The slot follows from the suffix, and every table suffix is in
        // the mapping, so a generated item is always equippable.
        assert_eq!(it.slot, determine_item_slot(&suffix));
        assert!(it.slot.is_some());
        assert!(it.damage_boost >= 0);
    }
}

#[test]
fn new_entities_roll_stats_in_the_documented_ranges() {
    for _ in 0..50 {
        let e = Entity::new("Teldrin".to_string());
        assert_eq!(e.name, "Teldrin");
        assert!((18..100).contains(&e.age));
        assert!((10..100).contains(&e.health));
        assert!((1..10).contains(&e.damage));
        assert_eq!(e.base_damage, e.damage);
        assert!((1..50).contains(&e.xp_drop));
        assert_eq!(e.level, 1);
        assert_eq!(e.xp_stored, 0);
        assert_eq!(e.xp_threshold, 100);
        assert_eq!(e.level_up_multiplier_num, 101);
        assert_eq!(e.multiplier_num, 11);
        assert!(e.backpack.items.is_empty());
        assert!(e.backpack.equipped_items.is_empty());
    }
}

#[test]
fn listing_sorts_by_slot_then_boost_with_slotless_first() {
    let mut bp = Backpack::new();
    bp.add_item(Item {
        name: "Strange Belt".to_string(),
        description: "test gear".to_string(),
        damage_boost: 7,
        slot: Some(Slot::Belt),
    });
    bp.add_item(Item {
        name: "Odd Trinket".to_string(),
        description: "test gear".to_string(),
        damage_boost: 9,
        slot: None,
    });
    bp.add_item(Item {
        name: "Ancient Sword".to_string(),
        description: "test gear".to_string(),
        damage_boost: 5,
        slot: Some(Slot::Weapon),
    });
    bp.add_item(Item {
        name: "Divine Staff".to_string(),
        description: "test gear".to_string(),
        damage_boost: 3,
        slot: Some(Slot::Weapon),
    });

    let (pool, equipped) = bp.list_items();
    let names: Vec<&str> = pool.iter().map(|i| i.name.as_str()).collect();
    assert_eq!(names, vec!["Odd Trinket", "Divine Staff", "Ancient Sword", "Strange Belt"]);
    assert!(equipped.is_empty());

    bp.equip_item("Ancient Sword").unwrap();
    bp.equip_item("Strange Belt").unwrap();
    let (_, equipped) = bp.list_items();
    let names: Vec<&str> = equipped.iter().map(|i| i.name.as_str()).collect();
    assert_eq!(names, vec!["Ancient Sword", "Strange Belt"]);
}

#[test]
fn generate_item_leaves_the_backpack_alone() {
    let bp = Backpack::new();
    let it = bp.generate_item();
    assert!(it.slot.is_some());
    assert!(bp.items.is_empty());
    assert!(bp.equipped_items.is_empty());
}
