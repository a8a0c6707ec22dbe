use item_system::{
    Attribute, Category, Id, Inventory, InventoryError, InventoryLimits, Item, ItemBase, Modifier,
};
use std::sync::Arc;

fn no_limits() -> Arc<InventoryLimits> {
    Arc::new(InventoryLimits {
        consumable: None,
        equipment: None,
        rune: None,
    })
}

fn limits(consumable: usize, equipment: usize, rune: usize) -> Arc<InventoryLimits> {
    Arc::new(InventoryLimits {
        consumable: Some(consumable),
        equipment: Some(equipment),
        rune: Some(rune),
    })
}

fn template(category: Category, base_durability: u32, attributes: Vec<Attribute>) -> ItemBase {
    ItemBase::builder("template", category)
        .base_durability(base_durability)
        .attributes(attributes)
        .build()
}

fn item(id: &str, base: &ItemBase, durability: u32) -> Item {
    Item::builder(base)
        .id(Id::from(id))
        .durability(durability)
        .build()
}

fn attribute(modifier: Modifier, value: u32, decimals: u32) -> Attribute {
    Attribute {
        modifier,
        value,
        decimals,
    }
}

fn durability_of(inventory: &Inventory, id: &str) -> u32 {
    inventory.request_item(&Id::from(id)).unwrap().durability
}

#[test]
fn new_inventory_is_empty() {
    let inventory = Inventory::new(Id::from("bag"), limits(1, 2, 3));
    assert_eq!("bag", *inventory.id());
    assert_eq!(inventory.limits().consumable, Some(1));
    assert_eq!(inventory.limits().equipment, Some(2));
    assert_eq!(inventory.limits().rune, Some(3));
    assert!(inventory.items().is_empty());
    assert_eq!(inventory.has_item(&Id::from("x")), false);
    assert_eq!(inventory.count(&Category::Consumable), 0);
}

#[test]
fn request_item_fails_when_the_item_is_absent() {
    let inventory = Inventory::new(Id::from("bag"), no_limits());
    match inventory.request_item(&Id::from("sword")) {
        Err(InventoryError::ItemNotFound(item, bag)) => {
            assert_eq!("sword", item);
            assert_eq!("bag", bag);
        }
        _ => panic!("expected ItemNotFound"),
    }
}

#[test]
fn request_item_fails_when_the_item_is_locked() {
    let base = template(Category::Equipment, 10, vec![]);
    let mut inventory = Inventory::new(Id::from("bag"), no_limits());
    inventory.update(Item::builder(&base).id(Id::from("sword")).is_locked(true).build());
    assert_eq!(inventory.has_item(&Id::from("sword")), true);
    match inventory.request_item(&Id::from("sword")) {
        Err(InventoryError::ItemIsLocked(item)) => assert_eq!("sword", item),
        _ => panic!("expected ItemIsLocked"),
    }
}

#[test]
fn request_item_returns_a_copy() {
    let base = template(Category::Equipment, 10, vec![]);
    let mut inventory = Inventory::new(Id::from("bag"), no_limits());
    inventory.update(item("sword", &base, 7));
    let mut copy = inventory.request_item(&Id::from("sword")).unwrap();
    assert_eq!("sword", copy.id);
    assert_eq!(copy.durability, 7);
    copy.durability = 1;
    assert_eq!(durability_of(&inventory, "sword"), 7);
}

#[test]
fn update_replaces_the_item_of_the_same_id() {
    let base = template(Category::Equipment, 10, vec![]);
    let mut inventory = Inventory::new(Id::from("bag"), no_limits());
    inventory.update(item("a", &base, 1));
    inventory.update(item("b", &base, 2));
    inventory.update(item("a", &base, 3));
    assert_eq!(inventory.items().len(), 2);
    assert_eq!(durability_of(&inventory, "a"), 3);
    assert_eq!(durability_of(&inventory, "b"), 2);
    assert_eq!("a", inventory.items()[0].id);
    assert_eq!("b", inventory.items()[1].id);
}

#[test]
fn remove_takes_out_only_the_item_named() {
    let base = template(Category::Equipment, 10, vec![]);
    let mut inventory = Inventory::new(Id::from("bag"), no_limits());
    inventory.update(item("a", &base, 1));
    inventory.update(item("b", &base, 2));
    inventory.update(item("c", &base, 3));
    inventory.remove(&Id::from("b"));
    assert_eq!(inventory.has_item(&Id::from("b")), false);
    assert_eq!(inventory.items().len(), 2);
    assert_eq!("a", inventory.items()[0].id);
    assert_eq!("c", inventory.items()[1].id);
    inventory.remove(&Id::from("absent"));
    assert_eq!(inventory.items().len(), 2);
}

#[test]
fn count_counts_each_category() {
    let sword = template(Category::Equipment, 10, vec![]);
    let potion = template(Category::Consumable, 3, vec![]);
    let rune = template(Category::Rune, 1, vec![]);
    let mut inventory = Inventory::new(Id::from("bag"), no_limits());
    inventory.update(item("s1", &sword, 10));
    inventory.update(item("first potion", &potion, 3));
    inventory.update(item("second potion", &potion, 3));
    inventory.update(item("s2", &sword, 10));
    inventory.update(item("third potion", &potion, 0));
    assert_eq!(inventory.count(&Category::Equipment), 2);
    assert_eq!(inventory.count(&Category::Consumable), 3);
    assert_eq!(inventory.count(&Category::Rune), 0);
    inventory.update(item("r1", &rune, 1));
    assert_eq!(inventory.count(&Category::Rune), 1);
}

#[test]
fn is_full_is_true_while_the_count_is_below_the_limit() {
    let potion = template(Category::Consumable, 3, vec![]);
    let mut inventory = Inventory::new(Id::from("bag"), limits(2, 0, 1));
    assert_eq!(inventory.is_full(&Category::Consumable), true);
    assert_eq!(inventory.is_full(&Category::Equipment), false);
    assert_eq!(inventory.is_full(&Category::Rune), true);
    inventory.update(item("first potion", &potion, 3));
    assert_eq!(inventory.is_full(&Category::Consumable), true);
    inventory.update(item("second potion", &potion, 3));
    assert_eq!(inventory.is_full(&Category::Consumable), false);
    inventory.update(item("third potion", &potion, 3));
    assert_eq!(inventory.is_full(&Category::Consumable), false);
    let unlimited = Inventory::new(Id::from("chest"), no_limits());
    assert_eq!(unlimited.is_full(&Category::Consumable), true);
    assert_eq!(unlimited.is_full(&Category::Equipment), true);
    assert_eq!(unlimited.is_full(&Category::Rune), true);
}

#[test]
fn transfer_moves_the_item() {
    let sword = template(Category::Equipment, 10, vec![]);
    let mut source = Inventory::new(Id::from("bag"), limits(0, 1, 0));
    let mut target = Inventory::new(Id::from("chest"), no_limits());
    source.update(item("sword", &sword, 6));
    source.update(Item::builder(&template(Category::Rune, 1, vec![])).id(Id::from("rune")).build());
    source.transfer(&Id::from("sword"), &mut target).unwrap();
    assert_eq!(source.has_item(&Id::from("sword")), false);
    assert_eq!(source.has_item(&Id::from("rune")), true);
    assert_eq!(target.has_item(&Id::from("sword")), true);
    assert_eq!(durability_of(&target, "sword"), 6);
    assert_eq!(target.items().len(), 1);
    assert_eq!(source.items().len(), 1);
}

#[test]
fn transfer_refused_as_full_changes_nothing() {
    let sword = template(Category::Equipment, 10, vec![]);
    let mut source = Inventory::new(Id::from("bag"), limits(0, 2, 0));
    let mut target = Inventory::new(Id::from("chest"), no_limits());
    source.update(item("sword", &sword, 6));
    match source.transfer(&Id::from("sword"), &mut target) {
        Err(InventoryError::InventoryFull(id)) => assert_eq!("chest", id),
        _ => panic!("expected InventoryFull"),
    }
    assert_eq!(source.has_item(&Id::from("sword")), true);
    assert_eq!(durability_of(&source, "sword"), 6);
    assert_eq!(source.items().len(), 1);
    assert_eq!(target.has_item(&Id::from("sword")), false);
    assert!(target.items().is_empty());
}

#[test]
fn transfer_without_limits_is_refused_as_full() {
    let sword = template(Category::Equipment, 10, vec![]);
    let mut source = Inventory::new(Id::from("bag"), no_limits());
    let mut target = Inventory::new(Id::from("chest"), no_limits());
    source.update(item("sword", &sword, 6));
    let refused = source.transfer(&Id::from("sword"), &mut target);
    assert!(matches!(refused, Err(InventoryError::InventoryFull(_))));
    assert_eq!(source.has_item(&Id::from("sword")), true);
    assert_eq!(target.has_item(&Id::from("sword")), false);
}

#[test]
fn transfer_fails_for_an_absent_or_locked_item() {
    let sword = template(Category::Equipment, 10, vec![]);
    let mut source = Inventory::new(Id::from("bag"), limits(0, 0, 0));
    let mut target = Inventory::new(Id::from("chest"), no_limits());
    match source.transfer(&Id::from("sword"), &mut target) {
        Err(InventoryError::ItemNotFound(item, bag)) => {
            assert_eq!("sword", item);
            assert_eq!("bag", bag);
        }
        _ => panic!("expected ItemNotFound"),
    }
    source.update(Item::builder(&sword).id(Id::from("sword")).is_locked(true).build());
    match source.transfer(&Id::from("sword"), &mut target) {
        Err(InventoryError::ItemIsLocked(item)) => assert_eq!("sword", item),
        _ => panic!("expected ItemIsLocked"),
    }
    assert_eq!(source.has_item(&Id::from("sword")), true);
    assert!(target.items().is_empty());
}

#[test]
fn transfer_replaces_the_item_of_the_same_id_in_the_target() {
    let sword = template(Category::Equipment, 10, vec![]);
    let mut source = Inventory::new(Id::from("bag"), limits(0, 0, 0));
    let mut target = Inventory::new(Id::from("chest"), no_limits());
    source.update(item("sword", &sword, 6));
    target.update(item("sword", &sword, 2));
    source.transfer(&Id::from("sword"), &mut target).unwrap();
    assert_eq!(target.items().len(), 1);
    assert_eq!(durability_of(&target, "sword"), 6);
}

#[test]
fn apply_rune_caps_durability_at_the_base_durability() {
    let sword = template(Category::Equipment, 10, vec![]);
    let rune = template(
        Category::Rune,
        1,
        vec![attribute(Modifier::RechargeDurability, 50, 0)],
    );
    let mut inventory = Inventory::new(Id::from("bag"), no_limits());
    inventory.update(item("sword", &sword, 8));
    inventory.update(item("rune", &rune, 1));
    inventory
        .apply_rune(&Id::from("rune"), &Id::from("sword"))
        .unwrap();
    assert_eq!(durability_of(&inventory, "sword"), 10);
    assert_eq!(inventory.has_item(&Id::from("rune")), false);
    assert_eq!(inventory.items().len(), 1);
}

#[test]
fn apply_rune_adds_each_recharge_and_ignores_the_rest() {
    let sword = template(Category::Equipment, 100, vec![]);
    let rune = template(
        Category::Rune,
        1,
        vec![
            attribute(Modifier::RechargeDurability, 5, 0),
            attribute(Modifier::IncreaseTokenAmount, 1000, 0),
            attribute(Modifier::RechargeDurability, 7, 3),
            attribute(Modifier::Unknown, 9, 0),
        ],
    );
    let mut inventory = Inventory::new(Id::from("bag"), no_limits());
    inventory.update(item("sword", &sword, 20));
    inventory.update(item("rune", &rune, 1));
    inventory
        .apply_rune(&Id::from("rune"), &Id::from("sword"))
        .unwrap();
    assert_eq!(durability_of(&inventory, "sword"), 32);
}

#[test]
fn apply_rune_does_not_overflow() {
    let sword = template(Category::Equipment, u32::MAX, vec![]);
    let rune = template(
        Category::Rune,
        1,
        vec![attribute(Modifier::RechargeDurability, u32::MAX, 0)],
    );
    let mut inventory = Inventory::new(Id::from("bag"), no_limits());
    inventory.update(item("sword", &sword, 8));
    inventory.update(item("rune", &rune, 1));
    inventory
        .apply_rune(&Id::from("rune"), &Id::from("sword"))
        .unwrap();
    assert_eq!(durability_of(&inventory, "sword"), u32::MAX);
}

#[test]
fn apply_rune_without_recharge_only_uses_up_the_rune() {
    let sword = template(Category::Equipment, 10, vec![]);
    let rune = template(
        Category::Rune,
        1,
        vec![attribute(Modifier::IncreaseItemDropRate, 50, 0)],
    );
    let mut inventory = Inventory::new(Id::from("bag"), no_limits());
    inventory.update(item("sword", &sword, 8));
    inventory.update(item("rune", &rune, 1));
    inventory
        .apply_rune(&Id::from("rune"), &Id::from("sword"))
        .unwrap();
    assert_eq!(durability_of(&inventory, "sword"), 8);
    assert_eq!(inventory.has_item(&Id::from("rune")), false);
}

#[test]
fn apply_rune_fails_with_invalid_rune() {
    let sword = template(Category::Equipment, 10, vec![]);
    let potion = template(
        Category::Consumable,
        1,
        vec![attribute(Modifier::RechargeDurability, 50, 0)],
    );
    let mut inventory = Inventory::new(Id::from("bag"), no_limits());
    inventory.update(item("sword", &sword, 8));
    inventory.update(item("potion", &potion, 1));
    let refused = inventory.apply_rune(&Id::from("potion"), &Id::from("sword"));
    assert!(matches!(refused, Err(InventoryError::InvalidRune)));
    assert_eq!(durability_of(&inventory, "sword"), 8);
    assert_eq!(inventory.has_item(&Id::from("potion")), true);
}

#[test]
fn apply_rune_fails_with_rune_not_applicable() {
    let potion = template(Category::Consumable, 10, vec![]);
    let rune = template(
        Category::Rune,
        1,
        vec![attribute(Modifier::RechargeDurability, 50, 0)],
    );
    let mut inventory = Inventory::new(Id::from("bag"), no_limits());
    inventory.update(item("potion", &potion, 8));
    inventory.update(item("rune", &rune, 1));
    let refused = inventory.apply_rune(&Id::from("rune"), &Id::from("potion"));
    assert!(matches!(refused, Err(InventoryError::RuneNotApplicable)));
    assert_eq!(durability_of(&inventory, "potion"), 8);
    assert_eq!(inventory.has_item(&Id::from("rune")), true);
    let refused = inventory.apply_rune(&Id::from("rune"), &Id::from("rune"));
    assert!(matches!(refused, Err(InventoryError::RuneNotApplicable)));
    assert_eq!(inventory.has_item(&Id::from("rune")), true);
}

#[test]
fn apply_rune_fails_for_absent_or_locked_items() {
    let sword = template(Category::Equipment, 10, vec![]);
    let rune = template(
        Category::Rune,
        1,
        vec![attribute(Modifier::RechargeDurability, 50, 0)],
    );
    let mut inventory = Inventory::new(Id::from("bag"), no_limits());
    inventory.update(item("sword", &sword, 8));
    match inventory.apply_rune(&Id::from("rune"), &Id::from("sword")) {
        Err(InventoryError::ItemNotFound(item, bag)) => {
            assert_eq!("rune", item);
            assert_eq!("bag", bag);
        }
        _ => panic!("expected ItemNotFound"),
    }
    inventory.update(item("rune", &rune, 1));
    match inventory.apply_rune(&Id::from("rune"), &Id::from("shield")) {
        Err(InventoryError::ItemNotFound(item, _)) => assert_eq!("shield", item),
        _ => panic!("expected ItemNotFound"),
    }
    inventory.update(Item::builder(&sword).id(Id::from("sword")).durability(8).is_locked(true).build());
    match inventory.apply_rune(&Id::from("rune"), &Id::from("sword")) {
        Err(InventoryError::ItemIsLocked(item)) => assert_eq!("sword", item),
        _ => panic!("expected ItemIsLocked"),
    }
    assert_eq!(inventory.has_item(&Id::from("rune")), true);
    assert_eq!(inventory.items().len(), 2);
}

#[test]
fn remove_broken_consumables_keeps_equipment_and_runes() {
    let sword = template(Category::Equipment, 10, vec![]);
    let potion = template(Category::Consumable, 3, vec![]);
    let rune = template(Category::Rune, 1, vec![]);
    let mut inventory = Inventory::new(Id::from("bag"), no_limits());
    inventory.update(item("sword", &sword, 0));
    inventory.update(item("empty", &potion, 0));
    inventory.update(item("rune", &rune, 0));
    inventory.update(item("full", &potion, 1));
    inventory.remove_broken_consumables();
    assert_eq!(inventory.has_item(&Id::from("sword")), true);
    assert_eq!(inventory.has_item(&Id::from("empty")), false);
    assert_eq!(inventory.has_item(&Id::from("rune")), true);
    assert_eq!(inventory.has_item(&Id::from("full")), true);
    assert_eq!(inventory.items().len(), 3);
    assert_eq!(durability_of(&inventory, "full"), 1);
}

#[test]
fn consume_prunes_before_it_wears() {
    let potion = template(Category::Consumable, 3, vec![]);
    let mut inventory = Inventory::new(Id::from("bag"), no_limits());
    inventory.update(item("last", &potion, 1));
    inventory.update(item("gone", &potion, 0));
    inventory.consume().unwrap();
    assert_eq!(inventory.has_item(&Id::from("gone")), false);
    assert_eq!(inventory.has_item(&Id::from("last")), true);
    assert_eq!(durability_of(&inventory, "last"), 0);
    inventory.consume().unwrap();
    assert_eq!(inventory.has_item(&Id::from("last")), false);
    assert!(inventory.items().is_empty());
    inventory.consume().unwrap();
    assert!(inventory.items().is_empty());
}

#[test]
fn consume_wears_each_category_in_its_way() {
    let sword = template(Category::Equipment, 10, vec![]);
    let potion = template(Category::Consumable, 3, vec![]);
    let rune = template(Category::Rune, 1, vec![]);
    let mut inventory = Inventory::new(Id::from("bag"), no_limits());
    inventory.update(item("sword", &sword, 5));
    inventory.update(item("broken", &sword, 0));
    inventory.update(item("potion", &potion, 3));
    inventory.update(item("rune", &rune, 4));
    inventory.update(Item::builder(&sword).id(Id::from("locked")).durability(2).is_locked(true).build());
    inventory.consume().unwrap();
    assert_eq!(durability_of(&inventory, "sword"), 4);
    assert_eq!(durability_of(&inventory, "broken"), 0);
    assert_eq!(durability_of(&inventory, "potion"), 2);
    assert_eq!(durability_of(&inventory, "rune"), 4);
    assert_eq!(inventory.items()[4].durability, 1);
    assert_eq!(inventory.items().len(), 5);
}

#[test]
fn modifier_total_is_none_without_a_matching_attribute() {
    let sword = template(
        Category::Equipment,
        10,
        vec![attribute(Modifier::IncreaseTokenAmount, 10, 0)],
    );
    let mut inventory = Inventory::new(Id::from("bag"), no_limits());
    assert_eq!(inventory.modifier_total(&Modifier::IncreaseTokenAmount), None);
    inventory.update(item("sword", &sword, 10));
    assert_eq!(inventory.modifier_total(&Modifier::IncreaseItemDropRate), None);
    assert_eq!(inventory.modifier_total(&Modifier::Unknown), None);
}

#[test]
fn modifier_total_adds_at_the_finest_precision() {
    let ring = template(
        Category::Equipment,
        10,
        vec![
            attribute(Modifier::IncreaseTokenAmount, 10, 0),
            attribute(Modifier::IncreaseItemDropRate, 3, 0),
        ],
    );
    let charm = template(
        Category::Equipment,
        10,
        vec![
            attribute(Modifier::IncreaseTokenAmount, 15, 1),
            attribute(Modifier::IncreaseTokenAmount, 25, 2),
        ],
    );
    let mut inventory = Inventory::new(Id::from("bag"), no_limits());
    inventory.update(item("ring", &ring, 10));
    inventory.update(item("charm", &charm, 10));
    assert_eq!(
        inventory.modifier_total(&Modifier::IncreaseTokenAmount),
        Some(attribute(Modifier::IncreaseTokenAmount, 1175, 2))
    );
    assert_eq!(
        inventory.modifier_total(&Modifier::IncreaseItemDropRate),
        Some(attribute(Modifier::IncreaseItemDropRate, 3, 0))
    );
    inventory.update(item("second ring", &ring, 0));
    assert_eq!(
        inventory.modifier_total(&Modifier::IncreaseTokenAmount),
        Some(attribute(Modifier::IncreaseTokenAmount, 2175, 2))
    );
}

#[test]
fn modifier_total_of_a_zero_attribute_is_some() {
    let ring = template(
        Category::Equipment,
        10,
        vec![attribute(Modifier::UnlockExpertMission, 0, 0)],
    );
    let mut inventory = Inventory::new(Id::from("bag"), no_limits());
    inventory.update(item("ring", &ring, 10));
    assert_eq!(
        inventory.modifier_total(&Modifier::UnlockExpertMission),
        Some(attribute(Modifier::UnlockExpertMission, 0, 0))
    );
}

#[test]
fn inventory_errors_have_their_messages() {
    assert_eq!(
        InventoryError::ItemNotFound(Id::from("sword"), Id::from("bag")).to_string(),
        "Item with id sword not found in inventory bag"
    );
    assert_eq!(
        InventoryError::ItemIsLocked(Id::from("sword")).to_string(),
        "Item with id sword is currently locked"
    );
    assert_eq!(
        InventoryError::InvalidRune.to_string(),
        "Try to apply a non-rune item"
    );
    assert_eq!(
        InventoryError::RuneNotApplicable.to_string(),
        "Rune not applicable on this item"
    );
    assert_eq!(
        InventoryError::InventoryFull(Id::from("chest")).to_string(),
        "Target inventory chest is full"
    );
    let error = InventoryError::ItemIsLocked(Id::from("sword"));
    assert_eq!(error.clone().to_string(), error.to_string());
}

#[test]
fn totals_and_counts_do_not_depend_on_the_order_of_the_items() {
    let ring = template(
        Category::Equipment,
        10,
        vec![
            attribute(Modifier::IncreaseTokenAmount, 10, 0),
            attribute(Modifier::IncreaseTokenAmount, 5, 3),
        ],
    );
    let charm = template(
        Category::Consumable,
        10,
        vec![attribute(Modifier::IncreaseTokenAmount, 15, 1)],
    );
    let mut forth = Inventory::new(Id::from("forth"), no_limits());
    forth.update(item("ring", &ring, 10));
    forth.update(item("charm", &charm, 10));
    let mut back = Inventory::new(Id::from("back"), no_limits());
    back.update(item("charm", &charm, 10));
    back.update(item("ring", &ring, 10));
    assert_eq!(
        forth.modifier_total(&Modifier::IncreaseTokenAmount),
        Some(attribute(Modifier::IncreaseTokenAmount, 11_505, 3))
    );
    assert_eq!(
        forth.modifier_total(&Modifier::IncreaseTokenAmount),
        back.modifier_total(&Modifier::IncreaseTokenAmount)
    );
    assert_eq!(
        forth.count(&Category::Equipment),
        back.count(&Category::Equipment)
    );
    assert_eq!(
        forth.count(&Category::Consumable),
        back.count(&Category::Consumable)
    );
}

#[test]
fn modifier_total_stays_at_the_maximum() {
    let ring = template(
        Category::Equipment,
        10,
        vec![
            attribute(Modifier::IncreaseTokenAmount, u32::MAX, 0),
            attribute(Modifier::IncreaseTokenAmount, 1, 2),
        ],
    );
    let mut inventory = Inventory::new(Id::from("bag"), no_limits());
    inventory.update(item("ring", &ring, 10));
    assert_eq!(
        inventory.modifier_total(&Modifier::IncreaseTokenAmount),
        Some(attribute(Modifier::IncreaseTokenAmount, u32::MAX, 2))
    );
}

#[test]
fn a_copy_of_an_inventory_is_its_own() {
    let sword = template(Category::Equipment, 10, vec![]);
    let mut inventory = Inventory::new(Id::from("bag"), limits(1, 2, 3));
    inventory.update(item("sword", &sword, 5));
    let mut copy = inventory.clone();
    copy.remove(&Id::from("sword"));
    assert_eq!(copy.has_item(&Id::from("sword")), false);
    assert_eq!(inventory.has_item(&Id::from("sword")), true);
    assert_eq!(copy.id(), inventory.id());
    assert_eq!(copy.limits().rune, Some(3));
}
