use vstd::prelude::*;

use crate::attribute::folded;
use crate::attribute::Attribute;
use crate::attribute::Modifier;
use crate::inventory::InventoryError;
use crate::inventory::InventoryId;
use crate::inventory::InventoryLimits;
use crate::item::Item;
use crate::item::ItemId;
use crate::item_base::Category;
use crate::keyed::held;
use crate::keyed::holds;
use crate::keyed::with;
use crate::keyed::without;

verus! {

/// The limit that holds for a category; `usize::MAX` where none is set.
pub open spec fn limit_of(limits: InventoryLimits, category: Category) -> usize {
    let limit = match category {
        Category::Consumable => limits.consumable,
        Category::Equipment => limits.equipment,
        Category::Rune => limits.rune,
    };
    match limit {
        Some(n) => n,
        None => usize::MAX,
    }
}

/// What an inventory is: its identifier, its limits, and the items it
/// holds, in the order in which it holds them.
pub struct InventoryView {
    pub id: InventoryId,
    pub limits: InventoryLimits,
    pub items: Seq<Item>,
}

/// What asking for the item `id` gives: the item, unless there is none or
/// it is locked.
pub open spec fn requested(inventory: InventoryView, id: ItemId) -> Result<Item, InventoryError> {
    if !holds(inventory.items, id@) {
        Err(InventoryError::ItemNotFound(id, inventory.id))
    } else if held(inventory.items, id@).is_locked {
        Err(InventoryError::ItemIsLocked(id))
    } else {
        Ok(held(inventory.items, id@))
    }
}

/// The number of items of a category.
pub open spec fn count_of(items: Seq<Item>, category: Category) -> nat {
    items.filter(|item: Item| item.base.category == category).len()
}

/// Whether pruning keeps an item: every item but a broken consumable.
pub open spec fn kept(item: Item) -> bool {
    !(item.base.category == Category::Consumable && item.broken())
}

/// The items without the broken consumables.
pub open spec fn pruned(items: Seq<Item>) -> Seq<Item> {
    items.filter(|item: Item| kept(item))
}

/// A durability after one use: one less, and zero where none is left.
pub open spec fn worn(durability: u32) -> u32 {
    if durability >= 1 {
        (durability - 1) as u32
    } else {
        0
    }
}

/// An item after one use. Consumables and equipment lose one durability as
/// long as they have any; runes do not wear.
pub open spec fn decayed(item: Item) -> Item {
    match item.base.category {
        Category::Rune => item,
        _ => Item { durability: worn(item.durability), ..item },
    }
}

/// The items, each after one use.
pub open spec fn all_decayed(items: Seq<Item>) -> Seq<Item> {
    items.map_values(|item: Item| decayed(item))
}

/// The items after one use of the inventory: the broken consumables are
/// dropped first, then every item that is left wears.
pub open spec fn consumed(items: Seq<Item>) -> Seq<Item> {
    all_decayed(pruned(items))
}

/// The attributes of kind `modifier` that the templates of the items
/// carry, item by item.
pub open spec fn matching(items: Seq<Item>, modifier: Modifier) -> Seq<Attribute> {
    items.flat_map(|item: Item| item.base.attributes@).filter(
        |attribute: Attribute| attribute.modifier == modifier,
    )
}

/// The sum of the attributes of kind `modifier`, if there is any.
pub open spec fn total_of(items: Seq<Item>, modifier: Modifier) -> Option<Attribute> {
    if matching(items, modifier).len() == 0 {
        None
    } else {
        Some(folded(matching(items, modifier)))
    }
}

/// A durability after one attribute of a rune: an attribute that recharges
/// adds its value, up to the base durability; any other changes nothing.
pub open spec fn recharged_by(durability: u32, base: u32, attribute: Attribute) -> u32 {
    if attribute.modifier == Modifier::RechargeDurability {
        if durability + attribute.value < base {
            (durability + attribute.value) as u32
        } else {
            base
        }
    } else {
        durability
    }
}

/// A durability after the attributes of a rune, one after the other.
pub open spec fn recharged(durability: u32, base: u32, attributes: Seq<Attribute>) -> u32 {
    attributes.fold_left(
        durability,
        |d: u32, attribute: Attribute| recharged_by(d, base, attribute),
    )
}

/// What applying the rune `rune_id` to the item `item_id` gives: the items
/// without the rune and with the item recharged, or the reason why the
/// rune cannot be applied.
pub open spec fn rune_applied(inventory: InventoryView, rune_id: ItemId, item_id: ItemId) -> Result<
    Seq<Item>,
    InventoryError,
> {
    match requested(inventory, rune_id) {
        Err(e) => Err(e),
        Ok(rune) => match requested(inventory, item_id) {
            Err(e) => Err(e),
            Ok(item) => if rune.base.category != Category::Rune {
                Err(InventoryError::InvalidRune)
            } else if item.base.category != Category::Equipment {
                Err(InventoryError::RuneNotApplicable)
            } else {
                Ok(
                    with(
                        without(inventory.items, rune_id@),
                        Item {
                            durability: recharged(
                                item.durability,
                                item.base.base_durability,
                                rune.base.attributes@,
                            ),
                            ..item
                        },
                    ),
                )
            },
        },
    }
}

/// What moving the item `item_id` from `source` to `target` gives: the
/// items of both afterwards, or the reason why the item stays. The limit
/// that is looked at is that of `source`, and the move is refused while
/// `source` is below it.
pub open spec fn transferred(source: InventoryView, target: InventoryView, item_id: ItemId)
    -> Result<(Seq<Item>, Seq<Item>), InventoryError> {
    match requested(source, item_id) {
        Err(e) => Err(e),
        Ok(item) => if count_of(source.items, item.base.category) < limit_of(
            source.limits,
            item.base.category,
        ) {
            Err(InventoryError::InventoryFull(target.id))
        } else {
            Ok((without(source.items, item_id@), with(target.items, item)))
        },
    }
}

} // verus!
