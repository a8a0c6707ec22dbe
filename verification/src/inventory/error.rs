use vstd::prelude::*;
use vstd::string::StringExecFns;

use crate::inventory::InventoryId;
use crate::item::ItemId;

verus! {

broadcast use vstd::string::group_string_axioms;

/// Why an inventory refused an operation.
#[derive(Debug)]
pub enum InventoryError {
    /// The inventory, named second, holds no item of the identifier named
    /// first.
    ItemNotFound(ItemId, InventoryId),
    ItemIsLocked(ItemId),
    InvalidRune,
    RuneNotApplicable,
    /// The inventory that was to receive the item.
    InventoryFull(InventoryId),
}

impl Clone for InventoryError {
    fn clone(&self) -> (r: Self)
        ensures
            r == *self,
    {
        match self {
            InventoryError::ItemNotFound(item, inventory) => InventoryError::ItemNotFound(
                item.clone(),
                inventory.clone(),
            ),
            InventoryError::ItemIsLocked(item) => InventoryError::ItemIsLocked(item.clone()),
            InventoryError::InvalidRune => InventoryError::InvalidRune,
            InventoryError::RuneNotApplicable => InventoryError::RuneNotApplicable,
            InventoryError::InventoryFull(inventory) => InventoryError::InventoryFull(
                inventory.clone(),
            ),
        }
    }
}

impl InventoryError {
    /// The text of the error.
    pub open spec fn message(&self) -> Seq<char> {
        match self {
            InventoryError::ItemNotFound(item, inventory) => "Item with id "@ + item@
                + " not found in inventory "@ + inventory@,
            InventoryError::ItemIsLocked(item) => "Item with id "@ + item@
                + " is currently locked"@,
            InventoryError::InvalidRune => "Try to apply a non-rune item"@,
            InventoryError::RuneNotApplicable => "Rune not applicable on this item"@,
            InventoryError::InventoryFull(inventory) => "Target inventory "@ + inventory@
                + " is full"@,
        }
    }

    pub fn to_string(&self) -> (s: String)
        ensures
            s@ == self.message(),
    {
        match self {
            InventoryError::ItemNotFound(item, inventory) => "Item with id ".to_string().concat(
                item.as_str(),
            ).concat(" not found in inventory ").concat(inventory.as_str()),
            InventoryError::ItemIsLocked(item) => "Item with id ".to_string().concat(
                item.as_str(),
            ).concat(" is currently locked"),
            InventoryError::InvalidRune => "Try to apply a non-rune item".to_string(),
            InventoryError::RuneNotApplicable => "Rune not applicable on this item".to_string(),
            InventoryError::InventoryFull(inventory) => "Target inventory ".to_string().concat(
                inventory.as_str(),
            ).concat(" is full"),
        }
    }
}

} // verus!
