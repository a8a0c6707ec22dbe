use std::sync::Arc;
use vstd::prelude::*;

use crate::id::new_uuid_as_str;
use crate::id::Id;
use crate::item_base::Durability;
use crate::item_base::ItemBase;
use crate::keyed::Keyed;

verus! {

pub type ItemId = Id;

/// One item: an instance of a template, with the durability it has left and
/// a lock.
#[derive(Debug)]
pub struct Item {
    pub id: ItemId,
    pub base: Arc<ItemBase>,
    pub durability: Durability,
    pub is_locked: bool,
}

impl Clone for Item {
    fn clone(&self) -> (r: Self)
        ensures
            r == *self,
    {
        Item {
            id: self.id.clone(),
            base: self.base.clone(),
            durability: self.durability,
            is_locked: self.is_locked,
        }
    }
}

impl Keyed for Item {
    open spec fn key(&self) -> Seq<char> {
        self.id@
    }

    fn key_text(&self) -> (r: &str) {
        self.id.as_str()
    }
}

impl Item {
    /// Starts an item of the given template: a fresh identifier, the
    /// template's base durability, unlocked.
    pub fn builder(base: &ItemBase) -> (r: ItemBuilder)
        ensures
            r@.id@.len() == 36,
            r@.fresh_from(*base),
    {
        ItemBuilder::new(base)
    }

    /// What an item of the template `base` is before anything is set on it
    /// or done to it: at the template's base durability, and unlocked.
    pub open spec fn fresh_from(&self, base: ItemBase) -> bool {
        &&& *self.base == base
        &&& self.durability == base.base_durability
        &&& !self.is_locked
    }

    /// An item is broken when no durability is left.
    pub open spec fn broken(&self) -> bool {
        self.durability < 1
    }

    pub fn is_broken(&self) -> (r: bool)
        ensures
            r == self.broken(),
    {
        self.durability < 1
    }
}

/// An item under construction. Its view is the item that `build` would
/// return.
pub struct ItemBuilder {
    item: Item,
}

impl View for ItemBuilder {
    type V = Item;

    closed spec fn view(&self) -> Item {
        self.item
    }
}

impl ItemBuilder {
    fn new(base: &ItemBase) -> (r: Self)
        ensures
            r@.id@.len() == 36,
            r@.fresh_from(*base),
    {
        let id = Id::from(new_uuid_as_str());
        ItemBuilder {
            item: Item {
                id,
                base: Arc::new(base.clone()),
                durability: base.base_durability,
                is_locked: false,
            },
        }
    }

    pub fn id(self, id: ItemId) -> (r: Self)
        ensures
            r@ == (Item { id, ..self@ }),
    {
        let mut item = self.item;
        item.id = id;
        ItemBuilder { item }
    }

    pub fn durability(self, durability: Durability) -> (r: Self)
        ensures
            r@ == (Item { durability, ..self@ }),
    {
        let mut item = self.item;
        item.durability = durability;
        ItemBuilder { item }
    }

    pub fn is_locked(self, is_locked: bool) -> (r: Self)
        ensures
            r@ == (Item { is_locked, ..self@ }),
    {
        let mut item = self.item;
        item.is_locked = is_locked;
        ItemBuilder { item }
    }

    pub fn build(self) -> (r: Item)
        ensures
            r == self@,
    {
        self.item
    }
}

/// An item built from a template, with nothing set in between, is not
/// broken as long as the template's base durability is positive.
pub proof fn lemma_fresh_item_is_not_broken(base: ItemBase, builder: ItemBuilder, item: Item)
    requires
        base.base_durability > 0,
        builder@.fresh_from(base),
        item == builder@,
    ensures
        !item.broken(),
{
}

} // verus!
