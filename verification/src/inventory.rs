use std::sync::Arc;
use vstd::prelude::*;

use crate::attribute::folded;
use crate::attribute::laws::lemma_folded_push;
use crate::attribute::Attribute;
use crate::attribute::Modifier;
use crate::id::Id;
use crate::item::Item;
use crate::item::ItemId;
use crate::item_base::Category;
use crate::keyed::distinct_ids;
use crate::keyed::held;
use crate::keyed::holds;
use crate::keyed::lemma_with;
use crate::keyed::lemma_without;
use crate::keyed::position;
use crate::keyed::with;
use crate::keyed::without;

pub mod error;
pub mod laws;
pub mod model;

pub use error::InventoryError;
pub use model::InventoryView;

use laws::lemma_count_of_push;
use laws::lemma_decayed_keeps_ids;
use laws::lemma_matching_push;
use laws::lemma_pruned;
use laws::lemma_pruned_push;
use laws::lemma_recharged_is_capped;
use laws::lemma_recharged_push;
use model::all_decayed;
use model::consumed;
use model::count_of;
use model::decayed;
use model::kept;
use model::limit_of;
use model::matching;
use model::pruned;
use model::recharged;
use model::requested;
use model::rune_applied;
use model::total_of;
use model::transferred;

verus! {

pub type InventoryId = Id;

/// How many items of each category an inventory may hold. `None` sets no
/// limit.
#[derive(Clone, Copy, Debug)]
pub struct InventoryLimits {
    pub consumable: Option<usize>,
    pub equipment: Option<usize>,
    pub rune: Option<usize>,
}

/// A collection of items, each under its own identifier, with a limit for
/// each category.
#[derive(Debug)]
pub struct Inventory {
    id: InventoryId,
    limits: Arc<InventoryLimits>,
    items: Vec<Item>,
}

impl View for Inventory {
    type V = InventoryView;

    closed spec fn view(&self) -> InventoryView {
        InventoryView { id: self.id, limits: *self.limits, items: self.items@ }
    }
}

impl Clone for Inventory {
    fn clone(&self) -> (r: Self)
        ensures
            r@ == self@,
            r.wf(),
    {
        proof {
            use_type_invariant(self);
        }
        let items = self.items.clone();
        assert(items@ =~= self.items@);
        Inventory { id: self.id.clone(), limits: self.limits.clone(), items }
    }
}

impl Inventory {
    #[verifier::type_invariant]
    spec fn distinct(self) -> bool {
        distinct_ids(self.items@)
    }

    /// What holds of every inventory: no two of its items share an
    /// identifier. Nothing has to be done for it; every operation says so
    /// of the inventory it leaves.
    pub open spec fn wf(&self) -> bool {
        distinct_ids(self@.items)
    }

    /// An empty inventory.
    pub fn new(id: InventoryId, limits: Arc<InventoryLimits>) -> (r: Self)
        ensures
            r.wf(),
            r@.id == id,
            r@.limits == *limits,
            r@.items == Seq::<Item>::empty(),
    {
        Inventory { id, limits, items: Vec::new() }
    }

    pub fn id(&self) -> (r: &InventoryId)
        ensures
            *r == self@.id,
    {
        &self.id
    }

    pub fn limits(&self) -> (r: &InventoryLimits)
        ensures
            *r == self@.limits,
    {
        &self.limits
    }

    /// The items held, in the order in which they are held.
    pub fn items(&self) -> (r: &Vec<Item>)
        ensures
            r@ == self@.items,
            self.wf(),
    {
        proof {
            use_type_invariant(self);
        }
        &self.items
    }

    pub fn has_item(&self, item_id: &ItemId) -> (r: bool)
        ensures
            self.wf(),
            r == holds(self@.items, item_id@),
    {
        proof {
            use_type_invariant(self);
        }
        position(&self.items, item_id.as_str()).is_some()
    }

    /// A copy of the item `item_id`, unless the inventory holds none or the
    /// item is locked.
    pub fn request_item(&self, item_id: &ItemId) -> (r: Result<Item, InventoryError>)
        ensures
            self.wf(),
            r == requested(self@, *item_id),
    {
        proof {
            use_type_invariant(self);
        }
        match position(&self.items, item_id.as_str()) {
            None => Err(InventoryError::ItemNotFound(item_id.clone(), self.id.clone())),
            Some(i) => {
                let item = &self.items[i];
                if item.is_locked {
                    Err(InventoryError::ItemIsLocked(item_id.clone()))
                } else {
                    Ok(item.clone())
                }
            },
        }
    }

    /// Takes the item `item_id` out, if it is there.
    pub fn remove(&mut self, item_id: &ItemId)
        ensures
            final(self).wf(),
            final(self)@.id == old(self)@.id,
            final(self)@.limits == old(self)@.limits,
            final(self)@.items == without(old(self)@.items, item_id@),
    {
        proof {
            use_type_invariant(&*self);
            lemma_without(self@.items, item_id@);
        }
        // Taken out while it changes, and put back when it is done.
        let mut items: Vec<Item> = Vec::new();
        std::mem::swap(&mut self.items, &mut items);
        match position(&items, item_id.as_str()) {
            None => {},
            Some(i) => {
                items.remove(i);
            },
        }
        std::mem::swap(&mut self.items, &mut items);
    }

    /// Puts `item` in, in the place of the item that has its identifier if
    /// there is one.
    pub fn update(&mut self, item: Item)
        ensures
            final(self).wf(),
            final(self)@.id == old(self)@.id,
            final(self)@.limits == old(self)@.limits,
            final(self)@.items == with(old(self)@.items, item),
    {
        proof {
            use_type_invariant(&*self);
            lemma_with(self@.items, item);
        }
        // Taken out while it changes, and put back when it is done.
        let mut items: Vec<Item> = Vec::new();
        std::mem::swap(&mut self.items, &mut items);
        match position(&items, item.id.as_str()) {
            None => {
                items.push(item);
            },
            Some(i) => {
                items.set(i, item);
            },
        }
        std::mem::swap(&mut self.items, &mut items);
    }
    /// The number of items of a category.
    pub fn count(&self, category: &Category) -> (r: usize)
        ensures
            r == count_of(self@.items, *category),
    {
        let mut n: usize = 0;
        let mut i: usize = 0;
        while i < self.items.len()
            invariant
                i <= self.items.len(),
                n <= i,
                n == count_of(self.items@.take(i as int), *category),
            decreases self.items.len() - i,
        {
            proof {
                assert(self.items@.take(i + 1) =~= self.items@.take(i as int).push(
                    self.items@[i as int],
                ));
                lemma_count_of_push(self.items@.take(i as int), self.items@[i as int], *category);
            }
            if self.items[i].base.category == *category {
                n += 1;
            }
            i += 1;
        }
        assert(self.items@.take(self.items.len() as int) =~= self.items@);
        n
    }

    /// Compares the number of items of a category with the limit of that
    /// category: true while the number is below the limit.
    pub fn is_full(&self, category: &Category) -> (r: bool)
        ensures
            r == (count_of(self@.items, *category) < limit_of(self@.limits, *category)),
    {
        let count: usize = self.count(category);
        let limit: Option<usize> = match category {
            Category::Consumable => self.limits.consumable,
            Category::Equipment => self.limits.equipment,
            Category::Rune => self.limits.rune,
        };
        let limit: usize = match limit {
            Some(n) => n,
            None => usize::MAX,
        };
        count < limit
    }

    /// Drops every consumable that is broken. Equipment and runes stay,
    /// whatever their durability.
    pub fn remove_broken_consumables(&mut self)
        ensures
            final(self).wf(),
            final(self)@.id == old(self)@.id,
            final(self)@.limits == old(self)@.limits,
            final(self)@.items == pruned(old(self)@.items),
    {
        proof {
            use_type_invariant(&*self);
        }
        let mut left: Vec<Item> = Vec::new();
        let mut i: usize = 0;
        assert(self.items@.take(0) =~= Seq::<Item>::empty());
        assert(pruned(Seq::<Item>::empty()) =~= Seq::<Item>::empty()) by {
            reveal(Seq::filter);
        }
        while i < self.items.len()
            invariant
                i <= self.items.len(),
                left@ == pruned(self.items@.take(i as int)),
            decreases self.items.len() - i,
        {
            proof {
                assert(self.items@.take(i + 1) =~= self.items@.take(i as int).push(
                    self.items@[i as int],
                ));
                lemma_pruned_push(self.items@.take(i as int), self.items@[i as int]);
            }
            let item = &self.items[i];
            let broken_consumable = match item.base.category {
                Category::Consumable => item.is_broken(),
                _ => false,
            };
            if !broken_consumable {
                left.push(item.clone());
            }
            i += 1;
        }
        proof {
            assert(self.items@.take(self.items.len() as int) =~= self.items@);
            lemma_pruned(self.items@);
        }
        self.items = left;
    }

    /// One use of the inventory. The consumables that are broken are
    /// dropped first; then every consumable and every piece of equipment
    /// that is left loses one durability, unless it has none. Runes do not
    /// wear.
    pub fn consume(&mut self) -> (r: Result<(), InventoryError>)
        ensures
            r is Ok,
            final(self).wf(),
            final(self)@.id == old(self)@.id,
            final(self)@.limits == old(self)@.limits,
            final(self)@.items == consumed(old(self)@.items),
    {
        self.remove_broken_consumables();
        // Taken out while it changes, and put back when it is done.
        let mut items: Vec<Item> = Vec::new();
        std::mem::swap(&mut self.items, &mut items);
        let ghost before = items@;
        let mut i: usize = 0;
        while i < items.len()
            invariant
                i <= items.len(),
                items@.len() == before.len(),
                forall|j: int| 0 <= j < i ==> #[trigger] items@[j] == decayed(before[j]),
                forall|j: int| i <= j < before.len() ==> #[trigger] items@[j] == before[j],
                forall|j: int| 0 <= j < before.len() ==> kept(#[trigger] before[j]),
            decreases items.len() - i,
        {
            let category = items[i].base.category;
            match category {
                Category::Consumable => {
                    items[i].durability -= 1;
                },
                Category::Equipment => {
                    if !items[i].is_broken() {
                        items[i].durability -= 1;
                    }
                },
                Category::Rune => {},
            }
            i += 1;
        }
        proof {
            assert(items@ =~= all_decayed(before));
            lemma_decayed_keeps_ids(before);
        }
        std::mem::swap(&mut self.items, &mut items);
        Ok(())
    }
    /// The sum of the attributes of kind `modifier` over the templates of
    /// all items held, or `None` where no template has such an attribute.
    pub fn modifier_total(&self, modifier: &Modifier) -> (r: Option<Attribute>)
        ensures
            r == total_of(self@.items, *modifier),
            r matches Some(total) ==> total.modifier == *modifier,
    {
        let mut total = Attribute::default();
        let mut found = false;
        let mut i: usize = 0;
        proof {
            assert(self.items@.take(0) =~= Seq::<Item>::empty());
            assert(matching(Seq::<Item>::empty(), *modifier) =~= Seq::<Attribute>::empty()) by {
                reveal(Seq::filter);
                reveal_with_fuel(Seq::flatten, 2);
            }
        }
        while i < self.items.len()
            invariant
                i <= self.items.len(),
                total == folded(matching(self.items@.take(i as int), *modifier)),
                found == (matching(self.items@.take(i as int), *modifier).len() > 0),
                found ==> total.modifier == *modifier,
            decreases self.items.len() - i,
        {
            let ghost before = matching(self.items@.take(i as int), *modifier);
            let ghost own = self.items@[i as int].base.attributes@;
            let attributes = &self.items[i].base.attributes;
            let mut j: usize = 0;
            proof {
                assert(own.take(0) =~= Seq::<Attribute>::empty());
                assert(Seq::<Attribute>::empty().filter(
                    |attribute: Attribute| attribute.modifier == *modifier,
                ) =~= Seq::<Attribute>::empty()) by {
                    reveal(Seq::filter);
                }
                assert(before + Seq::<Attribute>::empty() =~= before);
            }
            while j < attributes.len()
                invariant
                    j <= attributes.len(),
                    attributes@ == own,
                    total == folded(
                        before + own.take(j as int).filter(
                            |attribute: Attribute| attribute.modifier == *modifier,
                        ),
                    ),
                    found == ((before + own.take(j as int).filter(
                        |attribute: Attribute| attribute.modifier == *modifier,
                    )).len() > 0),
                    found ==> total.modifier == *modifier,
                decreases attributes.len() - j,
            {
                let attribute = attributes[j];
                let ghost seen = own.take(j as int).filter(
                    |attribute: Attribute| attribute.modifier == *modifier,
                );
                proof {
                    assert(own.take(j + 1) =~= own.take(j as int).push(attribute));
                    own.take(j as int).lemma_filter_push(
                        attribute,
                        |attribute: Attribute| attribute.modifier == *modifier,
                    );
                }
                if attribute.modifier == *modifier {
                    proof {
                        assert(before + seen.push(attribute) =~= (before + seen).push(attribute));
                        lemma_folded_push(before + seen, attribute);
                    }
                    total = total + attribute;
                    found = true;
                }
                j += 1;
            }
            proof {
                assert(own.take(own.len() as int) =~= own);
                assert(self.items@.take(i + 1) =~= self.items@.take(i as int).push(
                    self.items@[i as int],
                ));
                lemma_matching_push(self.items@.take(i as int), self.items@[i as int], *modifier);
            }
            i += 1;
        }
        assert(self.items@.take(self.items.len() as int) =~= self.items@);
        if found {
            Some(total)
        } else {
            None
        }
    }

    /// Moves the item `item_id` to `target`. The item must be there and
    /// unlocked, and the move is refused with `InventoryFull` while this
    /// inventory is below its limit for the item's category. Where the
    /// move is refused, neither inventory changes.
    pub fn transfer(&mut self, item_id: &ItemId, target: &mut Inventory) -> (r: Result<
        (),
        InventoryError,
    >)
        ensures
            final(self).wf(),
            final(target).wf(),
            final(self)@.id == old(self)@.id,
            final(self)@.limits == old(self)@.limits,
            final(target)@.id == old(target)@.id,
            final(target)@.limits == old(target)@.limits,
            match transferred(old(self)@, old(target)@, *item_id) {
                Ok((left, arrived)) => r is Ok && final(self)@.items == left && final(target)@.items
                    == arrived,
                Err(e) => r == Err::<(), InventoryError>(e) && final(self)@ == old(self)@
                    && final(target)@ == old(target)@,
            },
            r is Ok ==> !holds(final(self)@.items, item_id@) && holds(
                final(target)@.items,
                item_id@,
            ) && held(final(target)@.items, item_id@) == held(old(self)@.items, item_id@),
    {
        proof {
            use_type_invariant(&*target);
        }
        let item = match self.request_item(item_id) {
            Ok(item) => item,
            Err(e) => {
                return Err(e);
            },
        };
        if self.is_full(&item.base.category) {
            return Err(InventoryError::InventoryFull(target.id.clone()));
        }
        proof {
            lemma_without(self@.items, item_id@);
            lemma_with(target@.items, item);
        }
        self.remove(item_id);
        target.update(item);
        Ok(())
    }

    /// Applies the rune `rune_id` to the item `item_id`: each attribute of
    /// the rune that recharges adds its value to the item's durability, up
    /// to the base durability of the item's template, and the rune is used
    /// up. Both must be there and unlocked, the first a rune and the second
    /// a piece of equipment. Where the rune cannot be applied, the
    /// inventory does not change.
    pub fn apply_rune(&mut self, rune_id: &ItemId, item_id: &ItemId) -> (r: Result<
        (),
        InventoryError,
    >)
        ensures
            final(self).wf(),
            final(self)@.id == old(self)@.id,
            final(self)@.limits == old(self)@.limits,
            match rune_applied(old(self)@, *rune_id, *item_id) {
                Ok(items) => r is Ok && final(self)@.items == items,
                Err(e) => r == Err::<(), InventoryError>(e) && final(self)@ == old(self)@,
            },
            r is Ok ==> {
                let before = held(old(self)@.items, item_id@);
                let rune = held(old(self)@.items, rune_id@);
                let after = held(final(self)@.items, item_id@);
                &&& !holds(final(self)@.items, rune_id@)
                &&& holds(final(self)@.items, item_id@)
                &&& after == Item {
                    durability: recharged(
                        before.durability,
                        before.base.base_durability,
                        rune.base.attributes@,
                    ),
                    ..before
                }
                &&& (after.durability <= before.base.base_durability || after.durability
                    == before.durability)
            },
    {
        let rune = match self.request_item(rune_id) {
            Ok(rune) => rune,
            Err(e) => {
                return Err(e);
            },
        };
        let mut item = match self.request_item(item_id) {
            Ok(item) => item,
            Err(e) => {
                return Err(e);
            },
        };
        if rune.base.category != Category::Rune {
            return Err(InventoryError::InvalidRune);
        }
        if item.base.category != Category::Equipment {
            return Err(InventoryError::RuneNotApplicable);
        }
        let ghost before = item;
        let base: u32 = item.base.base_durability;
        let mut j: usize = 0;
        assert(rune.base.attributes@.take(0) =~= Seq::<Attribute>::empty());
        while j < rune.base.attributes.len()
            invariant
                j <= rune.base.attributes.len(),
                base == before.base.base_durability,
                item == (Item {
                    durability: recharged(
                        before.durability,
                        base,
                        rune.base.attributes@.take(j as int),
                    ),
                    ..before
                }),
            decreases rune.base.attributes.len() - j,
        {
            let attribute = rune.base.attributes[j];
            proof {
                assert(rune.base.attributes@.take(j + 1) =~= rune.base.attributes@.take(
                    j as int,
                ).push(attribute));
                lemma_recharged_push(
                    before.durability,
                    base,
                    rune.base.attributes@.take(j as int),
                    attribute,
                );
            }
            if attribute.modifier == Modifier::RechargeDurability {
                let sum: u32 = item.durability.saturating_add(attribute.value);
                item.durability = if sum < base {
                    sum
                } else {
                    base
                };
            }
            j += 1;
        }
        proof {
            assert(rune.base.attributes@.take(rune.base.attributes.len() as int)
                =~= rune.base.attributes@);
            lemma_recharged_is_capped(before.durability, base, rune.base.attributes@);
            lemma_without(self@.items, rune_id@);
            lemma_with(without(self@.items, rune_id@), item);
        }
        self.remove(rune_id);
        self.update(item);
        Ok(())
    }
}

} // verus!
