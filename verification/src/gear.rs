use std::sync::Arc;
use vstd::prelude::*;

use crate::id::Id;
use crate::item_base::Durability;
use crate::keyed::distinct_ids;
use crate::keyed::held;
use crate::keyed::holds;
use crate::keyed::lemma_with;
use crate::keyed::lemma_without;
use crate::keyed::position;
use crate::keyed::with;
use crate::keyed::without;
use crate::keyed::Keyed;

verus! {

pub type EquipmentId = Id;

pub type SlotId = Id;

pub type RuneId = Id;

/// The number of pieces of equipment that a gear can wear.
pub const BASE_EQUIPMENT_SLOTS: usize = 4;

/// Why a gear or one of the collections around it refused an operation.
#[derive(Clone, Copy, Debug, PartialEq, Eq, Structural)]
pub enum GearError {
    EquipmentIsFull,
    BrokenEquipment,
    EquipmentIsLocked,
    EquipmentNotInInventory,
    NotEnoughRune,
}

/// The definition of a piece of equipment, shared by the slots that hold
/// one.
#[derive(Debug)]
pub struct Equipment {
    pub id: EquipmentId,
    pub name: String,
    pub is_consumable: bool,
}

/// One piece of equipment as it is owned: the shared definition, the
/// durability that is left, and a lock.
#[derive(Debug)]
pub struct EquipmentSlot {
    pub id: SlotId,
    pub equipment: Arc<Equipment>,
    pub durability: Durability,
    pub is_locked: bool,
}

impl Clone for EquipmentSlot {
    fn clone(&self) -> (r: Self)
        ensures
            r == *self,
    {
        EquipmentSlot {
            id: self.id.clone(),
            equipment: self.equipment.clone(),
            durability: self.durability,
            is_locked: self.is_locked,
        }
    }
}

impl Keyed for EquipmentSlot {
    open spec fn key(&self) -> Seq<char> {
        self.id@
    }

    fn key_text(&self) -> (r: &str) {
        self.id.as_str()
    }
}

impl EquipmentSlot {
    /// Sets the lock. Nothing else changes.
    pub fn lock(&mut self)
        ensures
            *final(self) == (EquipmentSlot { is_locked: true, ..*old(self) }),
    {
        self.is_locked = true;
    }

    /// Lifts the lock. Nothing else changes.
    pub fn unlock(&mut self)
        ensures
            *final(self) == (EquipmentSlot { is_locked: false, ..*old(self) }),
    {
        self.is_locked = false;
    }
}

/// What a gear is: the slot of the consumable, if one is worn, and the
/// pieces of equipment, in the order in which they were put on.
pub struct GearView {
    pub consumable: Option<EquipmentSlot>,
    pub equipments: Seq<EquipmentSlot>,
}

/// How many more pieces of equipment a gear can take.
pub open spec fn free_slots(gear: GearView) -> int {
    BASE_EQUIPMENT_SLOTS - gear.equipments.len()
}

/// What putting `slot` on gives: the gear afterwards, or the reason why it
/// is refused. A consumable always takes the place of the one before it.
/// Any other piece is refused where no slot is free, else where it is
/// broken, else where it is locked.
pub open spec fn equipped(gear: GearView, slot: EquipmentSlot) -> Result<GearView, GearError> {
    if slot.equipment.is_consumable {
        Ok(GearView { consumable: Some(slot), ..gear })
    } else if free_slots(gear) <= 0 {
        Err(GearError::EquipmentIsFull)
    } else if slot.durability == 0 {
        Err(GearError::BrokenEquipment)
    } else if slot.is_locked {
        Err(GearError::EquipmentIsLocked)
    } else {
        Ok(GearView { equipments: gear.equipments.push(slot), ..gear })
    }
}

/// A gear without a free slot refuses every piece of equipment that is not
/// a consumable with `EquipmentIsFull`, whether or not the piece is broken
/// or locked.
pub proof fn lemma_full_gear_refuses(gear: GearView, slot: EquipmentSlot)
    requires
        free_slots(gear) == 0,
        !slot.equipment.is_consumable,
    ensures
        equipped(gear, slot) == Err::<GearView, GearError>(GearError::EquipmentIsFull),
{
}

/// What is worn: at most one consumable, and a bounded number of pieces of
/// equipment.
#[derive(Debug)]
pub struct Gear {
    consumable: Option<EquipmentSlot>,
    equipments: Vec<EquipmentSlot>,
}

impl View for Gear {
    type V = GearView;

    closed spec fn view(&self) -> GearView {
        GearView { consumable: self.consumable, equipments: self.equipments@ }
    }
}

impl Gear {
    #[verifier::type_invariant]
    spec fn bounded(self) -> bool {
        self.equipments@.len() <= BASE_EQUIPMENT_SLOTS
    }

    /// What holds of every gear: it wears no more pieces of equipment than
    /// it has slots. Nothing has to be done for it; every operation says so
    /// of the gear it leaves.
    pub open spec fn wf(&self) -> bool {
        self@.equipments.len() <= BASE_EQUIPMENT_SLOTS
    }

    /// A gear with nothing on.
    pub fn new() -> (r: Self)
        ensures
            r.wf(),
            r@.consumable is None,
            r@.equipments == Seq::<EquipmentSlot>::empty(),
    {
        Gear { consumable: None, equipments: Vec::new() }
    }

    pub fn consumable(&self) -> (r: &Option<EquipmentSlot>)
        ensures
            *r == self@.consumable,
    {
        &self.consumable
    }

    pub fn equipments(&self) -> (r: &Vec<EquipmentSlot>)
        ensures
            r@ == self@.equipments,
            self.wf(),
    {
        proof {
            use_type_invariant(self);
        }
        &self.equipments
    }

    /// The number of slots that are free.
    pub fn size(&self) -> (r: usize)
        ensures
            self.wf(),
            r == free_slots(self@),
    {
        proof {
            use_type_invariant(self);
        }
        BASE_EQUIPMENT_SLOTS - self.equipments.len()
    }

    pub fn is_full(&self) -> (r: bool)
        ensures
            self.wf(),
            r == (free_slots(self@) == 0),
    {
        self.size() == 0
    }

    /// Puts `slot` on. Where it is refused, the gear does not change.
    pub fn equip(&mut self, slot: EquipmentSlot) -> (r: Result<(), GearError>)
        ensures
            final(self).wf(),
            match equipped(old(self)@, slot) {
                Ok(gear) => r is Ok && final(self)@ == gear,
                Err(e) => r == Err::<(), GearError>(e) && final(self)@ == old(self)@,
            },
    {
        proof {
            use_type_invariant(&*self);
        }
        if slot.equipment.is_consumable {
            self.consumable = Some(slot);
            Ok(())
        } else if self.is_full() {
            Err(GearError::EquipmentIsFull)
        } else if slot.durability == 0 {
            Err(GearError::BrokenEquipment)
        } else if slot.is_locked {
            Err(GearError::EquipmentIsLocked)
        } else {
            // Taken out while it changes, and put back when it is done.
            let mut equipments: Vec<EquipmentSlot> = Vec::new();
            std::mem::swap(&mut self.equipments, &mut equipments);
            equipments.push(slot);
            std::mem::swap(&mut self.equipments, &mut equipments);
            Ok(())
        }
    }
}

/// The pieces of equipment that are owned, each under the identifier of its
/// slot.
#[derive(Debug)]
pub struct EquipmentInventory {
    slots: Vec<EquipmentSlot>,
}

impl View for EquipmentInventory {
    type V = Seq<EquipmentSlot>;

    closed spec fn view(&self) -> Seq<EquipmentSlot> {
        self.slots@
    }
}

impl EquipmentInventory {
    #[verifier::type_invariant]
    spec fn distinct(self) -> bool {
        distinct_ids(self.slots@)
    }

    /// What holds of every such inventory: no two slots share an
    /// identifier.
    pub open spec fn wf(&self) -> bool {
        distinct_ids(self@)
    }

    pub fn new() -> (r: Self)
        ensures
            r.wf(),
            r@ == Seq::<EquipmentSlot>::empty(),
    {
        EquipmentInventory { slots: Vec::new() }
    }

    pub fn slots(&self) -> (r: &Vec<EquipmentSlot>)
        ensures
            r@ == self@,
            self.wf(),
    {
        proof {
            use_type_invariant(self);
        }
        &self.slots
    }

    /// Files `slot` under its identifier, in the place of the slot that had
    /// it if there was one.
    pub fn add(&mut self, slot: EquipmentSlot)
        ensures
            final(self).wf(),
            final(self)@ == with(old(self)@, slot),
    {
        proof {
            use_type_invariant(&*self);
            lemma_with(self@, slot);
        }
        // Taken out while it changes, and put back when it is done.
        let mut slots: Vec<EquipmentSlot> = Vec::new();
        std::mem::swap(&mut self.slots, &mut slots);
        match position(&slots, slot.id.as_str()) {
            None => {
                slots.push(slot);
            },
            Some(i) => {
                slots.set(i, slot);
            },
        }
        std::mem::swap(&mut self.slots, &mut slots);
    }

    /// Takes the slot `id` out. Fails, and changes nothing, where there is
    /// none.
    pub fn remove(&mut self, id: &SlotId) -> (r: Result<(), GearError>)
        ensures
            final(self).wf(),
            final(self)@ == without(old(self)@, id@),
            r is Ok <==> holds(old(self)@, id@),
            r is Err ==> r == Err::<(), GearError>(GearError::EquipmentNotInInventory),
    {
        proof {
            use_type_invariant(&*self);
            lemma_without(self@, id@);
        }
        // Taken out while it changes, and put back when it is done.
        let mut slots: Vec<EquipmentSlot> = Vec::new();
        std::mem::swap(&mut self.slots, &mut slots);
        let r = match position(&slots, id.as_str()) {
            None => Err(GearError::EquipmentNotInInventory),
            Some(i) => {
                slots.remove(i);
                Ok(())
            },
        };
        std::mem::swap(&mut self.slots, &mut slots);
        r
    }
}

/// A number of runes of one kind.
#[derive(Debug)]
pub struct RuneStack {
    pub rune: RuneId,
    pub quantity: u64,
}

impl Keyed for RuneStack {
    open spec fn key(&self) -> Seq<char> {
        self.rune@
    }

    fn key_text(&self) -> (r: &str) {
        self.rune.as_str()
    }
}

/// How many runes of the kind `rune` there are.
pub open spec fn quantity_of(stacks: Seq<RuneStack>, rune: Seq<char>) -> nat {
    if holds(stacks, rune) {
        held(stacks, rune).quantity as nat
    } else {
        0
    }
}

/// A quantity with one more: one more, up to `u64::MAX`.
pub open spec fn one_more(quantity: u64) -> u64 {
    if quantity < u64::MAX {
        (quantity + 1) as u64
    } else {
        u64::MAX
    }
}

/// The stack of the kind `rune` after one more rune: one more on the stack
/// that is there, or a new stack of one.
pub open spec fn stacked(stacks: Seq<RuneStack>, rune: RuneId) -> RuneStack {
    if holds(stacks, rune@) {
        RuneStack { quantity: one_more(held(stacks, rune@).quantity), ..held(stacks, rune@) }
    } else {
        RuneStack { rune, quantity: 1 }
    }
}

/// The stack of the kind `rune` after one rune less.
pub open spec fn unstacked(stacks: Seq<RuneStack>, rune: Seq<char>) -> RuneStack {
    RuneStack { quantity: (held(stacks, rune).quantity - 1) as u64, ..held(stacks, rune) }
}

/// The runes that are owned, counted by kind.
#[derive(Debug)]
pub struct RuneInventory {
    stacks: Vec<RuneStack>,
}

impl View for RuneInventory {
    type V = Seq<RuneStack>;

    closed spec fn view(&self) -> Seq<RuneStack> {
        self.stacks@
    }
}

impl RuneInventory {
    #[verifier::type_invariant]
    spec fn distinct(self) -> bool {
        distinct_ids(self.stacks@)
    }

    /// What holds of every such inventory: no two stacks are of the same
    /// kind.
    pub open spec fn wf(&self) -> bool {
        distinct_ids(self@)
    }

    pub fn new() -> (r: Self)
        ensures
            r.wf(),
            r@ == Seq::<RuneStack>::empty(),
    {
        RuneInventory { stacks: Vec::new() }
    }

    /// How many runes of the kind `rune` there are.
    pub fn quantity(&self, rune: &RuneId) -> (r: u64)
        ensures
            self.wf(),
            r == quantity_of(self@, rune@),
    {
        proof {
            use_type_invariant(self);
        }
        match position(&self.stacks, rune.as_str()) {
            None => 0,
            Some(i) => self.stacks[i].quantity,
        }
    }

    /// Adds one rune of the kind `rune`: one more on its stack, or a new
    /// stack of one where the kind is new. A stack of `u64::MAX` stays as
    /// it is.
    pub fn add(&mut self, rune: RuneId)
        ensures
            final(self).wf(),
            final(self)@ == with(old(self)@, stacked(old(self)@, rune)),
            quantity_of(final(self)@, rune@) == if quantity_of(old(self)@, rune@) < u64::MAX {
                quantity_of(old(self)@, rune@) + 1
            } else {
                quantity_of(old(self)@, rune@)
            },
            forall|other: Seq<char>|
                other != rune@ ==> #[trigger] quantity_of(final(self)@, other) == quantity_of(
                    old(self)@,
                    other,
                ),
    {
        proof {
            use_type_invariant(&*self);
            lemma_with(self@, stacked(self@, rune));
        }
        // Taken out while it changes, and put back when it is done.
        let mut stacks: Vec<RuneStack> = Vec::new();
        std::mem::swap(&mut self.stacks, &mut stacks);
        match position(&stacks, rune.as_str()) {
            None => {
                stacks.push(RuneStack { rune, quantity: 1 });
            },
            Some(i) => {
                if stacks[i].quantity < u64::MAX {
                    stacks[i].quantity += 1;
                }
                assert(stacks@ =~= with(old(self)@, stacked(old(self)@, rune)));
            },
        }
        std::mem::swap(&mut self.stacks, &mut stacks);
    }

    /// Uses up one rune of the kind `rune`. Fails, and changes nothing,
    /// where there is none.
    pub fn consume(&mut self, rune: &RuneId) -> (r: Result<(), GearError>)
        ensures
            final(self).wf(),
            r is Ok <==> quantity_of(old(self)@, rune@) > 0,
            r is Err ==> r == Err::<(), GearError>(GearError::NotEnoughRune) && final(self)@
                == old(self)@,
            r is Ok ==> final(self)@ == with(old(self)@, unstacked(old(self)@, rune@)),
            r is Ok ==> quantity_of(final(self)@, rune@) == quantity_of(old(self)@, rune@) - 1,
            forall|other: Seq<char>|
                other != rune@ ==> #[trigger] quantity_of(final(self)@, other) == quantity_of(
                    old(self)@,
                    other,
                ),
    {
        proof {
            use_type_invariant(&*self);
        }
        // Taken out while it changes, and put back when it is done.
        let mut stacks: Vec<RuneStack> = Vec::new();
        std::mem::swap(&mut self.stacks, &mut stacks);
        let r = match position(&stacks, rune.as_str()) {
            None => Err(GearError::NotEnoughRune),
            Some(i) => {
                if stacks[i].quantity == 0 {
                    Err(GearError::NotEnoughRune)
                } else {
                    proof {
                        lemma_with(old(self)@, unstacked(old(self)@, rune@));
                    }
                    stacks[i].quantity -= 1;
                    assert(stacks@ =~= with(old(self)@, unstacked(old(self)@, rune@)));
                    Ok(())
                }
            },
        };
        std::mem::swap(&mut self.stacks, &mut stacks);
        r
    }
}

} // verus!
