//! Joker and consumable slots.
use crate::cards::Edition;
use crate::effects::{ConsumableKind, JokerRarity};
use vstd::prelude::*;

verus! {

#[derive(Debug, Clone, Copy, PartialEq, Eq, Structural)]
pub struct JokerStickers {
    pub eternal: bool,
    pub perishable: bool,
    pub rental: bool,
}

pub open spec fn no_stickers() -> JokerStickers {
    JokerStickers { eternal: false, perishable: false, rental: false }
}

impl Default for JokerStickers {
    fn default() -> (s: Self)
        ensures
            s == no_stickers(),
    {
        JokerStickers { eternal: false, perishable: false, rental: false }
    }
}

/// A joker owned by the player. Its numeric script variables live with the scoring
/// engine, not here.
#[derive(Debug, Clone, PartialEq, Eq)]
pub struct JokerInstance {
    pub id: String,
    pub rarity: JokerRarity,
    pub edition: Option<Edition>,
    pub stickers: JokerStickers,
    pub buy_price: i64,
}

/// A consumable card owned by the player.
#[derive(Debug, Clone, PartialEq, Eq)]
pub struct ConsumableInstance {
    pub id: String,
    pub kind: ConsumableKind,
    pub edition: Option<Edition>,
}

#[derive(Debug, Clone, PartialEq, Eq)]
pub struct Inventory {
    pub joker_slots: usize,
    pub consumable_slots: usize,
    pub jokers: Vec<JokerInstance>,
    pub consumables: Vec<ConsumableInstance>,
}

#[derive(Debug, Clone, Copy, PartialEq, Eq, Structural)]
pub enum InventoryError {
    NoJokerSlots,
    NoConsumableSlots,
}

/// Number of negative jokers among `jokers[..n]`; each grants one extra joker slot.
pub open spec fn negative_jokers(jokers: Seq<JokerInstance>, n: int) -> nat
    decreases n,
{
    if n <= 0 {
        0
    } else {
        negative_jokers(jokers, n - 1) + if jokers[n - 1].edition == Some(Edition::Negative) {
            1nat
        } else {
            0nat
        }
    }
}

/// Number of consumables among `items[..n]` that take a slot (negative ones do not).
pub open spec fn slotted_consumables(items: Seq<ConsumableInstance>, n: int) -> nat
    decreases n,
{
    if n <= 0 {
        0
    } else {
        slotted_consumables(items, n - 1) + if items[n - 1].edition != Some(Edition::Negative) {
            1nat
        } else {
            0nat
        }
    }
}

impl Inventory {
    pub open spec fn spec_negative_bonus(&self) -> nat {
        negative_jokers(self.jokers@, self.jokers@.len() as int)
    }

    pub open spec fn spec_joker_capacity(&self) -> int {
        self.joker_slots + self.spec_negative_bonus()
    }

    pub open spec fn spec_consumable_count(&self) -> nat {
        slotted_consumables(self.consumables@, self.consumables@.len() as int)
    }

    /// Room for one more joker of the given edition (a negative joker brings its own slot;
    /// the count of slots saturates at the largest `usize`).
    pub open spec fn joker_fits(&self, edition: Option<Edition>) -> bool {
        let cap = self.spec_joker_capacity();
        let limit = if edition == Some(Edition::Negative) {
            if cap + 1 <= usize::MAX {
                cap + 1
            } else {
                usize::MAX as int
            }
        } else {
            cap
        };
        self.jokers@.len() < limit
    }

    /// Room for one more consumable of the given edition (negative ones need no slot).
    pub open spec fn consumable_fits(&self, edition: Option<Edition>) -> bool {
        edition == Some(Edition::Negative) || self.spec_consumable_count() < self.consumable_slots
    }

    /// Total joker slots: the base slots plus one per negative joker.
    pub fn joker_capacity(&self) -> (cap: usize)
        requires
            self.spec_joker_capacity() <= usize::MAX,
        ensures
            cap == self.spec_joker_capacity(),
    {
        self.joker_slots + self.negative_joker_bonus()
    }

    /// Extra joker slots granted by negative jokers.
    pub fn negative_joker_bonus(&self) -> (n: usize)
        ensures
            n == self.spec_negative_bonus(),
    {
        let mut n: usize = 0;
        let mut i: usize = 0;
        while i < self.jokers.len()
            invariant
                i <= self.jokers.len(),
                n == negative_jokers(self.jokers@, i as int),
                n <= i,
            decreases self.jokers.len() - i,
        {
            if self.jokers[i].edition == Some(Edition::Negative) {
                n = n + 1;
            }
            i = i + 1;
        }
        n
    }

    /// Five joker slots and two consumable slots, both empty.
    pub fn new() -> (inv: Self)
        ensures
            inv.joker_slots == 5,
            inv.consumable_slots == 2,
            inv.jokers@.len() == 0,
            inv.consumables@.len() == 0,
    {
        Self::with_slots(5, 2)
    }

    /// An empty inventory with the given slot counts.
    pub fn with_slots(joker_slots: usize, consumable_slots: usize) -> (inv: Self)
        ensures
            inv.joker_slots == joker_slots,
            inv.consumable_slots == consumable_slots,
            inv.jokers@.len() == 0,
            inv.consumables@.len() == 0,
    {
        Inventory { joker_slots, consumable_slots, jokers: Vec::new(), consumables: Vec::new() }
    }

    pub fn add_joker(&mut self, id: String, rarity: JokerRarity, buy_price: i64) -> (r: Result<
        (),
        InventoryError,
    >)
        requires
            old(self).spec_joker_capacity() <= usize::MAX,
        ensures
            old(self).joker_fits(None) ==> r is Ok && final(self).jokers@ == old(self).jokers@.push(
                JokerInstance { id, rarity, edition: None, stickers: no_stickers(), buy_price },
            ),
            !old(self).joker_fits(None) ==> r == Err::<(), InventoryError>(
                InventoryError::NoJokerSlots,
            ) && final(self).jokers@ == old(self).jokers@,
            final(self).joker_slots == old(self).joker_slots,
            final(self).consumable_slots == old(self).consumable_slots,
            final(self).consumables@ == old(self).consumables@,
    {
        self.add_joker_with_edition(id, rarity, buy_price, None)
    }

    /// Add a joker if a slot is free; a negative joker may use the slot it brings.
    pub fn add_joker_with_edition(
        &mut self,
        id: String,
        rarity: JokerRarity,
        buy_price: i64,
        edition: Option<Edition>,
    ) -> (r: Result<(), InventoryError>)
        requires
            old(self).spec_joker_capacity() <= usize::MAX,
        ensures
            old(self).joker_fits(edition) ==> r is Ok && final(self).jokers@ == old(
                self,
            ).jokers@.push(JokerInstance { id, rarity, edition, stickers: no_stickers(), buy_price }),
            !old(self).joker_fits(edition) ==> r == Err::<(), InventoryError>(
                InventoryError::NoJokerSlots,
            ) && final(self).jokers@ == old(self).jokers@,
            final(self).joker_slots == old(self).joker_slots,
            final(self).consumable_slots == old(self).consumable_slots,
            final(self).consumables@ == old(self).consumables@,
    {
        let mut capacity = self.joker_capacity();
        if edition == Some(Edition::Negative) {
            capacity = capacity.saturating_add(1);
        }
        proof {
            lemma_negative_jokers_bounded(self.jokers@, self.jokers@.len() as int);
        }
        if self.jokers.len() >= capacity {
            return Err(InventoryError::NoJokerSlots);
        }
        self.jokers.push(
            JokerInstance {
                id,
                rarity,
                edition,
                stickers: JokerStickers { eternal: false, perishable: false, rental: false },
                buy_price,
            },
        );
        Ok(())
    }

    pub fn add_consumable(&mut self, id: String, kind: ConsumableKind) -> (r: Result<
        (),
        InventoryError,
    >)
        ensures
            old(self).consumable_fits(None) ==> r is Ok && final(self).consumables@ == old(
                self,
            ).consumables@.push(ConsumableInstance { id, kind, edition: None }),
            !old(self).consumable_fits(None) ==> r == Err::<(), InventoryError>(
                InventoryError::NoConsumableSlots,
            ) && final(self).consumables@ == old(self).consumables@,
            final(self).joker_slots == old(self).joker_slots,
            final(self).consumable_slots == old(self).consumable_slots,
            final(self).jokers@ == old(self).jokers@,
    {
        self.add_consumable_with_edition(id, kind, None)
    }

    /// Add a consumable if a slot is free; negative consumables need no slot.
    pub fn add_consumable_with_edition(
        &mut self,
        id: String,
        kind: ConsumableKind,
        edition: Option<Edition>,
    ) -> (r: Result<(), InventoryError>)
        ensures
            old(self).consumable_fits(edition) ==> r is Ok && final(self).consumables@ == old(
                self,
            ).consumables@.push(ConsumableInstance { id, kind, edition }),
            !old(self).consumable_fits(edition) ==> r == Err::<(), InventoryError>(
                InventoryError::NoConsumableSlots,
            ) && final(self).consumables@ == old(self).consumables@,
            final(self).joker_slots == old(self).joker_slots,
            final(self).consumable_slots == old(self).consumable_slots,
            final(self).jokers@ == old(self).jokers@,
    {
        if edition != Some(Edition::Negative) && self.consumable_count() >= self.consumable_slots {
            return Err(InventoryError::NoConsumableSlots);
        }
        self.consumables.push(ConsumableInstance { id, kind, edition });
        Ok(())
    }

    /// Number of consumables that occupy a slot.
    pub fn consumable_count(&self) -> (n: usize)
        ensures
            n == self.spec_consumable_count(),
    {
        let mut n: usize = 0;
        let mut i: usize = 0;
        while i < self.consumables.len()
            invariant
                i <= self.consumables.len(),
                n == slotted_consumables(self.consumables@, i as int),
                n <= i,
            decreases self.consumables.len() - i,
        {
            if self.consumables[i].edition != Some(Edition::Negative) {
                n = n + 1;
            }
            i = i + 1;
        }
        n
    }
}

proof fn lemma_negative_jokers_bounded(jokers: Seq<JokerInstance>, n: int)
    requires
        0 <= n <= jokers.len(),
    ensures
        negative_jokers(jokers, n) <= n,
    decreases n,
{
    if n > 0 {
        lemma_negative_jokers_bounded(jokers, n - 1);
    }
}

proof fn lemma_negative_jokers_push(jokers: Seq<JokerInstance>, j: JokerInstance, n: int)
    requires
        0 <= n <= jokers.len(),
    ensures
        negative_jokers(jokers.push(j), n) == negative_jokers(jokers, n),
    decreases n,
{
    if n > 0 {
        lemma_negative_jokers_push(jokers, j, n - 1);
    }
}

/// Adding a joker never overfills the joker slots: if the jokers fit their slots before,
/// they still fit after a successful add, negative jokers included.
pub proof fn law_joker_add_keeps_capacity(inv: Inventory, added: JokerInstance)
    requires
        inv.jokers@.len() <= inv.spec_joker_capacity(),
        inv.joker_fits(added.edition),
    ensures
        inv.jokers@.push(added).len() <= inv.joker_slots + negative_jokers(
            inv.jokers@.push(added),
            inv.jokers@.len() + 1 as int,
        ),
{
    lemma_negative_jokers_push(inv.jokers@, added, inv.jokers@.len() as int);
}

/// A negative joker fits whenever a plain joker fits, and a negative consumable always fits.
pub proof fn law_negative_edition_never_blocked(inv: Inventory)
    requires
        inv.spec_joker_capacity() <= usize::MAX,
    ensures
        inv.joker_fits(None) ==> inv.joker_fits(Some(Edition::Negative)),
        inv.consumable_fits(Some(Edition::Negative)),
{
}

} // verus!
