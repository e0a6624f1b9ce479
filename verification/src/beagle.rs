use vstd::prelude::*;

verus! {

/// The sex of a dog record.
#[derive(Debug)]
pub enum Sex {
    Male,
    Female,
}

/// One dog's record: a name, an age, a sex, the current hunger level and the
/// maximum hunger capacity. Feeding never pushes the hunger level past the
/// maximum.
#[derive(Debug)]
pub struct Beagle {
    pub name: String,
    pub age: u8,
    pub sex: Sex,
    pub hunger_points: u8,
    pub max_hunger_points: u8,
}

/// The hunger level after feeding `amount`: the old level plus `amount`,
/// saturating at the record's maximum capacity.
pub open spec fn fed_hunger(b: Beagle, amount: u8) -> int {
    vstd::math::min(b.hunger_points + amount, b.max_hunger_points as int)
}

/// Relates a record before a feeding to the record after it: the hunger level
/// follows the saturating rule, and every other field is unchanged.
pub open spec fn is_fed(pre: Beagle, post: Beagle, amount: u8) -> bool {
    &&& post.name@ == pre.name@
    &&& post.age == pre.age
    &&& post.sex == pre.sex
    &&& post.max_hunger_points == pre.max_hunger_points
    &&& post.hunger_points == fed_hunger(pre, amount)
}

impl Beagle {
    /// Increase the hunger level by `amount`, saturating at the maximum
    /// capacity: the excess is silently discarded. The sum is formed in a
    /// widened type, so the addition cannot overflow before the cap is
    /// applied.
    pub fn feed(&mut self, amount: u8)
        ensures
            is_fed(*old(self), *final(self), amount),
            final(self).hunger_points <= final(self).max_hunger_points,
    {
        let sum: u16 = self.hunger_points as u16 + amount as u16;
        if sum <= self.max_hunger_points as u16 {
            self.hunger_points = self.hunger_points + amount;
        } else {
            self.hunger_points = self.max_hunger_points;
        }
    }
}

} // verus!
