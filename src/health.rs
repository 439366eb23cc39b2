use vstd::prelude::*;

verus! {

/// Hit points of the player: the current value and the cap that healing stops at.
///
/// The current value may exceed the cap; the next heal brings it down to the cap.
#[derive(Debug, Clone, Copy, PartialEq, Eq, Structural)]
pub struct PlayerHealth {
    pub current_health: u8,
    pub max_health: u8,
}

/// The current health after healing by `amount`: the sum, or the cap where the sum passes it.
pub open spec fn healed(current: int, max: int, amount: int) -> int {
    if current + amount <= max {
        current + amount
    } else {
        max
    }
}

/// The current health after taking `amount` of damage: never below zero.
pub open spec fn damaged(current: int, amount: int) -> int {
    if amount < current {
        current - amount
    } else {
        0
    }
}

impl Default for PlayerHealth {
    /// Three hearts, all of them full.
    fn default() -> (r: Self)
        ensures
            r.current_health == 3,
            r.max_health == 3,
    {
        PlayerHealth { current_health: 3, max_health: 3 }
    }
}

impl PlayerHealth {
    /// Full health with the given cap.
    pub fn new(max_health: u8) -> (r: Self)
        ensures
            r.current_health == max_health,
            r.max_health == max_health,
    {
        PlayerHealth { current_health: max_health, max_health }
    }

    /// Heals by `amount`, stopping at the cap.
    pub fn increase_health(&mut self, amount: u8)
        ensures
            final(self).max_health == old(self).max_health,
            final(self).current_health == healed(
                old(self).current_health as int,
                old(self).max_health as int,
                amount as int,
            ),
    {
        let new_health: u16 = self.current_health as u16 + amount as u16;
        if new_health <= self.max_health as u16 {
            self.current_health = new_health as u8;
        } else {
            self.current_health = self.max_health;
        }
    }

    /// Takes `amount` of damage, stopping at zero.
    pub fn decrease_health(&mut self, amount: u8)
        ensures
            final(self).max_health == old(self).max_health,
            final(self).current_health == damaged(old(self).current_health as int, amount as int),
    {
        if amount < self.current_health {
            self.current_health = self.current_health - amount;
        } else {
            self.current_health = 0;
        }
    }

    /// Raises the cap by `amount`; the current health stays.
    pub fn increase_max_health(&mut self, amount: u8)
        requires
            old(self).max_health + amount <= u8::MAX,
        ensures
            final(self).max_health == old(self).max_health + amount,
            final(self).current_health == old(self).current_health,
    {
        self.max_health = self.max_health + amount;
    }

    /// Lowers the cap by `amount`, stopping at zero, and brings the current
    /// health down to the new cap where it is above it.
    pub fn decrease_max_health(&mut self, amount: u8)
        ensures
            final(self).max_health == if amount <= old(self).max_health {
                old(self).max_health - amount
            } else {
                0
            },
            final(self).current_health == if final(self).max_health < old(self).current_health {
                final(self).max_health
            } else {
                old(self).current_health
            },
    {
        if amount <= self.max_health {
            self.max_health = self.max_health - amount;
        } else {
            self.max_health = 0;
        }
        if self.max_health < self.current_health {
            self.current_health = self.max_health;
        }
    }

    pub fn current_health(&self) -> (r: u8)
        ensures
            r == self.current_health,
    {
        self.current_health
    }

    pub fn max_health(&self) -> (r: u8)
        ensures
            r == self.max_health,
    {
        self.max_health
    }
}

} // verus!
