use vstd::prelude::*;
use crate::health::PlayerHealth;

verus! {

/// Marks the row of hearts.
pub struct HealthBarContainer;

/// One heart of the row: its place, counted from zero.
#[derive(Debug, Clone, Copy, PartialEq, Eq, Structural)]
pub struct HeartSlot {
    pub index: u8,
}

/// The filled part of a heart, shown while the player has that much health.
#[derive(Debug, Clone, Copy, PartialEq, Eq, Structural)]
pub struct HeartForeground {
    pub index: u8,
}

/// Marks the kill counter.
pub struct ScoreHudContainer;

/// Marks the text of the kill counter.
pub struct KillCountMarker;

/// Marks the countdown.
pub struct TimerHudContainer;

/// Marks the text of the countdown.
pub struct TimerTextMarker;

/// Whether the filled part of heart `heart` shows: its place is below the current health.
pub fn heart_visible(heart: &HeartForeground, health: &PlayerHealth) -> (r: bool)
    ensures
        r == (heart.index < health.current_health),
{
    heart.index < health.current_health
}

/// What the hearts show in one frame.
pub enum HealthView {
    /// No health is left: the game is lost.
    GameOver,
    /// Whether each heart, in the order given, shows as filled.
    Hearts(Vec<bool>),
}

/// One frame of the heart display: the game is lost at zero health; otherwise
/// each heart shows as filled exactly when its place is below the current health.
pub fn update_health_system(health: &PlayerHealth, hearts: &Vec<HeartForeground>) -> (r: HealthView)
    ensures
        health.current_health == 0 <==> r is GameOver,
        r matches HealthView::Hearts(v) ==> v@.len() == hearts@.len() && forall|i: int|
            0 <= i < hearts@.len() ==> v@[i] == (#[trigger] hearts@[i].index < health.current_health),
{
    if health.current_health() == 0 {
        return HealthView::GameOver;
    }
    let mut v: Vec<bool> = Vec::new();
    let mut i: usize = 0;
    while i < hearts.len()
        invariant
            i <= hearts@.len(),
            v@.len() == i,
            forall|k: int| 0 <= k < i ==> v@[k] == (#[trigger] hearts@[k].index < health.current_health),
        decreases hearts@.len() - i,
    {
        v.push(heart_visible(&hearts[i], health));
        i = i + 1;
    }
    HealthView::Hearts(v)
}

/// How the row of hearts has to change after the cap changed.
pub struct SlotChanges {
    /// Positions, in the list of slots given, of the slots to remove.
    pub despawn: Vec<usize>,
    /// The places of the hearts to add run from `spawn_from` up to, not including, `spawn_to`.
    pub spawn_from: u8,
    pub spawn_to: u8,
}

/// One frame of the heart row after the cap changed to `max_health`, with `slots`
/// the hearts there are: with more hearts than the cap, those whose place is
/// the cap or beyond go; with fewer, hearts are added for the missing places.
pub fn update_health_bar_system(max_health: u8, slots: &Vec<HeartSlot>) -> (r: SlotChanges)
    requires
        slots@.len() <= u8::MAX,
    ensures
        forall|p: int|
            0 <= p < slots@.len() ==> (r.despawn@.contains(p as usize) <==> (max_health
                < slots@.len() && #[trigger] slots@[p].index >= max_health)),
        forall|i: int| 0 <= i < r.despawn@.len() ==> #[trigger] r.despawn@[i] < slots@.len(),
        r.spawn_from == slots@.len(),
        r.spawn_to == if max_health > slots@.len() {
            max_health as int
        } else {
            slots@.len() as int
        },
{
    let count: u8 = slots.len() as u8;
    let mut despawn: Vec<usize> = Vec::new();
    if max_health < count {
        let mut p: usize = 0;
        while p < slots.len()
            invariant
                p <= slots@.len(),
                slots@.len() <= u8::MAX,
                count == slots@.len(),
                max_health < count,
                forall|q: int| 0 <= q < despawn@.len() ==> #[trigger] despawn@[q] < p,
                forall|q: int|
                    0 <= q < p ==> (despawn@.contains(q as usize) <==> #[trigger] slots@[q].index
                        >= max_health),
            decreases slots@.len() - p,
        {
            let ghost old_d = despawn@;
            if slots[p].index >= max_health {
                despawn.push(p);
            }
            proof {
                assert forall|q: int|
                    0 <= q < p + 1 implies (despawn@.contains(q as usize) <==> #[trigger] slots@[q].index
                        >= max_health) by {
                    if q < p {
                        if old_d.contains(q as usize) {
                            let w = choose|w: int| 0 <= w < old_d.len() && old_d[w] == q as usize;
                            assert(despawn@[w] == q as usize);
                        }
                        if despawn@.contains(q as usize) {
                            let w = choose|w: int| 0 <= w < despawn@.len() && despawn@[w] == q as usize;
                            if w == old_d.len() {
                                assert(despawn@[w] == p);
                            } else {
                                assert(old_d[w] == q as usize);
                            }
                        }
                    } else {
                        if slots@[q].index >= max_health {
                            assert(despawn@[despawn@.len() - 1] == p);
                        } else {
                            if despawn@.contains(q as usize) {
                                let w = choose|w: int| 0 <= w < despawn@.len() && despawn@[w] == q as usize;
                                assert(old_d[w] < p);
                            }
                        }
                    }
                }
            }
            p = p + 1;
        }
    }
    let spawn_to = if max_health > count {
        max_health
    } else {
        count
    };
    SlotChanges { despawn, spawn_from: count, spawn_to }
}

/// Length of a round, in milliseconds: five minutes.
pub const ROUND_MS: u64 = 300_000;

/// Time left in the round, in milliseconds.
#[derive(Debug, Clone, Copy, PartialEq, Eq, Structural)]
pub struct GameTimer {
    pub remaining_ms: u64,
}

impl Default for GameTimer {
    /// A full round.
    fn default() -> (r: Self)
        ensures
            r.remaining_ms == ROUND_MS,
    {
        GameTimer { remaining_ms: ROUND_MS }
    }
}

/// What the countdown shows after a frame.
#[derive(Debug, Clone, Copy, PartialEq, Eq, Structural)]
pub enum Countdown {
    /// The round is over: the player survived it.
    Won,
    /// Whole minutes and the whole seconds beyond them that are left.
    Showing { minutes: u64, seconds: u64 },
}

/// One frame of the countdown: `delta_ms` milliseconds pass. Once nothing is
/// left the round is won; until then the whole minutes and seconds left show.
pub fn update_timer_system(timer: &mut GameTimer, delta_ms: u64) -> (r: Countdown)
    ensures
        final(timer).remaining_ms == if old(timer).remaining_ms > delta_ms {
            old(timer).remaining_ms - delta_ms
        } else {
            0
        },
        final(timer).remaining_ms == 0 <==> r is Won,
        r matches Countdown::Showing { minutes, seconds } ==> minutes == final(timer).remaining_ms / 60_000
            && seconds == final(timer).remaining_ms % 60_000 / 1000,
{
    if timer.remaining_ms > delta_ms {
        timer.remaining_ms = timer.remaining_ms - delta_ms;
    } else {
        timer.remaining_ms = 0;
    }
    if timer.remaining_ms == 0 {
        return Countdown::Won;
    }
    Countdown::Showing {
        minutes: timer.remaining_ms / 60_000,
        seconds: timer.remaining_ms % 60_000 / 1000,
    }
}

} // verus!
