use vstd::prelude::*;
use crate::animation::advance_animation;

verus! {

/// Marks an enemy entity.
pub struct Enemy;

/// Hit points of an enemy; it dies at zero or below.
#[derive(Debug, Clone, Copy, PartialEq, Eq, Structural)]
pub struct EnemyHealth(pub i32);

/// The kind of an enemy, with the speed it walks at, in pixels per second.
#[derive(Debug, Clone, Copy, PartialEq, Eq, Structural)]
pub enum EnemyType {
    Zombie { speed: u32 },
    Skeleton { speed: u32 },
    Boss { speed: u32 },
}

/// The kinds of enemy without their speed.
#[derive(Debug, Clone, Copy, PartialEq, Eq, Hash, Structural)]
pub enum EnemyKind {
    Zombie,
    Skeleton,
    Boss,
}

/// The way an enemy or the player faces.
#[derive(Debug, Clone, Copy, PartialEq, Eq, Hash, Structural)]
pub enum FacingDirection {
    Up,
    Down,
    Left,
    Right,
}

/// The step of an enemy's walk cycle.
#[derive(Debug, Clone, Copy, PartialEq, Eq, Structural)]
pub struct AnimationFrame(pub u8);

/// Enemies killed so far.
#[derive(Debug, Clone, Copy, PartialEq, Eq, Structural)]
pub struct EnemyKillCount(pub u32);

/// Everything that spawning an enemy decides.
#[derive(Debug, Clone, Copy, PartialEq, Eq, Structural)]
pub struct EnemySpawn {
    pub enemy_type: EnemyType,
    pub health: EnemyHealth,
    /// Side of the square sprite, in pixels.
    pub size: u32,
    /// Width of the hitbox, in pixels.
    pub hitbox_w: u32,
    /// Height of the hitbox, in pixels.
    pub hitbox_h: u32,
}

/// What a wave sends: zombies in waves 0 to 2, skeletons in waves 3 to 5, then bosses.
pub open spec fn spawn_for_wave(wave: u32) -> EnemySpawn {
    if wave <= 2 {
        EnemySpawn {
            enemy_type: EnemyType::Zombie { speed: 50 },
            health: EnemyHealth(100),
            size: 32,
            hitbox_w: 16,
            hitbox_h: 20,
        }
    } else if wave <= 5 {
        EnemySpawn {
            enemy_type: EnemyType::Skeleton { speed: 75 },
            health: EnemyHealth(75),
            size: 32,
            hitbox_w: 16,
            hitbox_h: 20,
        }
    } else {
        EnemySpawn {
            enemy_type: EnemyType::Boss { speed: 40 },
            health: EnemyHealth(200),
            size: 64,
            hitbox_w: 32,
            hitbox_h: 40,
        }
    }
}

/// The enemy that wave `wave` sends.
pub fn enemy_for_wave(wave: u32) -> (r: EnemySpawn)
    ensures
        r == spawn_for_wave(wave),
{
    if wave <= 2 {
        EnemySpawn {
            enemy_type: EnemyType::Zombie { speed: 50 },
            health: EnemyHealth(100),
            size: 32,
            hitbox_w: 16,
            hitbox_h: 20,
        }
    } else if wave <= 5 {
        EnemySpawn {
            enemy_type: EnemyType::Skeleton { speed: 75 },
            health: EnemyHealth(75),
            size: 32,
            hitbox_w: 16,
            hitbox_h: 20,
        }
    } else {
        EnemySpawn {
            enemy_type: EnemyType::Boss { speed: 40 },
            health: EnemyHealth(200),
            size: 64,
            hitbox_w: 32,
            hitbox_h: 40,
        }
    }
}

/// The wave counter after one frame: one more when the wave timer ran out.
pub fn wave_timer_system(wave: &mut u32, wave_timer_finished: bool)
    requires
        wave_timer_finished ==> *old(wave) < u32::MAX,
    ensures
        *final(wave) == if wave_timer_finished {
            *old(wave) + 1
        } else {
            *old(wave) as int
        },
{
    if wave_timer_finished {
        *wave = *wave + 1;
    }
}

/// One frame of the spawner: the wave moves on when its timer ran out, and when
/// the spawn timer ran out an enemy of the (new) wave is spawned.
pub fn spawn_enemy_system(wave: &mut u32, wave_timer_finished: bool, spawn_timer_finished: bool) -> (r: Option<EnemySpawn>)
    requires
        wave_timer_finished ==> *old(wave) < u32::MAX,
    ensures
        *final(wave) == if wave_timer_finished {
            *old(wave) + 1
        } else {
            *old(wave) as int
        },
        spawn_timer_finished ==> r == Some(spawn_for_wave(*final(wave))),
        !spawn_timer_finished ==> r is None,
{
    wave_timer_system(wave, wave_timer_finished);
    if spawn_timer_finished {
        Some(enemy_for_wave(*wave))
    } else {
        None
    }
}

/// The speed of an enemy of type `t`.
pub fn enemy_speed(t: &EnemyType) -> (r: u32)
    ensures
        r == match *t {
            EnemyType::Zombie { speed } => speed,
            EnemyType::Skeleton { speed } => speed,
            EnemyType::Boss { speed } => speed,
        },
{
    match t {
        EnemyType::Zombie { speed } => *speed,
        EnemyType::Skeleton { speed } => *speed,
        EnemyType::Boss { speed } => *speed,
    }
}

/// The kind of an enemy of type `t`.
pub fn enemy_kind(t: &EnemyType) -> (r: EnemyKind)
    ensures
        r == match *t {
            EnemyType::Zombie { .. } => EnemyKind::Zombie,
            EnemyType::Skeleton { .. } => EnemyKind::Skeleton,
            EnemyType::Boss { .. } => EnemyKind::Boss,
        },
{
    match t {
        EnemyType::Zombie { .. } => EnemyKind::Zombie,
        EnemyType::Skeleton { .. } => EnemyKind::Skeleton,
        EnemyType::Boss { .. } => EnemyKind::Boss,
    }
}

/// The way to face along the offset `(dx, dy)`: horizontally where it is
/// strictly more horizontal than vertical, else vertically; a zero offset faces down.
pub open spec fn facing_along(dx: int, dy: int) -> FacingDirection {
    let ax = if dx < 0 { -dx } else { dx };
    let ay = if dy < 0 { -dy } else { dy };
    if ax > ay {
        if dx > 0 {
            FacingDirection::Right
        } else {
            FacingDirection::Left
        }
    } else if dy > 0 {
        FacingDirection::Up
    } else {
        FacingDirection::Down
    }
}

/// The way to face along the offset `(dx, dy)`.
pub fn facing_toward(dx: i64, dy: i64) -> (r: FacingDirection)
    ensures
        r == facing_along(dx as int, dy as int),
{
    let ax: i128 = if dx < 0 { -(dx as i128) } else { dx as i128 };
    let ay: i128 = if dy < 0 { -(dy as i128) } else { dy as i128 };
    if ax > ay {
        if dx > 0 {
            FacingDirection::Right
        } else {
            FacingDirection::Left
        }
    } else if dy > 0 {
        FacingDirection::Up
    } else {
        FacingDirection::Down
    }
}

/// How an enemy's sprite is shown in one frame.
#[derive(Debug, Clone, Copy, PartialEq, Eq, Structural)]
pub struct EnemyPose {
    pub facing: FacingDirection,
    /// Which of the three sprites of that direction to show.
    pub frame_index: usize,
    /// Right-facing sprites are the left-facing ones mirrored.
    pub flip_x: bool,
}

/// The sprite decision of one enemy: face along the offset `(dx, dy)` from the
/// enemy to the player, show the sprite of the walk-cycle step `frame`, and
/// mirror it when facing right.
pub fn enemy_movement_and_direction_system(dx: i64, dy: i64, frame: &AnimationFrame) -> (r: EnemyPose)
    ensures
        r.facing == facing_along(dx as int, dy as int),
        r.frame_index == crate::animation::walk_frame(frame.0),
        r.flip_x == (r.facing == FacingDirection::Right),
{
    let facing = facing_toward(dx, dy);
    let frame_index = crate::animation::walk_frame_index(frame.0);
    let flip_x = match facing {
        FacingDirection::Right => true,
        _ => false,
    };
    EnemyPose { facing, frame_index, flip_x }
}

/// One frame of an enemy's walk cycle.
pub fn animate_enemy_system(frame: &mut AnimationFrame, timer_finished: bool)
    ensures
        final(frame).0 == if timer_finished {
            crate::animation::next_frame(old(frame).0)
        } else {
            old(frame).0
        },
{
    advance_animation(&mut frame.0, timer_finished);
}

/// The number of the first of the three walking sprites of an enemy kind facing
/// a way; facing right uses the left-facing sprites, mirrored.
pub open spec fn enemy_frame_base(kind: EnemyKind, direction: FacingDirection) -> u32 {
    match direction {
        FacingDirection::Down => match kind {
            EnemyKind::Zombie => 394,
            EnemyKind::Skeleton => 430,
            EnemyKind::Boss => 412,
        },
        FacingDirection::Up => match kind {
            EnemyKind::Zombie => 400,
            EnemyKind::Skeleton => 436,
            EnemyKind::Boss => 418,
        },
        _ => match kind {
            EnemyKind::Zombie => 397,
            EnemyKind::Skeleton => 433,
            EnemyKind::Boss => 415,
        },
    }
}

/// The folder that holds the walking sprites of an enemy kind.
pub open spec fn enemy_frame_folder(kind: EnemyKind) -> Seq<char> {
    match kind {
        EnemyKind::Zombie => "Skinny Walking Zombie Animation"@,
        EnemyKind::Skeleton => "Kid Zombie Animation Frames"@,
        EnemyKind::Boss => "Big Zombie Walking Animation Frames"@,
    }
}

/// The folder that holds the walking sprites of `kind`.
pub fn enemy_sprite_folder(kind: EnemyKind) -> (r: &'static str)
    ensures
        r@ == enemy_frame_folder(kind),
{
    match kind {
        EnemyKind::Zombie => "Skinny Walking Zombie Animation",
        EnemyKind::Skeleton => "Kid Zombie Animation Frames",
        EnemyKind::Boss => "Big Zombie Walking Animation Frames",
    }
}

/// The two numbers in the file name of walking sprite `i` (0 to 2) of `kind`
/// facing `direction`: the sprite's number and the next one.
pub fn enemy_sprite_numbers(kind: EnemyKind, direction: FacingDirection, i: u32) -> (r: (u32, u32))
    requires
        i < 3,
    ensures
        r.0 == enemy_frame_base(kind, direction) + i,
        r.1 == r.0 + 1,
{
    let base: u32 = match direction {
        FacingDirection::Down => match kind {
            EnemyKind::Zombie => 394,
            EnemyKind::Skeleton => 430,
            EnemyKind::Boss => 412,
        },
        FacingDirection::Up => match kind {
            EnemyKind::Zombie => 400,
            EnemyKind::Skeleton => 436,
            EnemyKind::Boss => 418,
        },
        _ => match kind {
            EnemyKind::Zombie => 397,
            EnemyKind::Skeleton => 433,
            EnemyKind::Boss => 415,
        },
    };
    (base + i, base + i + 1)
}

impl EnemyHealth {
    /// Whether the enemy is dead.
    pub fn is_dead(&self) -> (r: bool)
        ensures
            r == (self.0 <= 0),
    {
        self.0 <= 0
    }

    /// Takes `damage` hit points off, stopping at the smallest `i32`.
    pub fn take_damage(&mut self, damage: u32)
        ensures
            final(self).0 == if old(self).0 - damage < i32::MIN {
                i32::MIN as int
            } else {
                old(self).0 - damage
            },
    {
        let h: i64 = self.0 as i64 - damage as i64;
        if h < i32::MIN as i64 {
            self.0 = i32::MIN;
        } else {
            self.0 = h as i32;
        }
    }
}

/// One frame of the kill check for one enemy: a dead enemy is counted and is to
/// be despawned.
pub fn kill_enemy_system(health: &EnemyHealth, kill_count: &mut EnemyKillCount) -> (despawn: bool)
    requires
        health.0 <= 0 ==> old(kill_count).0 < u32::MAX,
    ensures
        despawn == (health.0 <= 0),
        final(kill_count).0 == if despawn {
            old(kill_count).0 + 1
        } else {
            old(kill_count).0 as int
        },
{
    if health.is_dead() {
        kill_count.0 = kill_count.0 + 1;
        true
    } else {
        false
    }
}

} // verus!
