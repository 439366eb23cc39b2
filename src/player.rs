use vstd::prelude::*;
use crate::animation::{advance_animation, next_frame, walk_frame, walk_frame_index};
use crate::grid::{center_to_top_left_grid, chunk_of, grid_to_chunk, ipair};
use crate::config::{GRID_COLS, GRID_ROWS};
use crate::ground::GroundTiles;
use crate::health::{damaged, healed, PlayerHealth};

verus! {

/// Marks the player entity.
pub struct Player;

/// Marks the camera that follows the player.
pub struct PlayerCamera;

/// Marks the player's pistol.
pub struct Pistol;

/// Marks a projectile fired by the pistol.
pub struct Projectile;

/// Hit points that one projectile takes off an enemy.
#[derive(Debug, Clone, Copy, PartialEq, Eq, Structural)]
pub struct Damage(pub u32);

/// The step of the player's walk cycle.
#[derive(Debug, Clone, Copy, PartialEq, Eq, Structural)]
pub struct PlayerAnimationFrame(pub u8);

/// The chunk the player stands in.
#[derive(Debug, Clone, Copy, PartialEq, Eq)]
pub struct CurrentPlayerChunkPos(pub (i32, i32));

impl Default for CurrentPlayerChunkPos {
    fn default() -> (r: Self)
        ensures
            r.0 == (0i32, 0i32),
    {
        CurrentPlayerChunkPos((0, 0))
    }
}

/// Tells that the player entered another chunk.
#[derive(Debug, Clone, Copy, PartialEq, Eq)]
pub struct PlayerChunkUpdateEvent(pub (i32, i32));

/// The way the player faces.
#[derive(Debug, Clone, Copy, PartialEq, Eq, Hash, Structural)]
pub enum PlayerFacingDirection {
    Up,
    Down,
    Left,
    Right,
}

/// Whether the player walks.
#[derive(Debug, Clone, Copy, PartialEq, Eq, Hash, Structural)]
pub enum PlayerState {
    Idle,
    Moving,
}

/// What the movement keys ask for in one frame.
#[derive(Debug, Clone, Copy, PartialEq, Eq, Structural)]
pub struct Movement {
    /// -1, 0 or 1: left, none, right.
    pub dx: i8,
    /// -1, 0 or 1: down, none, up.
    pub dy: i8,
    pub state: PlayerState,
}

/// The way the player faces after the movement keys of one frame: the last of
/// left, right, up and down that is held wins; with none held it stays.
pub open spec fn facing_after(
    left: bool,
    right: bool,
    up: bool,
    down: bool,
    facing: PlayerFacingDirection,
) -> PlayerFacingDirection {
    if down {
        PlayerFacingDirection::Down
    } else if up {
        PlayerFacingDirection::Up
    } else if right {
        PlayerFacingDirection::Right
    } else if left {
        PlayerFacingDirection::Left
    } else {
        facing
    }
}

/// One frame of player movement: the direction that the held keys add up to,
/// with opposite keys cancelling out, the way to face, and whether the player walks.
pub fn player_movement_system(
    left: bool,
    right: bool,
    up: bool,
    down: bool,
    facing: &mut PlayerFacingDirection,
) -> (r: Movement)
    ensures
        r.dx == (if right { 1int } else { 0int }) - (if left { 1int } else { 0int }),
        r.dy == (if up { 1int } else { 0int }) - (if down { 1int } else { 0int }),
        *final(facing) == facing_after(left, right, up, down, *old(facing)),
        r.state == if r.dx != 0 || r.dy != 0 {
            PlayerState::Moving
        } else {
            PlayerState::Idle
        },
{
    let mut dx: i8 = 0;
    let mut dy: i8 = 0;
    if left {
        dx = dx - 1;
        *facing = PlayerFacingDirection::Left;
    }
    if right {
        dx = dx + 1;
        *facing = PlayerFacingDirection::Right;
    }
    if up {
        dy = dy + 1;
        *facing = PlayerFacingDirection::Up;
    }
    if down {
        dy = dy - 1;
        *facing = PlayerFacingDirection::Down;
    }
    let state = if dx != 0 || dy != 0 {
        PlayerState::Moving
    } else {
        PlayerState::Idle
    };
    Movement { dx, dy, state }
}

/// How far the player is pushed back, in pixels, when it stands off the ground:
/// sixteen pixels against the way it faces.
pub open spec fn pushback(facing: PlayerFacingDirection) -> (int, int) {
    match facing {
        PlayerFacingDirection::Left => (16, 0),
        PlayerFacingDirection::Right => (-16, 0),
        PlayerFacingDirection::Up => (0, -16),
        PlayerFacingDirection::Down => (0, 16),
    }
}

/// Bounds on a position of the centred grid under which moving it to the
/// top-left grid fits an `i32`.
pub open spec fn world_grid_in_bounds(pos: (i32, i32)) -> bool {
    pos.0 + GRID_COLS / 2 <= i32::MAX && GRID_ROWS / 2 - pos.1 <= i32::MAX
}

/// One frame of the ground check: `world_grid` is the player's position on the
/// grid centred on the map. Off the ground, the player is pushed back against
/// the way it faces; on it, not at all.
pub fn player_ground_collision_system(
    ground_tiles: &GroundTiles,
    world_grid: (i32, i32),
    facing: PlayerFacingDirection,
) -> (r: (i32, i32))
    requires
        ground_tiles.wf(),
        world_grid_in_bounds(world_grid),
    ensures
        ipair(r) == if ground_tiles@.contains(
            (world_grid.0 + GRID_COLS / 2, GRID_ROWS / 2 - world_grid.1),
        ) {
            (0int, 0int)
        } else {
            pushback(facing)
        },
{
    let pos = center_to_top_left_grid(world_grid.0, world_grid.1);
    if ground_tiles.contains(pos.0, pos.1) {
        (0, 0)
    } else {
        match facing {
            PlayerFacingDirection::Left => (16, 0),
            PlayerFacingDirection::Right => (-16, 0),
            PlayerFacingDirection::Up => (0, -16),
            PlayerFacingDirection::Down => (0, 16),
        }
    }
}

/// One frame of chunk tracking: `world_grid` is the player's position on the
/// grid centred on the map. When the chunk it falls in differs from the stored
/// one, the stored one is updated and an update for the new chunk is sent.
pub fn update_player_chunk_pos(chunk_pos: &mut CurrentPlayerChunkPos, world_grid: (i32, i32)) -> (r: Option<PlayerChunkUpdateEvent>)
    requires
        world_grid_in_bounds(world_grid),
    ensures
        ({
            let c = chunk_of(world_grid.0 + GRID_COLS / 2, GRID_ROWS / 2 - world_grid.1);
            &&& ipair(final(chunk_pos).0) == c
            &&& if ipair(old(chunk_pos).0) == c {
                r is None
            } else {
                r matches Some(e) && ipair(e.0) == c
            }
        }),
{
    let pos = center_to_top_left_grid(world_grid.0, world_grid.1);
    let c = grid_to_chunk(pos.0, pos.1);
    if chunk_pos.0.0 == c.0 && chunk_pos.0.1 == c.1 {
        return None;
    }
    chunk_pos.0 = c;
    Some(PlayerChunkUpdateEvent(c))
}

/// One frame of the health debug keys, applied in order: lose a point, gain a
/// point, lower the cap, raise the cap.
pub fn player_debug_system(
    lose: bool,
    gain: bool,
    lower_cap: bool,
    raise_cap: bool,
    health: &mut PlayerHealth,
)
    requires
        raise_cap ==> old(health).max_health < u8::MAX,
    ensures
        ({
            let c0 = old(health).current_health as int;
            let m0 = old(health).max_health as int;
            let c1 = if lose { damaged(c0, 1) } else { c0 };
            let c2 = if gain { healed(c1, m0, 1) } else { c1 };
            let m3 = if lower_cap { if m0 >= 1 { m0 - 1 } else { 0 } } else { m0 };
            let c3 = if lower_cap && m3 < c2 { m3 } else { c2 };
            &&& final(health).current_health == c3
            &&& final(health).max_health == if raise_cap { m3 + 1 } else { m3 }
        }),
{
    if lose {
        health.decrease_health(1);
    }
    if gain {
        health.increase_health(1);
    }
    if lower_cap {
        health.decrease_max_health(1);
    }
    if raise_cap {
        health.increase_max_health(1);
    }
}

/// Whether the contact of `a` and `b` is one between the player and an enemy.
pub fn is_enemy_contact(player: u64, a: u64, a_is_enemy: bool, b: u64, b_is_enemy: bool) -> (r: bool)
    ensures
        r == ((a == player && b_is_enemy) || (b == player && a_is_enemy)),
{
    (a == player && b_is_enemy) || (b == player && a_is_enemy)
}

/// One frame of contact damage: unless the player is still invulnerable, an
/// enemy contact takes one point of health. Returns whether it did, in which
/// case the player becomes invulnerable for a while.
pub fn player_enemy_collision_damage_system(
    health: &mut PlayerHealth,
    invulnerable: bool,
    enemy_contact: bool,
) -> (hit: bool)
    ensures
        hit == (!invulnerable && enemy_contact),
        final(health).max_health == old(health).max_health,
        final(health).current_health == if hit {
            damaged(old(health).current_health as int, 1)
        } else {
            old(health).current_health as int
        },
{
    if invulnerable || !enemy_contact {
        return false;
    }
    health.decrease_health(1);
    true
}

/// One frame of the player's walk cycle.
pub fn player_animation_tick_system(frame: &mut PlayerAnimationFrame, timer_finished: bool)
    ensures
        final(frame).0 == if timer_finished {
            next_frame(old(frame).0)
        } else {
            old(frame).0
        },
{
    advance_animation(&mut frame.0, timer_finished);
}

/// How the player's sprite is shown while walking: the sprite of the walk-cycle
/// step, mirrored when facing left.
pub fn player_movement_animation_system(facing: PlayerFacingDirection, frame: &PlayerAnimationFrame) -> (r: (usize, bool))
    ensures
        r.0 == walk_frame(frame.0),
        r.1 == (facing == PlayerFacingDirection::Left),
{
    let flip = match facing {
        PlayerFacingDirection::Left => true,
        _ => false,
    };
    (walk_frame_index(frame.0), flip)
}

/// The number of the first of the three walking sprites of the player facing a
/// way; facing left uses the right-facing sprites, mirrored.
pub open spec fn player_frame_base(direction: PlayerFacingDirection) -> u32 {
    match direction {
        PlayerFacingDirection::Down => 476,
        PlayerFacingDirection::Up => 482,
        _ => 479,
    }
}

/// The two numbers in the file name of walking sprite `i` (0 to 2) of the
/// player facing `direction`: the sprite's number and the next one.
pub fn player_sprite_numbers(direction: PlayerFacingDirection, i: u32) -> (r: (u32, u32))
    requires
        i < 3,
    ensures
        r.0 == player_frame_base(direction) + i,
        r.1 == r.0 + 1,
{
    let base: u32 = match direction {
        PlayerFacingDirection::Down => 476,
        PlayerFacingDirection::Up => 482,
        _ => 479,
    };
    (base + i, base + i + 1)
}

} // verus!
