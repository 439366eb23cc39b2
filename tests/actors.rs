use fuzzy_broccoli::animation::{advance_animation, next_animation_frame, walk_frame_index};
use fuzzy_broccoli::enemy::{
    animate_enemy_system, enemy_for_wave, enemy_kind, enemy_movement_and_direction_system,
    enemy_speed, enemy_sprite_folder, enemy_sprite_numbers, facing_toward, kill_enemy_system,
    spawn_enemy_system, wave_timer_system, AnimationFrame, EnemyHealth, EnemyKillCount, EnemyKind,
    EnemyType, FacingDirection,
};
use fuzzy_broccoli::ground::GroundTiles;
use fuzzy_broccoli::health::PlayerHealth;
use fuzzy_broccoli::hud::{
    heart_visible, update_health_bar_system, update_health_system, update_timer_system,
    Countdown, GameTimer, HealthView, HeartForeground, HeartSlot,
};
use fuzzy_broccoli::player::{
    is_enemy_contact, player_animation_tick_system, player_debug_system,
    player_enemy_collision_damage_system, player_ground_collision_system,
    player_movement_animation_system, player_movement_system, player_sprite_numbers,
    update_player_chunk_pos, CurrentPlayerChunkPos, PlayerAnimationFrame, PlayerChunkUpdateEvent,
    PlayerFacingDirection, PlayerState,
};
use fuzzy_broccoli::state::AppState;

#[test]
fn walk_cycle_steps() {
    assert_eq!(next_animation_frame(0), 1);
    assert_eq!(next_animation_frame(2), 3);
    assert_eq!(next_animation_frame(3), 0);
    assert_eq!(next_animation_frame(200), 0);
    let shown: Vec<usize> = (0..5).map(walk_frame_index).collect();
    assert_eq!(shown, vec![0, 1, 0, 2, 0]);
    let mut f = 3;
    advance_animation(&mut f, false);
    assert_eq!(f, 3);
    advance_animation(&mut f, true);
    assert_eq!(f, 0);
}

#[test]
fn waves_send_stronger_enemies() {
    let early = enemy_for_wave(0);
    assert_eq!(early.enemy_type, EnemyType::Zombie { speed: 50 });
    assert_eq!(early.health, EnemyHealth(100));
    assert_eq!(enemy_for_wave(2).enemy_type, EnemyType::Zombie { speed: 50 });
    let mid = enemy_for_wave(3);
    assert_eq!(mid.enemy_type, EnemyType::Skeleton { speed: 75 });
    assert_eq!(mid.health, EnemyHealth(75));
    assert_eq!(enemy_for_wave(5).size, 32);
    let late = enemy_for_wave(6);
    assert_eq!(late.enemy_type, EnemyType::Boss { speed: 40 });
    assert_eq!(late.health, EnemyHealth(200));
    assert_eq!(late.size, 64);
    assert_eq!((late.hitbox_w, late.hitbox_h), (32, 40));
    assert_eq!(enemy_speed(&late.enemy_type), 40);
    assert_eq!(enemy_kind(&late.enemy_type), EnemyKind::Boss);
}

#[test]
fn spawner_moves_waves_on() {
    let mut wave = 2;
    assert_eq!(spawn_enemy_system(&mut wave, false, false), None);
    assert_eq!(wave, 2);
    let s = spawn_enemy_system(&mut wave, true, true).unwrap();
    assert_eq!(wave, 3);
    assert_eq!(s.enemy_type, EnemyType::Skeleton { speed: 75 });
    wave_timer_system(&mut wave, true);
    assert_eq!(wave, 4);
}

#[test]
fn enemies_face_the_player() {
    assert_eq!(facing_toward(10, 3), FacingDirection::Right);
    assert_eq!(facing_toward(-10, 3), FacingDirection::Left);
    assert_eq!(facing_toward(3, 3), FacingDirection::Up);
    assert_eq!(facing_toward(3, -4), FacingDirection::Down);
    assert_eq!(facing_toward(0, 0), FacingDirection::Down);
    assert_eq!(facing_toward(i64::MIN, i64::MAX), FacingDirection::Left);
    let pose = enemy_movement_and_direction_system(5, 1, &AnimationFrame(3));
    assert_eq!(pose.facing, FacingDirection::Right);
    assert_eq!(pose.frame_index, 2);
    assert!(pose.flip_x);
    let pose = enemy_movement_and_direction_system(-5, 1, &AnimationFrame(1));
    assert!(!pose.flip_x);
    assert_eq!(pose.frame_index, 1);
}

#[test]
fn enemy_animation_and_sprites() {
    let mut f = AnimationFrame(1);
    animate_enemy_system(&mut f, true);
    assert_eq!(f, AnimationFrame(2));
    assert_eq!(enemy_sprite_numbers(EnemyKind::Zombie, FacingDirection::Down, 0), (394, 395));
    assert_eq!(enemy_sprite_numbers(EnemyKind::Boss, FacingDirection::Up, 2), (420, 421));
    assert_eq!(
        enemy_sprite_numbers(EnemyKind::Skeleton, FacingDirection::Right, 1),
        enemy_sprite_numbers(EnemyKind::Skeleton, FacingDirection::Left, 1)
    );
    assert_eq!(enemy_sprite_folder(EnemyKind::Skeleton), "Kid Zombie Animation Frames");
}

#[test]
fn damage_and_kills() {
    let mut h = EnemyHealth(100);
    h.take_damage(20);
    assert_eq!(h, EnemyHealth(80));
    assert!(!h.is_dead());
    let mut kills = EnemyKillCount(4);
    assert!(!kill_enemy_system(&h, &mut kills));
    assert_eq!(kills, EnemyKillCount(4));
    h.take_damage(80);
    assert!(h.is_dead());
    assert!(kill_enemy_system(&h, &mut kills));
    assert_eq!(kills, EnemyKillCount(5));
    let mut low = EnemyHealth(i32::MIN + 1);
    low.take_damage(5);
    assert_eq!(low, EnemyHealth(i32::MIN));
}

#[test]
fn movement_keys() {
    let mut facing = PlayerFacingDirection::Down;
    let m = player_movement_system(true, true, false, false, &mut facing);
    assert_eq!((m.dx, m.dy), (0, 0));
    assert_eq!(m.state, PlayerState::Idle);
    assert_eq!(facing, PlayerFacingDirection::Right);
    let m = player_movement_system(true, false, true, false, &mut facing);
    assert_eq!((m.dx, m.dy), (-1, 1));
    assert_eq!(m.state, PlayerState::Moving);
    assert_eq!(facing, PlayerFacingDirection::Up);
    let m = player_movement_system(false, false, false, false, &mut facing);
    assert_eq!(m.state, PlayerState::Idle);
    assert_eq!(facing, PlayerFacingDirection::Up);
}

#[test]
fn player_is_pushed_back_off_the_ground() {
    let mut ground = GroundTiles::new();
    ground.insert(500, 400);
    assert_eq!(
        player_ground_collision_system(&ground, (0, 0), PlayerFacingDirection::Left),
        (0, 0)
    );
    assert_eq!(
        player_ground_collision_system(&ground, (1, 0), PlayerFacingDirection::Left),
        (16, 0)
    );
    assert_eq!(
        player_ground_collision_system(&ground, (1, 0), PlayerFacingDirection::Up),
        (0, -16)
    );
}

#[test]
fn chunk_changes_are_announced_once() {
    let mut pos = CurrentPlayerChunkPos::default();
    // Grid (0, 0) is (500, 400) from the top left: chunk (10, 8).
    assert_eq!(update_player_chunk_pos(&mut pos, (0, 0)), Some(PlayerChunkUpdateEvent((10, 8))));
    assert_eq!(pos, CurrentPlayerChunkPos((10, 8)));
    assert_eq!(update_player_chunk_pos(&mut pos, (1, -1)), None);
    assert_eq!(
        update_player_chunk_pos(&mut pos, (-501, 0)),
        Some(PlayerChunkUpdateEvent((-1, 8)))
    );
}

#[test]
fn debug_keys_change_health_in_order() {
    let mut h = PlayerHealth::new(3);
    player_debug_system(true, false, false, false, &mut h);
    assert_eq!((h.current_health(), h.max_health()), (2, 3));
    player_debug_system(false, false, true, true, &mut h);
    assert_eq!((h.current_health(), h.max_health()), (2, 3));
    player_debug_system(false, true, true, false, &mut h);
    assert_eq!((h.current_health(), h.max_health()), (2, 2));
}

#[test]
fn enemy_contact_hurts_unless_invulnerable() {
    assert!(is_enemy_contact(1, 1, false, 2, true));
    assert!(is_enemy_contact(1, 2, true, 1, false));
    assert!(!is_enemy_contact(1, 2, true, 3, true));
    let mut h = PlayerHealth::new(3);
    assert!(!player_enemy_collision_damage_system(&mut h, true, true));
    assert_eq!(h.current_health(), 3);
    assert!(player_enemy_collision_damage_system(&mut h, false, true));
    assert_eq!(h.current_health(), 2);
    assert!(!player_enemy_collision_damage_system(&mut h, false, false));
}

#[test]
fn player_animation() {
    let mut f = PlayerAnimationFrame(2);
    player_animation_tick_system(&mut f, true);
    assert_eq!(f, PlayerAnimationFrame(3));
    assert_eq!(
        player_movement_animation_system(PlayerFacingDirection::Left, &f),
        (2, true)
    );
    assert_eq!(
        player_movement_animation_system(PlayerFacingDirection::Right, &PlayerAnimationFrame(1)),
        (1, false)
    );
    assert_eq!(player_sprite_numbers(PlayerFacingDirection::Down, 0), (476, 477));
    assert_eq!(player_sprite_numbers(PlayerFacingDirection::Up, 2), (484, 485));
    assert_eq!(player_sprite_numbers(PlayerFacingDirection::Left, 1), (480, 481));
}

#[test]
fn hearts_follow_health() {
    let h = PlayerHealth { current_health: 2, max_health: 4 };
    assert!(heart_visible(&HeartForeground { index: 1 }, &h));
    assert!(!heart_visible(&HeartForeground { index: 2 }, &h));
    let hearts: Vec<HeartForeground> = (0..4).map(|index| HeartForeground { index }).collect();
    match update_health_system(&h, &hearts) {
        HealthView::Hearts(v) => assert_eq!(v, vec![true, true, false, false]),
        HealthView::GameOver => panic!("health is left"),
    }
    let dead = PlayerHealth { current_health: 0, max_health: 4 };
    assert!(matches!(update_health_system(&dead, &hearts), HealthView::GameOver));
}

#[test]
fn heart_row_follows_the_cap() {
    let slots: Vec<HeartSlot> = [2u8, 0, 4, 1, 3].iter().map(|&index| HeartSlot { index }).collect();
    let c = update_health_bar_system(3, &slots);
    assert_eq!(c.despawn, vec![2, 4]);
    assert_eq!((c.spawn_from, c.spawn_to), (5, 5));
    let c = update_health_bar_system(7, &slots);
    assert!(c.despawn.is_empty());
    assert_eq!((c.spawn_from, c.spawn_to), (5, 7));
    assert_eq!(AppState::default(), AppState::MainMenu);
}

#[test]
fn countdown_runs_to_a_win() {
    let mut t = GameTimer::default();
    assert_eq!(t.remaining_ms, 300_000);
    assert_eq!(update_timer_system(&mut t, 16), Countdown::Showing { minutes: 4, seconds: 59 });
    assert_eq!(t.remaining_ms, 299_984);
    let mut t = GameTimer { remaining_ms: 61_500 };
    assert_eq!(update_timer_system(&mut t, 0), Countdown::Showing { minutes: 1, seconds: 1 });
    assert_eq!(update_timer_system(&mut t, 61_499), Countdown::Showing { minutes: 0, seconds: 0 });
    assert_eq!(update_timer_system(&mut t, 5), Countdown::Won);
    assert_eq!(t.remaining_ms, 0);
}
