use fuzzy_broccoli::audio::{
    audio_track_path, cycle_sound_system, get_next_audio_track, initial_audio_playback,
    AudioTrack, TrackSwitchEvent,
};

#[test]
fn playlist_order_wraps_around() {
    let mut t = AudioTrack::MainMenuLoop;
    let mut seen = Vec::new();
    for _ in 0..9 {
        seen.push(t);
        t = get_next_audio_track(&t);
    }
    assert_eq!(t, AudioTrack::MainMenuLoop);
    assert_eq!(seen[1], AudioTrack::GameplayLoop2);
    assert_eq!(seen[8], AudioTrack::SoftLoopForDialog);
    assert_eq!(get_next_audio_track(&AudioTrack::SoftLoopForDialog), AudioTrack::MainMenuLoop);
}

#[test]
fn track_files() {
    assert_eq!(
        audio_track_path(&AudioTrack::MainMenuLoop),
        "sound/ogg/Shooter Synthwave 1 Loop.ogg"
    );
    assert_eq!(
        audio_track_path(&AudioTrack::GameplayLoop5),
        "sound/ogg/Shooter Synthwave 5 Loop.ogg"
    );
    assert_eq!(
        audio_track_path(&AudioTrack::SoftLoopForDialog),
        "sound/ogg/(Soft Loop For Dialogues, Pause or Other Things) 9.ogg"
    );
}

#[test]
fn music_starts_with_the_menu_loop() {
    assert_eq!(initial_audio_playback().track, AudioTrack::MainMenuLoop);
    assert_eq!(AudioTrack::default(), AudioTrack::MainMenuLoop);
}

#[test]
fn switch_key_cycles_the_music() {
    let mut current = AudioTrack::GameplayLoop8;
    assert_eq!(cycle_sound_system(false, &mut current), None);
    assert_eq!(current, AudioTrack::GameplayLoop8);
    assert_eq!(
        cycle_sound_system(true, &mut current),
        Some(TrackSwitchEvent { track: AudioTrack::SoftLoopForDialog })
    );
    assert_eq!(current, AudioTrack::SoftLoopForDialog);
    assert_eq!(
        cycle_sound_system(true, &mut current),
        Some(TrackSwitchEvent { track: AudioTrack::MainMenuLoop })
    );
}
