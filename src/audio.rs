use vstd::prelude::*;

verus! {

/// The music loops, in the order that the playlist cycles through them.
#[derive(Debug, Clone, Copy, PartialEq, Eq, Hash, Structural)]
pub enum AudioTrack {
    MainMenuLoop,
    GameplayLoop2,
    GameplayLoop3,
    GameplayLoop4,
    GameplayLoop5,
    GameplayLoop6,
    GameplayLoop7,
    GameplayLoop8,
    SoftLoopForDialog,
}

/// Asks for the music to switch to `track`.
#[derive(Debug, Clone, Copy, PartialEq, Eq, Hash, Structural)]
pub struct TrackSwitchEvent {
    pub track: AudioTrack,
}

impl Default for AudioTrack {
    fn default() -> (r: Self)
        ensures
            r == AudioTrack::MainMenuLoop,
    {
        AudioTrack::MainMenuLoop
    }
}

/// The place of a track in the playlist, from 0 to 8.
pub open spec fn track_index(t: AudioTrack) -> int {
    match t {
        AudioTrack::MainMenuLoop => 0,
        AudioTrack::GameplayLoop2 => 1,
        AudioTrack::GameplayLoop3 => 2,
        AudioTrack::GameplayLoop4 => 3,
        AudioTrack::GameplayLoop5 => 4,
        AudioTrack::GameplayLoop6 => 5,
        AudioTrack::GameplayLoop7 => 6,
        AudioTrack::GameplayLoop8 => 7,
        AudioTrack::SoftLoopForDialog => 8,
    }
}

/// The number of tracks in the playlist.
pub const TRACK_COUNT: usize = 9;

/// The track that follows `t` in the playlist, wrapping around after the last one.
pub open spec fn next_track(t: AudioTrack) -> AudioTrack {
    match t {
        AudioTrack::MainMenuLoop => AudioTrack::GameplayLoop2,
        AudioTrack::GameplayLoop2 => AudioTrack::GameplayLoop3,
        AudioTrack::GameplayLoop3 => AudioTrack::GameplayLoop4,
        AudioTrack::GameplayLoop4 => AudioTrack::GameplayLoop5,
        AudioTrack::GameplayLoop5 => AudioTrack::GameplayLoop6,
        AudioTrack::GameplayLoop6 => AudioTrack::GameplayLoop7,
        AudioTrack::GameplayLoop7 => AudioTrack::GameplayLoop8,
        AudioTrack::GameplayLoop8 => AudioTrack::SoftLoopForDialog,
        AudioTrack::SoftLoopForDialog => AudioTrack::MainMenuLoop,
    }
}

/// The track `n` steps after `t`.
pub open spec fn track_after(t: AudioTrack, n: nat) -> AudioTrack
    decreases n,
{
    if n == 0 {
        t
    } else {
        next_track(track_after(t, (n - 1) as nat))
    }
}

/// The next track moves one place on in the playlist.
pub proof fn lemma_next_track_index(t: AudioTrack)
    ensures
        track_index(next_track(t)) == (track_index(t) + 1) % (TRACK_COUNT as int),
{
}

/// Cycling through the playlist reaches every track and comes back to where it
/// started after one round.
pub proof fn lemma_playlist_cycles(t: AudioTrack, n: nat)
    ensures
        track_index(track_after(t, n)) == (track_index(t) + n) % (TRACK_COUNT as int),
        track_after(t, TRACK_COUNT as nat) == t,
    decreases n,
{
    if n > 0 {
        lemma_playlist_cycles(t, (n - 1) as nat);
        lemma_next_track_index(track_after(t, (n - 1) as nat));
        vstd::arithmetic::div_mod::lemma_add_mod_noop(
            track_index(t) + n - 1,
            1,
            TRACK_COUNT as int,
        );
        vstd::arithmetic::div_mod::lemma_mod_twice(track_index(t) + n - 1, TRACK_COUNT as int);
    }
    assert(track_after(t, TRACK_COUNT as nat) == t) by {
        reveal_with_fuel(track_after, 10);
    }
}

/// The track that follows `current_track` in the playlist.
pub fn get_next_audio_track(current_track: &AudioTrack) -> (r: AudioTrack)
    ensures
        r == next_track(*current_track),
{
    match current_track {
        AudioTrack::MainMenuLoop => AudioTrack::GameplayLoop2,
        AudioTrack::GameplayLoop2 => AudioTrack::GameplayLoop3,
        AudioTrack::GameplayLoop3 => AudioTrack::GameplayLoop4,
        AudioTrack::GameplayLoop4 => AudioTrack::GameplayLoop5,
        AudioTrack::GameplayLoop5 => AudioTrack::GameplayLoop6,
        AudioTrack::GameplayLoop6 => AudioTrack::GameplayLoop7,
        AudioTrack::GameplayLoop7 => AudioTrack::GameplayLoop8,
        AudioTrack::GameplayLoop8 => AudioTrack::SoftLoopForDialog,
        AudioTrack::SoftLoopForDialog => AudioTrack::MainMenuLoop,
    }
}

/// The asset file of a track.
pub open spec fn track_file(t: AudioTrack) -> Seq<char> {
    match t {
        AudioTrack::MainMenuLoop => "sound/ogg/Shooter Synthwave 1 Loop.ogg"@,
        AudioTrack::GameplayLoop2 => "sound/ogg/Shooter Synthwave 2 Loop.ogg"@,
        AudioTrack::GameplayLoop3 => "sound/ogg/Shooter Synthwave 3 Loop.ogg"@,
        AudioTrack::GameplayLoop4 => "sound/ogg/Shooter Synthwave 4 Loop.ogg"@,
        AudioTrack::GameplayLoop5 => "sound/ogg/Shooter Synthwave 5 Loop.ogg"@,
        AudioTrack::GameplayLoop6 => "sound/ogg/Shooter Synthwave 6 Loop.ogg"@,
        AudioTrack::GameplayLoop7 => "sound/ogg/Shooter Synthwave 7 Loop.ogg"@,
        AudioTrack::GameplayLoop8 => "sound/ogg/Shooter Synthwave 8 Loop.ogg"@,
        AudioTrack::SoftLoopForDialog => "sound/ogg/(Soft Loop For Dialogues, Pause or Other Things) 9.ogg"@,
    }
}

/// The asset file that holds `track`.
pub fn audio_track_path(track: &AudioTrack) -> (r: &'static str)
    ensures
        r@ == track_file(*track),
{
    match track {
        AudioTrack::MainMenuLoop => "sound/ogg/Shooter Synthwave 1 Loop.ogg",
        AudioTrack::GameplayLoop2 => "sound/ogg/Shooter Synthwave 2 Loop.ogg",
        AudioTrack::GameplayLoop3 => "sound/ogg/Shooter Synthwave 3 Loop.ogg",
        AudioTrack::GameplayLoop4 => "sound/ogg/Shooter Synthwave 4 Loop.ogg",
        AudioTrack::GameplayLoop5 => "sound/ogg/Shooter Synthwave 5 Loop.ogg",
        AudioTrack::GameplayLoop6 => "sound/ogg/Shooter Synthwave 6 Loop.ogg",
        AudioTrack::GameplayLoop7 => "sound/ogg/Shooter Synthwave 7 Loop.ogg",
        AudioTrack::GameplayLoop8 => "sound/ogg/Shooter Synthwave 8 Loop.ogg",
        AudioTrack::SoftLoopForDialog => "sound/ogg/(Soft Loop For Dialogues, Pause or Other Things) 9.ogg",
    }
}

/// The music that starts with the game: the main menu loop.
pub fn initial_audio_playback() -> (r: TrackSwitchEvent)
    ensures
        r.track == AudioTrack::MainMenuLoop,
{
    TrackSwitchEvent { track: AudioTrack::MainMenuLoop }
}

/// One frame of the playlist control: a press of the switch key moves
/// `current_track` to the next track and asks for it to play.
pub fn cycle_sound_system(switch_pressed: bool, current_track: &mut AudioTrack) -> (r: Option<TrackSwitchEvent>)
    ensures
        switch_pressed ==> *final(current_track) == next_track(*old(current_track)) && r == Some(
            TrackSwitchEvent { track: next_track(*old(current_track)) },
        ),
        !switch_pressed ==> *final(current_track) == *old(current_track) && r is None,
{
    if switch_pressed {
        let next = get_next_audio_track(current_track);
        *current_track = next;
        Some(TrackSwitchEvent { track: next })
    } else {
        None
    }
}

} // verus!
