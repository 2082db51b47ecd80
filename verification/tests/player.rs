use tundra::callback::Callback;
use tundra::player::{
    seek_offset, worker_step, Controls, Decoded, PlaybackError, Player, PlayerCommand, PlayerMsg,
    Seekbar, SessionStart, SkipOffset, Track, WorkerAction, WorkerEvent, WorkerState, SEEK_ONE,
};

fn stereo(frames: usize, rate: u32) -> Decoded {
    Decoded { stream: vec![7; frames * 2], channels: 2, sample_rate: rate }
}

#[test]
fn seek_to_the_middle_skips_half_the_duration() {
    // 10 s at 44.1 kHz
    let offset = seek_offset(441_000, 44_100, SEEK_ONE / 2);
    assert_eq!(offset, SkipOffset { secs: 5, nanos: 0 });
    // 3 samples at 2 Hz last 1.5 s; half of it is 0.75 s
    let offset = seek_offset(3, 2, 500_000);
    assert_eq!(offset, SkipOffset { secs: 0, nanos: 750_000_000 });
}

#[test]
fn seek_offset_rounds_down_to_the_nanosecond() {
    // 1 sample at 3 Hz lasts a third of a second
    assert_eq!(seek_offset(1, 3, SEEK_ONE), SkipOffset { secs: 0, nanos: 333_333_333 });
    assert_eq!(seek_offset(1, 3, 500_000), SkipOffset { secs: 0, nanos: 166_666_666 });
    for (samples, rate, fraction) in
        [(1u64, 3u32, 500_000u32), (48_000, 48_000, 250_000), (u64::MAX, 1, SEEK_ONE), (12345, 7, 999_999)]
    {
        let o = seek_offset(samples, rate, fraction);
        let got = o.secs as u128 * 1_000_000_000 + o.nanos as u128;
        let exact = samples as u128 * fraction as u128 * 1000;
        assert!(got * rate as u128 <= exact);
        assert!(exact < (got + 1) * rate as u128);
        assert!(o.nanos < 1_000_000_000);
    }
}

#[test]
fn seek_to_the_ends() {
    assert_eq!(seek_offset(441_000, 44_100, 0), SkipOffset { secs: 0, nanos: 0 });
    assert_eq!(seek_offset(441_000, 44_100, SEEK_ONE), SkipOffset { secs: 10, nanos: 0 });
    assert_eq!(seek_offset(0, 44_100, SEEK_ONE), SkipOffset { secs: 0, nanos: 0 });
    assert_eq!(seek_offset(u64::MAX, 1, SEEK_ONE), SkipOffset { secs: u64::MAX, nanos: 0 });
}

const TRACK: Track = Track { samples: 441_000, sample_rate: 44_100 };

#[test]
fn play_on_an_empty_queue_loads_the_track() {
    let (state, actions) =
        worker_step(WorkerState::Idle, WorkerEvent::Command(PlayerCommand::Play), true, TRACK);
    assert_eq!(state, WorkerState::Playing);
    assert_eq!(
        actions,
        vec![
            WorkerAction::StoreIsPlaying(true),
            WorkerAction::Post(PlayerMsg::PlayingStored),
            WorkerAction::AppendSource(SkipOffset { secs: 0, nanos: 0 }),
            WorkerAction::AppendSentinel,
            WorkerAction::Resume,
        ]
    );
}

#[test]
fn play_on_a_filled_queue_only_resumes() {
    let (state, actions) =
        worker_step(WorkerState::Paused, WorkerEvent::Command(PlayerCommand::Play), false, TRACK);
    assert_eq!(state, WorkerState::Playing);
    assert_eq!(
        actions,
        vec![
            WorkerAction::StoreIsPlaying(true),
            WorkerAction::Post(PlayerMsg::PlayingStored),
            WorkerAction::Resume,
        ]
    );
}

#[test]
fn pause_holds_and_stop_clears() {
    let (state, actions) =
        worker_step(WorkerState::Playing, WorkerEvent::Command(PlayerCommand::Pause), false, TRACK);
    assert_eq!(state, WorkerState::Paused);
    assert_eq!(
        actions,
        vec![
            WorkerAction::StoreIsPlaying(false),
            WorkerAction::Post(PlayerMsg::PlayingStored),
            WorkerAction::Hold,
        ]
    );
    let (state, actions) =
        worker_step(WorkerState::Playing, WorkerEvent::Command(PlayerCommand::Stop), false, TRACK);
    assert_eq!(state, WorkerState::Stopped);
    assert_eq!(
        actions,
        vec![
            WorkerAction::StoreIsPlaying(false),
            WorkerAction::Post(PlayerMsg::PlayingStored),
            WorkerAction::ClearQueue,
        ]
    );
}

#[test]
fn seek_clears_reloads_from_the_offset_and_plays() {
    let (state, actions) = worker_step(
        WorkerState::Paused,
        WorkerEvent::Command(PlayerCommand::Seek(500_000)),
        false,
        TRACK,
    );
    assert_eq!(state, WorkerState::Playing);
    assert_eq!(
        actions,
        vec![
            WorkerAction::ClearQueue,
            WorkerAction::StoreIsPlaying(true),
            WorkerAction::Post(PlayerMsg::PlayingStored),
            WorkerAction::AppendSource(SkipOffset { secs: 5, nanos: 0 }),
            WorkerAction::AppendSentinel,
            WorkerAction::Resume,
        ]
    );
}

#[test]
fn closed_channel_ends_the_worker() {
    for state in [WorkerState::Idle, WorkerState::Playing, WorkerState::Paused, WorkerState::Stopped] {
        let (next, actions) = worker_step(state, WorkerEvent::ChannelClosed, false, TRACK);
        assert_eq!(next, WorkerState::Closed);
        assert_eq!(actions, vec![WorkerAction::Release]);
    }
    for event in [
        WorkerEvent::ChannelClosed,
        WorkerEvent::Command(PlayerCommand::Play),
        WorkerEvent::Command(PlayerCommand::Seek(1)),
    ] {
        let (next, actions) = worker_step(WorkerState::Closed, event, true, TRACK);
        assert_eq!(next, WorkerState::Closed);
        assert!(actions.is_empty());
    }
}

#[test]
fn commands_without_a_session_are_refused() {
    let p = Player::new();
    assert!(p.session.is_none());
    assert!(p.waveform.is_none());
    assert_eq!(p.controls, Controls { is_playing: false, seekbar: None });
    assert_eq!(p.pause(), Err(PlaybackError::NoActiveSession));
    assert_eq!(p.resume(), Err(PlaybackError::NoActiveSession));
    assert_eq!(p.stop(), Err(PlaybackError::NoActiveSession));
    assert_eq!(p.seek(10), Err(PlaybackError::NoActiveSession));
    assert!(!p.is_current(0));
}

#[test]
fn load_and_play_starts_a_session() {
    let mut p = Player::new();
    let started = p.play_file("/m/a.wav".to_string(), Ok(stereo(8, 48_000)));
    assert_eq!(
        started,
        Ok(SessionStart {
            session: 0,
            track: Track { samples: 8, sample_rate: 48_000 },
            first: PlayerCommand::Play,
        })
    );
    assert!(p.controls.is_playing);
    assert_eq!(p.controls.seekbar, Some(Seekbar { total: 8, remaining: 8, seeking: 0 }));
    assert_eq!(p.waveform.as_ref().unwrap().samples, vec![7; 8]);
    let session = p.session.as_ref().unwrap();
    assert_eq!(session.id, 0);
    assert_eq!(session.path, "/m/a.wav");
    assert_eq!(p.pause(), Ok(PlayerCommand::Pause));
    assert_eq!(p.resume(), Ok(PlayerCommand::Play));
    assert_eq!(p.stop(), Ok(PlayerCommand::Stop));
    assert_eq!(p.seek(250_000), Ok(PlayerCommand::Seek(250_000)));
}

#[test]
fn second_load_leaves_one_session_bound_to_the_second_file() {
    let mut p = Player::new();
    let first = p.play_file("/m/f1.wav".to_string(), Ok(stereo(4, 44_100))).unwrap();
    p.controls.is_playing = false;
    let second = p.play_file("/m/f2.wav".to_string(), Ok(stereo(6, 22_050))).unwrap();
    assert_ne!(first.session, second.session);
    let session = p.session.as_ref().unwrap();
    assert_eq!(session.path, "/m/f2.wav");
    assert_eq!(session.id, second.session);
    assert!(p.is_current(second.session));
    assert!(!p.is_current(first.session));
    assert!(p.controls.is_playing);
    assert_eq!(p.controls.seekbar.unwrap().total, 6);
    assert_eq!(p.waveform.as_ref().unwrap().sample_rate, 22_050);
}

#[test]
fn failed_load_leaves_the_session_before_running() {
    let mut p = Player::new();
    p.play_file("/m/f1.wav".to_string(), Ok(stereo(4, 44_100))).unwrap();
    for (source, error) in [
        (Err(PlaybackError::DecodeError), PlaybackError::DecodeError),
        (Err(PlaybackError::DeviceError), PlaybackError::DeviceError),
        (
            Ok(Decoded { stream: vec![1, 2], channels: 0, sample_rate: 1 }),
            PlaybackError::DecodeError,
        ),
    ] {
        assert_eq!(p.play_file("/m/bad.wav".to_string(), source), Err(error));
        let session = p.session.as_ref().unwrap();
        assert_eq!(session.path, "/m/f1.wav");
        assert_eq!(session.id, 0);
        assert_eq!(p.next_session, 1);
        assert_eq!(p.controls.seekbar.unwrap().total, 4);
    }
}

#[test]
fn seeking_moves_the_handle_only_where_there_is_a_bar() {
    let mut c = Controls::new();
    c.seeking(5);
    assert_eq!(c.seekbar, None);
    c.seekbar = Some(Seekbar { total: 10, remaining: 4, seeking: 0 });
    c.seeking(700_000);
    assert_eq!(c.seekbar, Some(Seekbar { total: 10, remaining: 4, seeking: 700_000 }));
}

#[test]
fn sentinel_is_an_empty_mono_source() {
    let c: Callback<PlayerMsg, i16> = Callback::new(PlayerMsg::SinkEmpty);
    assert_eq!(c.channels(), 1);
    assert_eq!(c.sample_rate(), 48000);
    assert_eq!(c.current_frame_len(), None);
    assert_eq!(c.total_duration(), Some(0));
    assert_eq!(c.next(), (None, PlayerMsg::SinkEmpty));
    // asking again gives the same
    assert_eq!(c.next(), (None, PlayerMsg::SinkEmpty));
}
