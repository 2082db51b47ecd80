//! The playback engine without its device: the commands of a session, the
//! worker's reaction to each of them, the seek offset, and the state that
//! the controller keeps about the one active session.

use crate::waveform::WaveForm;
use vstd::prelude::*;

verus! {

/// A seek position of one: the end of the track, in millionths.
pub const SEEK_ONE: u32 = 1_000_000;

/// Nanoseconds in a second.
pub const NANOS_PER_SEC: u128 = 1_000_000_000;

/// A transport command for the worker of a session. A seek carries its
/// position in millionths of the track.
#[derive(Clone, Copy, Debug, PartialEq, Eq, Structural)]
pub enum PlayerCommand {
    Play,
    Pause,
    Stop,
    Seek(u32),
}

/// A status that the worker reports back.
#[derive(Clone, Copy, Debug, PartialEq, Eq, Structural)]
pub enum PlayerMsg {
    /// The worker has stored the new value of the playing flag.
    PlayingStored,
    /// The queue has run out: the track is finished.
    SinkEmpty,
}

/// Why a request to the engine failed.
#[derive(Clone, Copy, Debug, PartialEq, Eq, Structural)]
pub enum PlaybackError {
    /// The file could not be decoded.
    DecodeError,
    /// There is no usable output device.
    DeviceError,
    /// No session is active.
    NoActiveSession,
}

/// A point in a track, as a duration from its start.
#[derive(Clone, Copy, Debug, PartialEq, Eq, Structural)]
pub struct SkipOffset {
    pub secs: u64,
    pub nanos: u32,
}

/// The duration of `samples` mono samples at `sample_rate`, scaled by
/// `fraction` millionths, in nanoseconds and rounded down.
pub open spec fn skip_nanos(samples: u64, sample_rate: u32, fraction: u32) -> int {
    (samples * fraction * 1000) / (sample_rate as int)
}

/// The offset at which playback resumes after a seek to `fraction`
/// millionths of a track of `samples` mono samples.
pub fn seek_offset(samples: u64, sample_rate: u32, fraction: u32) -> (offset: SkipOffset)
    requires
        sample_rate > 0,
        fraction <= SEEK_ONE,
    ensures
        offset.secs * NANOS_PER_SEC + offset.nanos == skip_nanos(samples, sample_rate, fraction),
        offset.nanos < NANOS_PER_SEC,
{
    assert(samples * fraction * 1000 <= 0xffff_ffff_ffff_ffff * 1_000_000_000) by (nonlinear_arith)
        requires
            0 <= samples <= 0xffff_ffff_ffff_ffff,
            0 <= fraction <= 1_000_000,
    ;
    assert(samples * fraction <= 0xffff_ffff_ffff_ffff * 1_000_000) by (nonlinear_arith)
        requires
            0 <= samples <= 0xffff_ffff_ffff_ffff,
            0 <= fraction <= 1_000_000,
    ;
    let scaled: u128 = (samples as u128) * (fraction as u128) * 1000;
    let nanos: u128 = scaled / (sample_rate as u128);
    assert(nanos <= scaled) by (nonlinear_arith)
        requires
            nanos == scaled / (sample_rate as u128),
            sample_rate > 0,
    ;
    let secs: u128 = nanos / NANOS_PER_SEC;
    let rest: u128 = nanos % NANOS_PER_SEC;
    assert(secs <= 0xffff_ffff_ffff_ffff) by (nonlinear_arith)
        requires
            secs == nanos / 1_000_000_000,
            nanos <= 0xffff_ffff_ffff_ffff * 1_000_000_000,
    ;
    SkipOffset { secs: secs as u64, nanos: rest as u32 }
}

/// The seek offset differs from the exact position by less than one
/// nanosecond; for a seek to the middle, twice the offset differs from the
/// whole duration by less than two.
pub proof fn lemma_seek_offset_is_close(samples: u64, sample_rate: u32, fraction: u32)
    requires
        sample_rate > 0,
    ensures
        skip_nanos(samples, sample_rate, fraction) * sample_rate <= samples * fraction * 1000,
        samples * fraction * 1000 < (skip_nanos(samples, sample_rate, fraction) + 1) * sample_rate,
        fraction == SEEK_ONE / 2 ==> 2 * skip_nanos(samples, sample_rate, fraction) * sample_rate
            <= samples * NANOS_PER_SEC < 2 * (skip_nanos(samples, sample_rate, fraction) + 1)
            * sample_rate,
{
    let x = samples * fraction * 1000;
    let d = sample_rate as int;
    vstd::arithmetic::div_mod::lemma_fundamental_div_mod(x, d);
    vstd::arithmetic::div_mod::lemma_mod_bound(x, d);
    let q = x / d;
    let r = x % d;
    assert(q * d <= x < (q + 1) * d) by (nonlinear_arith)
        requires
            x == d * q + r,
            0 <= r < d,
    ;
    if fraction == SEEK_ONE / 2 {
        assert(samples * 500_000 * 1000 * 2 == samples * 1_000_000_000) by (nonlinear_arith);
        assert(2 * q * d <= 2 * x < 2 * (q + 1) * d) by (nonlinear_arith)
            requires
                q * d <= x < (q + 1) * d,
        ;
    }
}

/// A seek to the start skips nothing, and a seek to the end skips the
/// whole duration.
pub proof fn lemma_seek_offset_ends(samples: u64, sample_rate: u32)
    requires
        sample_rate > 0,
    ensures
        skip_nanos(samples, sample_rate, 0) == 0,
        skip_nanos(samples, sample_rate, SEEK_ONE) == (samples * NANOS_PER_SEC) / (
        sample_rate as int),
{
    assert(samples * 0 * 1000 == 0) by (nonlinear_arith);
    assert(samples * 1_000_000 * 1000 == samples * 1_000_000_000) by (nonlinear_arith);
    assert(0int / (sample_rate as int) == 0) by (nonlinear_arith)
        requires
            sample_rate > 0,
    ;
}

/// Where the worker of a session stands.
#[derive(Clone, Copy, Debug, PartialEq, Eq, Structural)]
pub enum WorkerState {
    /// Started, no command seen yet.
    Idle,
    Playing,
    Paused,
    Stopped,
    /// The command channel is closed: the worker has left its loop and
    /// released the device.
    Closed,
}

/// What reaches the worker: a command, or the news that the command
/// channel is closed.
#[derive(Clone, Copy, Debug, PartialEq, Eq, Structural)]
pub enum WorkerEvent {
    Command(PlayerCommand),
    ChannelClosed,
}

/// One thing the worker does to the flag, the status channel or the queue.
#[derive(Clone, Copy, Debug, PartialEq, Eq, Structural)]
pub enum WorkerAction {
    /// Store the playing flag.
    StoreIsPlaying(bool),
    /// Post a status to the controller.
    Post(PlayerMsg),
    /// Drop what is queued.
    ClearQueue,
    /// Decode the file anew and queue it from the given offset.
    AppendSource(SkipOffset),
    /// Queue the empty unit that posts `SinkEmpty` when it is reached.
    AppendSentinel,
    /// Let the queue run.
    Resume,
    /// Hold the queue.
    Hold,
    /// Leave the loop and give the device back.
    Release,
}

/// The track that a worker plays.
#[derive(Clone, Copy, Debug, PartialEq, Eq, Structural)]
pub struct Track {
    /// Mono samples in the track.
    pub samples: u64,
    /// Samples per second.
    pub sample_rate: u32,
}

/// The start of the track.
pub open spec fn track_start() -> SkipOffset {
    SkipOffset { secs: 0, nanos: 0 }
}

/// The offset in `track` of a seek to `fraction`.
pub open spec fn offset_in(track: Track, fraction: u32) -> SkipOffset {
    let nanos = skip_nanos(track.samples, track.sample_rate, fraction);
    SkipOffset { secs: (nanos / 1_000_000_000) as u64, nanos: (nanos % 1_000_000_000) as u32 }
}

/// The state after an event. A closed worker stays closed.
pub open spec fn next_state(state: WorkerState, event: WorkerEvent) -> WorkerState {
    if state == WorkerState::Closed {
        WorkerState::Closed
    } else {
        match event {
            WorkerEvent::ChannelClosed => WorkerState::Closed,
            WorkerEvent::Command(PlayerCommand::Play) => WorkerState::Playing,
            WorkerEvent::Command(PlayerCommand::Pause) => WorkerState::Paused,
            WorkerEvent::Command(PlayerCommand::Stop) => WorkerState::Stopped,
            WorkerEvent::Command(PlayerCommand::Seek(_)) => WorkerState::Playing,
        }
    }
}

/// What the worker does on an event, in order. `queue_empty` tells whether
/// the queue holds nothing at that moment.
pub open spec fn actions_for(
    state: WorkerState,
    event: WorkerEvent,
    queue_empty: bool,
    track: Track,
) -> Seq<WorkerAction> {
    if state == WorkerState::Closed {
        Seq::empty()
    } else {
        match event {
            WorkerEvent::ChannelClosed => seq![WorkerAction::Release],
            WorkerEvent::Command(PlayerCommand::Play) => if queue_empty {
                seq![
                    WorkerAction::StoreIsPlaying(true),
                    WorkerAction::Post(PlayerMsg::PlayingStored),
                    WorkerAction::AppendSource(track_start()),
                    WorkerAction::AppendSentinel,
                    WorkerAction::Resume,
                ]
            } else {
                seq![
                    WorkerAction::StoreIsPlaying(true),
                    WorkerAction::Post(PlayerMsg::PlayingStored),
                    WorkerAction::Resume,
                ]
            },
            WorkerEvent::Command(PlayerCommand::Pause) => seq![
                WorkerAction::StoreIsPlaying(false),
                WorkerAction::Post(PlayerMsg::PlayingStored),
                WorkerAction::Hold,
            ],
            WorkerEvent::Command(PlayerCommand::Stop) => seq![
                WorkerAction::StoreIsPlaying(false),
                WorkerAction::Post(PlayerMsg::PlayingStored),
                WorkerAction::ClearQueue,
            ],
            WorkerEvent::Command(PlayerCommand::Seek(fraction)) => seq![
                WorkerAction::ClearQueue,
                WorkerAction::StoreIsPlaying(true),
                WorkerAction::Post(PlayerMsg::PlayingStored),
                WorkerAction::AppendSource(offset_in(track, fraction)),
                WorkerAction::AppendSentinel,
                WorkerAction::Resume,
            ],
        }
    }
}

/// Whether the worker can take the event: a seek lies within the track,
/// and the track has a sample rate.
pub open spec fn event_in_range(event: WorkerEvent, track: Track) -> bool {
    match event {
        WorkerEvent::Command(PlayerCommand::Seek(fraction)) => fraction <= SEEK_ONE
            && track.sample_rate > 0,
        _ => true,
    }
}

/// One turn of the worker's loop: the state it moves to and what it does,
/// in order. Events are taken one at a time, in the order of arrival.
pub fn worker_step(state: WorkerState, event: WorkerEvent, queue_empty: bool, track: Track) -> (turn:
    (WorkerState, Vec<WorkerAction>))
    requires
        event_in_range(event, track),
    ensures
        turn.0 == next_state(state, event),
        turn.1@ == actions_for(state, event, queue_empty, track),
{
    let mut actions: Vec<WorkerAction> = Vec::new();
    if state == WorkerState::Closed {
        assert(actions@ =~= Seq::empty());
        return (WorkerState::Closed, actions);
    }
    match event {
        WorkerEvent::ChannelClosed => {
            actions.push(WorkerAction::Release);
            assert(actions@ =~= actions_for(state, event, queue_empty, track));
            (WorkerState::Closed, actions)
        },
        WorkerEvent::Command(PlayerCommand::Play) => {
            actions.push(WorkerAction::StoreIsPlaying(true));
            actions.push(WorkerAction::Post(PlayerMsg::PlayingStored));
            if queue_empty {
                actions.push(WorkerAction::AppendSource(SkipOffset { secs: 0, nanos: 0 }));
                actions.push(WorkerAction::AppendSentinel);
            }
            actions.push(WorkerAction::Resume);
            assert(actions@ =~= actions_for(state, event, queue_empty, track));
            (WorkerState::Playing, actions)
        },
        WorkerEvent::Command(PlayerCommand::Pause) => {
            actions.push(WorkerAction::StoreIsPlaying(false));
            actions.push(WorkerAction::Post(PlayerMsg::PlayingStored));
            actions.push(WorkerAction::Hold);
            assert(actions@ =~= actions_for(state, event, queue_empty, track));
            (WorkerState::Paused, actions)
        },
        WorkerEvent::Command(PlayerCommand::Stop) => {
            actions.push(WorkerAction::StoreIsPlaying(false));
            actions.push(WorkerAction::Post(PlayerMsg::PlayingStored));
            actions.push(WorkerAction::ClearQueue);
            assert(actions@ =~= actions_for(state, event, queue_empty, track));
            (WorkerState::Stopped, actions)
        },
        WorkerEvent::Command(PlayerCommand::Seek(fraction)) => {
            let offset = seek_offset(track.samples, track.sample_rate, fraction);
            proof {
                let nanos = skip_nanos(track.samples, track.sample_rate, fraction);
                assert(nanos / 1_000_000_000 == offset.secs && nanos % 1_000_000_000
                    == offset.nanos) by {
                    vstd::arithmetic::div_mod::lemma_fundamental_div_mod_converse(
                        nanos,
                        1_000_000_000,
                        offset.secs as int,
                        offset.nanos as int,
                    );
                }
            }
            actions.push(WorkerAction::ClearQueue);
            actions.push(WorkerAction::StoreIsPlaying(true));
            actions.push(WorkerAction::Post(PlayerMsg::PlayingStored));
            actions.push(WorkerAction::AppendSource(offset));
            actions.push(WorkerAction::AppendSentinel);
            actions.push(WorkerAction::Resume);
            assert(actions@ =~= actions_for(state, event, queue_empty, track));
            (WorkerState::Playing, actions)
        },
    }
}

/// The state after a run of events, taken in order.
pub open spec fn state_after(state: WorkerState, events: Seq<WorkerEvent>) -> WorkerState
    decreases events.len(),
{
    if events.len() == 0 {
        state
    } else {
        next_state(state_after(state, events.drop_last()), events.last())
    }
}

/// Once the channel is closed the worker stays closed and does nothing
/// more, whatever arrives.
pub proof fn lemma_closed_is_terminal(events: Seq<WorkerEvent>, queue_empty: bool, track: Track)
    ensures
        state_after(WorkerState::Closed, events) == WorkerState::Closed,
        forall|event: WorkerEvent|
            actions_for(WorkerState::Closed, event, queue_empty, track) == Seq::<
                WorkerAction,
            >::empty(),
    decreases events.len(),
{
    if events.len() > 0 {
        lemma_closed_is_terminal(events.drop_last(), queue_empty, track);
    }
}

/// A worker that is not closed answers every command by storing the flag
/// and acknowledging it once, and the flag it stores says whether it now
/// plays.
pub proof fn lemma_command_is_acknowledged(
    state: WorkerState,
    command: PlayerCommand,
    queue_empty: bool,
    track: Track,
)
    requires
        state != WorkerState::Closed,
    ensures
        ({
            let event = WorkerEvent::Command(command);
            let actions = actions_for(state, event, queue_empty, track);
            let playing = next_state(state, event) == WorkerState::Playing;
            &&& actions.contains(WorkerAction::StoreIsPlaying(playing))
            &&& !actions.contains(WorkerAction::StoreIsPlaying(!playing))
            &&& actions.contains(WorkerAction::Post(PlayerMsg::PlayingStored))
            &&& next_state(state, event) != WorkerState::Closed
        }),
{
    let event = WorkerEvent::Command(command);
    let actions = actions_for(state, event, queue_empty, track);
    match command {
        PlayerCommand::Seek(_) => {
            assert(actions[1] == WorkerAction::StoreIsPlaying(true));
            assert(actions[2] == WorkerAction::Post(PlayerMsg::PlayingStored));
        },
        _ => {
            assert(actions[0] is StoreIsPlaying);
            assert(actions[1] == WorkerAction::Post(PlayerMsg::PlayingStored));
        },
    }
}

/// Position of the seek bar.
#[derive(Clone, Copy, Debug, PartialEq, Eq, Structural)]
pub struct Seekbar {
    /// Mono samples in the track.
    pub total: u64,
    /// Mono samples still to play.
    pub remaining: u64,
    /// Where the handle is being dragged to, in millionths.
    pub seeking: u32,
}

/// The transport controls.
#[derive(Clone, Copy, Debug, PartialEq, Eq, Structural)]
pub struct Controls {
    /// The controller's copy of the playing flag.
    pub is_playing: bool,
    pub seekbar: Option<Seekbar>,
}

/// The one active session.
#[derive(Debug)]
pub struct Session {
    /// Number of the session; each new session gets the next one.
    pub id: u64,
    /// The file it plays.
    pub path: String,
}

/// A decoded file: interleaved samples with their layout.
#[derive(Debug)]
pub struct Decoded {
    pub stream: Vec<i16>,
    pub channels: u16,
    pub sample_rate: u32,
}

/// What the caller does to start a session: spawn a worker for `session`
/// on `track`, drop the channel of the session before, and send `first`.
#[derive(Clone, Copy, Debug, PartialEq, Eq, Structural)]
pub struct SessionStart {
    pub session: u64,
    pub track: Track,
    pub first: PlayerCommand,
}

/// The controller's side of the engine.
#[derive(Debug)]
pub struct Player {
    pub waveform: Option<WaveForm>,
    pub controls: Controls,
    pub session: Option<Session>,
    /// Number that the next session gets.
    pub next_session: u64,
}

impl Controls {
    /// Controls with nothing playing and no seek bar.
    pub fn new() -> (controls: Controls)
        ensures
            controls == (Controls { is_playing: false, seekbar: None }),
    {
        Controls { is_playing: false, seekbar: None }
    }

    /// Records where the handle of the seek bar is dragged to. Without a
    /// seek bar nothing changes.
    pub fn seeking(&mut self, p: u32)
        ensures
            final(self).is_playing == old(self).is_playing,
            final(self).seekbar == match old(self).seekbar {
                Some(bar) => Some(Seekbar { total: bar.total, remaining: bar.remaining, seeking: p }),
                None => None,
            },
    {
        match self.seekbar {
            Some(bar) => {
                self.seekbar = Some(Seekbar { total: bar.total, remaining: bar.remaining, seeking: p });
            },
            None => {},
        }
    }
}

/// The number of the session after session `id`. It starts over at zero
/// after the greatest value.
pub open spec fn next_session_id(id: u64) -> u64 {
    if id == u64::MAX {
        0
    } else {
        (id + 1) as u64
    }
}

/// What a successful load leaves behind: the active session, numbered
/// `next_session` and bound to `path`, and the number for the load after.
pub open spec fn load_result(next_session: u64, path: Seq<char>) -> (Option<(u64, Seq<char>)>, u64) {
    (Some((next_session, path)), next_session_id(next_session))
}

/// After two loads in a row exactly the second session is active: it is
/// bound to the second file, and its number differs from that of the
/// first, so that what the first worker still sends can be told apart.
pub proof fn lemma_second_load_supersedes(next_session: u64, first: Seq<char>, second: Seq<char>)
    ensures
        ({
            let (one, after_one) = load_result(next_session, first);
            let (two, after_two) = load_result(after_one, second);
            &&& two == Some((after_one, second))
            &&& one->Some_0.0 != two->Some_0.0
        }),
{
}

/// Whether a decoded file can be played.
pub open spec fn playable(source: Result<Decoded, PlaybackError>) -> bool {
    match source {
        Ok(decoded) => decoded.channels > 0,
        Err(_) => false,
    }
}

/// Why a source cannot be played: the error it came with, or a decode
/// error where it names no channel.
pub open spec fn refusal(source: Result<Decoded, PlaybackError>) -> PlaybackError {
    match source {
        Ok(_) => PlaybackError::DecodeError,
        Err(e) => e,
    }
}

/// What loading `path` does to the player. A source that cannot be played
/// is refused and leaves the player as it was. Otherwise the flag is set,
/// the waveform is the downmixed stream, the seek bar spans it, and the new
/// session is the active one.
pub open spec fn loaded(
    before: Player,
    path: Seq<char>,
    source: Result<Decoded, PlaybackError>,
    after: Player,
    started: Result<SessionStart, PlaybackError>,
) -> bool {
    if playable(source) {
        let decoded = source->Ok_0;
        let mono = crate::waveform::downmix(decoded.stream@, decoded.channels as int);
        let track = Track { samples: mono.len() as u64, sample_rate: decoded.sample_rate };
        &&& started == Ok::<SessionStart, PlaybackError>(
            SessionStart { session: before.next_session, track, first: PlayerCommand::Play },
        )
        &&& after.controls == (Controls {
            is_playing: true,
            seekbar: Some(Seekbar { total: track.samples, remaining: track.samples, seeking: 0 }),
        })
        &&& after.waveform is Some
        &&& after.waveform->Some_0.samples@ == mono
        &&& after.waveform->Some_0.sample_rate == decoded.sample_rate
        &&& after.waveform->Some_0.bits_per_sample == 16
        &&& after.waveform->Some_0.cache is None
        &&& (after.active(), after.next_session) == load_result(before.next_session, path)
    } else {
        &&& started == Err::<SessionStart, PlaybackError>(refusal(source))
        &&& after == before
    }
}

impl Player {
    /// The active session: its number and the file it plays.
    pub open spec fn active(&self) -> Option<(u64, Seq<char>)> {
        match self.session {
            Some(session) => Some((session.id, session.path@)),
            None => None,
        }
    }

    /// A player without a session.
    pub fn new() -> (player: Player)
        ensures
            player.waveform is None,
            player.session is None,
            player.controls == (Controls { is_playing: false, seekbar: None }),
            player.next_session == 0,
    {
        Player { waveform: None, controls: Controls::new(), session: None, next_session: 0 }
    }

    /// Loads a file and starts a session on it. `source` is what opening
    /// the device and decoding the file gave. On an error nothing changes
    /// and the session before goes on. Otherwise the flag is set, the
    /// waveform and the seek bar are replaced, and the session before is
    /// superseded by a new one on `file_path`.
    pub fn play_file(&mut self, file_path: String, source: Result<Decoded, PlaybackError>) -> (started:
        Result<SessionStart, PlaybackError>)
        ensures
            loaded(*old(self), file_path@, source, *final(self), started),
    {
        match source {
            Err(e) => Err(e),
            Ok(decoded) => {
                if decoded.channels == 0 {
                    return Err(PlaybackError::DecodeError);
                }
                let wave = WaveForm::from_interleaved(
                    &decoded.stream,
                    decoded.channels,
                    decoded.sample_rate,
                );
                let samples: u64 = wave.samples.len() as u64;
                let track = Track { samples, sample_rate: decoded.sample_rate };
                let id = self.next_session;
                self.controls.is_playing = true;
                self.controls.seekbar = Some(Seekbar { total: samples, remaining: samples, seeking: 0 });
                self.waveform = Some(wave);
                self.session = Some(Session { id, path: file_path });
                self.next_session = if id == u64::MAX {
                    0
                } else {
                    id + 1
                };
                Ok(SessionStart { session: id, track, first: PlayerCommand::Play })
            },
        }
    }

    /// The command to send to the active session, or the refusal where
    /// there is none.
    pub fn command(&self, command: PlayerCommand) -> (sent: Result<PlayerCommand, PlaybackError>)
        ensures
            sent == if self.session is Some {
                Ok::<PlayerCommand, PlaybackError>(command)
            } else {
                Err::<PlayerCommand, PlaybackError>(PlaybackError::NoActiveSession)
            },
    {
        if self.session.is_some() {
            Ok(command)
        } else {
            Err(PlaybackError::NoActiveSession)
        }
    }

    /// Asks the session to hold.
    pub fn pause(&self) -> (sent: Result<PlayerCommand, PlaybackError>)
        ensures
            sent == if self.session is Some {
                Ok::<PlayerCommand, PlaybackError>(PlayerCommand::Pause)
            } else {
                Err::<PlayerCommand, PlaybackError>(PlaybackError::NoActiveSession)
            },
    {
        self.command(PlayerCommand::Pause)
    }

    /// Asks the session to play.
    pub fn resume(&self) -> (sent: Result<PlayerCommand, PlaybackError>)
        ensures
            sent == if self.session is Some {
                Ok::<PlayerCommand, PlaybackError>(PlayerCommand::Play)
            } else {
                Err::<PlayerCommand, PlaybackError>(PlaybackError::NoActiveSession)
            },
    {
        self.command(PlayerCommand::Play)
    }

    /// Asks the session to stop.
    pub fn stop(&self) -> (sent: Result<PlayerCommand, PlaybackError>)
        ensures
            sent == if self.session is Some {
                Ok::<PlayerCommand, PlaybackError>(PlayerCommand::Stop)
            } else {
                Err::<PlayerCommand, PlaybackError>(PlaybackError::NoActiveSession)
            },
    {
        self.command(PlayerCommand::Stop)
    }

    /// Asks the session to go on from `p` millionths of the track.
    pub fn seek(&self, p: u32) -> (sent: Result<PlayerCommand, PlaybackError>)
        ensures
            sent == if self.session is Some {
                Ok::<PlayerCommand, PlaybackError>(PlayerCommand::Seek(p))
            } else {
                Err::<PlayerCommand, PlaybackError>(PlaybackError::NoActiveSession)
            },
    {
        self.command(PlayerCommand::Seek(p))
    }

    /// Whether a status that a worker of `session` sent belongs to the
    /// active session. What a superseded worker still sends does not.
    pub fn is_current(&self, session: u64) -> (current: bool)
        ensures
            current == (self.active() is Some && self.active()->Some_0.0 == session),
    {
        match &self.session {
            Some(active) => active.id == session,
            None => false,
        }
    }
}

} // verus!
