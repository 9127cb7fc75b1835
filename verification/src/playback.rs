//! What the provider's player reports, and which of the user's commands it has carried out.
//!
//! Positions in a recording and readings of the clock are in microseconds.
use crate::clock::{elapsed, elapsed_since};
use crate::text::{decimal, decimal_text, digit, lemma_decimal_number, lemma_digit_value, number};
use vstd::prelude::*;

verus! {

/// How long a document may take to load.
pub const WRAPPER_LOAD_TIMEOUT: u64 = 25_000_000;

/// When an unanswered command is sent once more.
pub const COMMAND_RETRY_AFTER: u64 = 4_000_000;

/// When an unanswered command is given up.
pub const COMMAND_TIMEOUT: u64 = 30_000_000;

pub const VISIBLE_STATE_INTERVAL: u64 = 100_000;

pub const HIDDEN_STATE_INTERVAL: u64 = 500_000;

/// When an unanswered state request means that the renderer hangs.
pub const STATE_POLL_TIMEOUT: u64 = 30_000_000;

/// How long a sample of the player's state says something of the present.
pub const FRESH_FOR: u64 = 2_000_000;

/// How long the media set-up may go on once the player reports itself ready.
pub const READY_SETTLE: u64 = 500_000;

/// The longest recording: a week.
pub const MAX_POSITION: i64 = 604_800_000_000;

// ---------------------------------------------------------------- state requests

/// What a tick does about the player's state.
#[derive(Clone, Copy, Debug, PartialEq, Eq, Structural)]
pub enum StatePoll {
    Waiting(u64),
    Pending,
    Started,
}

pub open spec fn poll_interval(visible: bool) -> u64 {
    if visible { VISIBLE_STATE_INTERVAL } else { HIDDEN_STATE_INTERVAL }
}

pub fn state_poll_interval(visible: bool) -> (interval: u64)
    ensures
        interval == poll_interval(visible),
{
    if visible { VISIBLE_STATE_INTERVAL } else { HIDDEN_STATE_INTERVAL }
}

/// What is left of the interval since the last request.
pub open spec fn poll_wait(last: Option<u64>, now: u64, visible: bool) -> u64 {
    match last {
        Some(at) => if elapsed_since(at, now) < poll_interval(visible) {
            (poll_interval(visible) - elapsed_since(at, now)) as u64
        } else {
            0
        },
        None => 0,
    }
}

pub open spec fn poll_decision(last: Option<u64>, pending: bool, now: u64, visible: bool) -> StatePoll {
    if pending {
        StatePoll::Pending
    } else if poll_wait(last, now, visible) > 0 {
        StatePoll::Waiting(poll_wait(last, now, visible))
    } else {
        StatePoll::Started
    }
}

/// Starts a state request where none is outstanding and the interval has passed.
pub fn begin_state_poll(last: &mut Option<u64>, pending: &mut bool, now: u64, visible: bool) -> (poll: StatePoll)
    ensures
        poll == poll_decision(*old(last), *old(pending), now, visible),
        *final(last) == if poll == StatePoll::Started { Some(now) } else { *old(last) },
        *final(pending) == (*old(pending) || poll == StatePoll::Started),
{
    if *pending {
        return StatePoll::Pending;
    }
    let interval: u64 = state_poll_interval(visible);
    if let Some(at) = *last {
        let since: u64 = elapsed(at, now);
        if since < interval {
            return StatePoll::Waiting(interval - since);
        }
    }
    *pending = true;
    *last = Some(now);
    StatePoll::Started
}

// ---------------------------------------------------------------- samples

/// One sample of the provider's player, with the native requests that still wait.
#[derive(Clone, Copy, Debug, PartialEq, Eq, Structural)]
pub struct PlaybackState {
    pub ready: bool,
    pub position: i64,
    pub playing: bool,
    pub buffering: bool,
    /// The provider announced a pause; never a settled state by itself.
    pub pause_intent: bool,
    /// The provider announced playback against a paused request; no acknowledgement either.
    pub play_intent: bool,
    pub seeking: Option<i64>,
    /// A native action that still waits for a fresh sample.
    pub playback_intent: Option<bool>,
    pub polled_at: Option<u64>,
    pub poll_finished_at: Option<u64>,
    /// The provider refuses to play without a gesture of its own.
    pub blocked: bool,
    /// Counts the jumps made at the provider, where the player page counts them.
    pub provider_seek_generation: Option<u64>,
    /// Whether the provider's media element is jumping, where that is known.
    pub media_seeking: Option<bool>,
}

impl Default for PlaybackState {
    fn default() -> (state: PlaybackState)
        ensures
            state == PlaybackState::initial(),
    {
        PlaybackState {
            ready: false,
            position: 0,
            playing: false,
            buffering: false,
            pause_intent: false,
            play_intent: false,
            seeking: None,
            playback_intent: None,
            polled_at: None,
            poll_finished_at: None,
            blocked: false,
            provider_seek_generation: None,
            media_seeking: None,
        }
    }
}

impl PlaybackState {
    /// The state before any sample.
    pub open spec fn initial() -> PlaybackState {
        PlaybackState {
            ready: false,
            position: 0,
            playing: false,
            buffering: false,
            pause_intent: false,
            play_intent: false,
            seeking: None,
            playback_intent: None,
            polled_at: None,
            poll_finished_at: None,
            blocked: false,
            provider_seek_generation: None,
            media_seeking: None,
        }
    }

    pub open spec fn fresh(self, now: u64) -> bool {
        self.polled_at is Some && elapsed_since(self.polled_at->0, now) < FRESH_FOR
    }

    pub open spec fn fresh_since(self, since: u64, now: u64) -> bool {
        self.fresh(now) && self.polled_at->0 >= since
    }

    pub open spec fn fresh_after(self, since: u64, now: u64) -> bool {
        self.fresh(now) && self.polled_at->0 > since
    }

    /// Whether the sample is recent.
    pub fn is_fresh(&self, now: u64) -> (fresh: bool)
        ensures
            fresh == self.fresh(now),
    {
        match self.polled_at {
            Some(at) => elapsed(at, now) < FRESH_FOR,
            None => false,
        }
    }

    /// Whether the sample is recent and was asked for no earlier than `since`.
    pub fn is_fresh_since(&self, since: u64, now: u64) -> (fresh: bool)
        ensures
            fresh == self.fresh_since(since, now),
    {
        match self.polled_at {
            Some(at) => elapsed(at, now) < FRESH_FOR && at >= since,
            None => false,
        }
    }

    /// Whether the sample is recent and was asked for later than `since`: equal readings
    /// cannot tell which came first.
    pub fn is_fresh_after(&self, since: u64, now: u64) -> (fresh: bool)
        ensures
            fresh == self.fresh_after(since, now),
    {
        match self.polled_at {
            Some(at) => elapsed(at, now) < FRESH_FOR && at > since,
            None => false,
        }
    }

    /// The two readings of the clock between which the player was read.
    pub open spec fn window(self) -> Option<(u64, u64)> {
        match (self.polled_at, self.poll_finished_at) {
            (Some(start), Some(end)) => if start <= end {
                Some((start, end))
            } else {
                None
            },
            _ => None,
        }
    }

    /// The request and the callback between which the player was read.
    pub fn observation_window(&self) -> (window: Option<(u64, u64)>)
        ensures
            window == self.window(),
    {
        match (self.polled_at, self.poll_finished_at) {
            (Some(start), Some(end)) => if start <= end {
                Some((start, end))
            } else {
                None
            },
            _ => None,
        }
    }

    /// Dates the sample: asked for at `start`, answered at `end`.
    pub fn mark_polled_between(&mut self, start: u64, end: u64)
        ensures
            *final(self) == (PlaybackState { polled_at: Some(start), poll_finished_at: Some(end), ..*old(self) }),
    {
        self.polled_at = Some(start);
        self.poll_finished_at = Some(end);
    }

    /// Dates the sample at one reading of the clock.
    pub fn mark_polled_at(&mut self, at: u64)
        ensures
            *final(self) == (PlaybackState { polled_at: Some(at), poll_finished_at: Some(at), ..*old(self) }),
    {
        self.mark_polled_between(at, at);
    }
}

/// Whether `next` may replace `current`: it is dated, and asked for no earlier.
pub open spec fn supersedes(current: PlaybackState, next: PlaybackState) -> bool {
    next.polled_at is Some && !(current.polled_at is Some && current.polled_at->0 > next.polled_at->0)
}

/// Keeps the sample that was asked for last: callbacks may come out of order.
pub fn publish_playback_state(state: &mut PlaybackState, next: PlaybackState) -> (published: bool)
    ensures
        published == supersedes(*old(state), next),
        *final(state) == if published { next } else { *old(state) },
{
    match next.polled_at {
        None => false,
        Some(polled_at) => {
            if let Some(previous) = state.polled_at {
                if previous > polled_at {
                    return false;
                }
            }
            *state = next;
            true
        },
    }
}

// ---------------------------------------------------------------- commands

#[derive(Clone, Copy, Debug, PartialEq, Eq, Structural)]
pub enum PlaybackCommand {
    Seek(i64),
    SeekPaused(i64),
    Play,
    Pause,
}

/// The whole milliseconds nearest to `micros`, the even ones at a tie.
pub open spec fn nearest_milli(micros: int) -> int {
    let whole = micros / 1000;
    let rest = micros % 1000;
    if rest > 500 || (rest == 500 && whole % 2 == 1) { whole + 1 } else { whole }
}

/// `n`, which is below a thousand, in three digits.
pub open spec fn three_digits(n: nat) -> Seq<char> {
    seq![digit(n / 100), digit(n / 10 % 10), digit(n % 10)]
}

/// A position as seconds with three digits behind the point.
pub open spec fn position_text(micros: int) -> Seq<char> {
    let millis = nearest_milli(micros) as nat;
    decimal(millis / 1000) + "."@ + three_digits(millis % 1000)
}

pub open spec fn valid_position(position: int) -> bool {
    0 <= position <= MAX_POSITION
}

pub open spec fn valid_command(command: PlaybackCommand) -> bool {
    match command {
        PlaybackCommand::Seek(position) => valid_position(position as int),
        PlaybackCommand::SeekPaused(position) => valid_position(position as int),
        _ => true,
    }
}

/// The call that the player page understands.
pub open spec fn call_text(command: PlaybackCommand) -> Seq<char> {
    match command {
        PlaybackCommand::Seek(position) => "seek("@ + position_text(position as int) + ",true)"@,
        PlaybackCommand::SeekPaused(position) => "seek("@ + position_text(position as int) + ",false)"@,
        PlaybackCommand::Play => "play()"@,
        PlaybackCommand::Pause => "pause()"@,
    }
}

fn three_digit_text(n: u64) -> (out: String)
    requires
        n < 1000,
    ensures
        out@ == three_digits(n as nat),
{
    let out = decimal_text(n / 100).concat(&decimal_text(n / 10 % 10)).concat(&decimal_text(n % 10));
    assert(out@ =~= three_digits(n as nat));
    out
}

/// The script call for a command; positions outside a recording are refused.
pub fn playback_call(command: PlaybackCommand) -> (result: Result<String, String>)
    ensures
        result is Ok == valid_command(command),
        match result {
            Ok(call) => call@ == call_text(command),
            Err(message) => message@ == "Invalid replay position."@,
        },
{
    let (position, resume): (i64, bool) = match command {
        PlaybackCommand::Seek(position) => (position, true),
        PlaybackCommand::SeekPaused(position) => (position, false),
        PlaybackCommand::Play => {
            return Ok(String::from_str("play()"));
        },
        PlaybackCommand::Pause => {
            return Ok(String::from_str("pause()"));
        },
    };
    if position < 0 || position > MAX_POSITION {
        return Err(String::from_str("Invalid replay position."));
    }
    let micros: u64 = position as u64;
    let whole: u64 = micros / 1000;
    let rest: u64 = micros % 1000;
    let millis: u64 = if rest > 500 || (rest == 500 && whole % 2 == 1) { whole + 1 } else { whole };
    assert(millis == nearest_milli(position as int));
    let seconds = decimal_text(millis / 1000).concat(".").concat(&three_digit_text(millis % 1000));
    let tail = if resume { ",true)" } else { ",false)" };
    Ok(String::from_str("seek(").concat(&seconds).concat(tail))
}

/// A jump that the player has not confirmed.
#[derive(Clone, Copy, Debug, PartialEq, Eq, Structural)]
pub struct PendingSeek {
    pub target: i64,
    pub resume: bool,
    pub requested: u64,
}

/// A change between playing and paused that the player has not confirmed.
#[derive(Clone, Copy, Debug, PartialEq, Eq, Structural)]
pub struct PendingPlayback {
    pub playing: bool,
    pub requested: u64,
}

/// Whether the user's pause at the provider is newer than a native request to play.
pub open spec fn provider_paused(
    state: PlaybackState,
    pending: Option<PendingPlayback>,
    seeking: bool,
    now: u64,
) -> bool {
    &&& pending is Some && pending->0.playing
    &&& !seeking
    &&& state.ready && state.pause_intent && !state.playing
    &&& state.fresh_after(pending->0.requested, now)
}

pub fn newer_provider_pause(state: &PlaybackState, pending: Option<PendingPlayback>, seeking: bool, now: u64) -> (newer:
    bool)
    ensures
        newer == provider_paused(*state, pending, seeking, now),
{
    match pending {
        Some(request) => request.playing && !seeking && state.ready && state.pause_intent && !state.playing
            && state.is_fresh_after(request.requested, now),
        None => false,
    }
}

/// How far past its target a resumed video may be when it is first seen there.
pub open spec fn landing_window(waited: u64) -> int {
    if waited + 500_000 < 2_000_000 {
        2_000_000
    } else if waited + 500_000 > 15_000_000 {
        15_000_000
    } else {
        waited + 500_000
    }
}

/// Whether the player settled at the target of a jump, `waited` after it was asked for.
pub open spec fn landed(target: i64, resume: bool, waited: u64, state: PlaybackState) -> bool {
    &&& state.ready
    &&& state.playing == resume
    &&& !state.buffering
    &&& if resume {
        target - 250_000 <= state.position <= target + landing_window(waited)
    } else {
        -250_000 <= state.position - target <= 250_000
    }
}

pub fn seek_landed(target: i64, resume: bool, waited: u64, state: &PlaybackState) -> (there: bool)
    ensures
        there == landed(target, resume, waited, *state),
{
    if !state.ready || state.playing != resume || state.buffering {
        return false;
    }
    let past: i128 = state.position as i128 - target as i128;
    let window: i128 = if waited < 1_500_000 {
        2_000_000
    } else if waited > 14_500_000 {
        15_000_000
    } else {
        waited as i128 + 500_000
    };
    if resume {
        -250_000 <= past && past <= window
    } else {
        -250_000 <= past && past <= 250_000
    }
}

/// A jump is done when a fresh sample, asked for after it, shows the player settled there.
pub open spec fn seek_done(seek: PendingSeek, state: PlaybackState, now: u64) -> bool {
    state.fresh_since(seek.requested, now) && landed(
        seek.target,
        seek.resume,
        elapsed_since(seek.requested, now),
        state,
    )
}

pub fn seek_acknowledged(target: i64, resume: bool, requested: u64, state: &PlaybackState, now: u64) -> (done: bool)
    ensures
        done == seek_done(PendingSeek { target, resume, requested }, *state, now),
{
    state.is_fresh_since(requested, now) && seek_landed(target, resume, elapsed(requested, now), state)
}

/// Play or pause is done when a fresh sample, asked for after it, shows it settled.
pub open spec fn playback_done(request: PendingPlayback, state: PlaybackState, now: u64) -> bool {
    state.fresh_since(request.requested, now) && state.ready && !state.buffering && state.playing == request.playing
}

pub fn playback_acknowledged(playing: bool, requested: u64, state: &PlaybackState, now: u64) -> (done: bool)
    ensures
        done == playback_done(PendingPlayback { playing, requested }, *state, now),
{
    state.is_fresh_since(requested, now) && state.ready && !state.buffering && state.playing == playing
}

// ---------------------------------------------------------------- the command machine

/// The player's last sample and the commands that still wait for it.
#[derive(Clone, Copy, Debug, PartialEq, Eq, Structural)]
pub struct Transport {
    pub state: PlaybackState,
    pub last_state_poll: Option<u64>,
    pub state_pending: bool,
    pub queued_command: Option<PlaybackCommand>,
    pub ready_since: Option<u64>,
    pub pending_seek: Option<PendingSeek>,
    pub pending_playback: Option<PendingPlayback>,
    pub command_retried: bool,
}

/// Whether the video plays once the command is done.
pub open spec fn plays(command: PlaybackCommand) -> bool {
    command == PlaybackCommand::Play || command is Seek
}

/// The command that repeats a jump.
pub open spec fn seek_command(seek: PendingSeek) -> PlaybackCommand {
    if seek.resume {
        PlaybackCommand::Seek(seek.target)
    } else {
        PlaybackCommand::SeekPaused(seek.target)
    }
}

pub open spec fn play_or_pause(playing: bool) -> PlaybackCommand {
    if playing { PlaybackCommand::Play } else { PlaybackCommand::Pause }
}

fn play_or_pause_command(playing: bool) -> (command: PlaybackCommand)
    ensures
        command == play_or_pause(playing),
{
    if playing { PlaybackCommand::Play } else { PlaybackCommand::Pause }
}

/// What `recover_pending_command` found.
#[derive(Clone, Copy, Debug, PartialEq, Eq, Structural)]
pub enum Recovery {
    /// Nothing waits, or it is too early, or the player cannot take a command.
    Nothing,
    /// Send this command once more.
    Retry(PlaybackCommand),
    /// The command is given up; the video keeps its real position.
    GivenUp,
}

impl Transport {
    /// A player whose document has just begun to load.
    pub open spec fn opening(at: Option<i64>, paused: bool, created: u64) -> Transport {
        Transport {
            state: PlaybackState::initial(),
            last_state_poll: None,
            state_pending: false,
            queued_command: Some(play_or_pause(!paused)),
            ready_since: None,
            pending_seek: match at {
                Some(target) => Some(PendingSeek { target, resume: !paused, requested: created }),
                None => None,
            },
            pending_playback: match at {
                Some(_) => Some(PendingPlayback { playing: !paused, requested: created }),
                None => None,
            },
            command_retried: false,
        }
    }

    pub fn open(at: Option<i64>, paused: bool, created: u64) -> (playback: Transport)
        ensures
            playback == Transport::opening(at, paused, created),
    {
        let (pending_seek, pending_playback) = match at {
            Some(target) => (
                Some(PendingSeek { target, resume: !paused, requested: created }),
                Some(PendingPlayback { playing: !paused, requested: created }),
            ),
            None => (None, None),
        };
        Transport {
            state: PlaybackState::default(),
            last_state_poll: None,
            state_pending: false,
            queued_command: Some(play_or_pause_command(!paused)),
            ready_since: None,
            pending_seek,
            pending_playback,
            command_retried: false,
        }
    }

    /// The last sample with the requests that still wait.
    pub open spec fn reported(self) -> PlaybackState {
        PlaybackState {
            seeking: match self.pending_seek {
                Some(seek) => Some(seek.target),
                None => None,
            },
            playback_intent: match self.pending_playback {
                Some(request) => Some(request.playing),
                None => None,
            },
            ..self.state
        }
    }

    pub fn playback_state(&self) -> (state: PlaybackState)
        ensures
            state == self.reported(),
    {
        let mut state = self.state;
        state.seeking = match self.pending_seek {
            Some(seek) => Some(seek.target),
            None => None,
        };
        state.playback_intent = match self.pending_playback {
            Some(request) => Some(request.playing),
            None => None,
        };
        state
    }

    /// The jump that waits once `command` is given.
    pub open spec fn seek_after(self, command: PlaybackCommand, now: u64) -> Option<PendingSeek> {
        match command {
            PlaybackCommand::Seek(target) => Some(PendingSeek { target, resume: true, requested: now }),
            PlaybackCommand::SeekPaused(target) => Some(PendingSeek { target, resume: false, requested: now }),
            _ => match self.pending_seek {
                Some(seek) => Some(
                    PendingSeek { target: seek.target, resume: command == PlaybackCommand::Play, requested: now },
                ),
                None => None,
            },
        }
    }

    /// A new command replaces whatever was queued or waiting, but a jump that still waits
    /// keeps its target. Before the player is ready the command is queued.
    pub open spec fn commanded(self, command: PlaybackCommand, now: u64) -> Transport {
        let seek = self.seek_after(command, now);
        Transport {
            command_retried: false,
            pending_playback: Some(PendingPlayback { playing: plays(command), requested: now }),
            pending_seek: seek,
            queued_command: if self.state.ready {
                None
            } else {
                Some(
                    match seek {
                        Some(seek) => seek_command(seek),
                        None => command,
                    },
                )
            },
            ..self
        }
    }

    /// Takes a valid command; whether the player is ready for it.
    pub fn command(&mut self, command: PlaybackCommand, now: u64) -> (send: bool)
        ensures
            *final(self) == old(self).commanded(command, now),
            send == old(self).state.ready,
    {
        self.command_retried = false;
        let playing = match command {
            PlaybackCommand::Play | PlaybackCommand::Seek(_) => true,
            _ => false,
        };
        self.pending_playback = Some(PendingPlayback { playing, requested: now });
        self.pending_seek = match command {
            PlaybackCommand::Seek(target) => Some(PendingSeek { target, resume: true, requested: now }),
            PlaybackCommand::SeekPaused(target) => Some(PendingSeek { target, resume: false, requested: now }),
            PlaybackCommand::Play | PlaybackCommand::Pause => match self.pending_seek {
                Some(seek) => Some(PendingSeek { target: seek.target, resume: playing, requested: now }),
                None => None,
            },
        };
        if self.state.ready {
            self.queued_command = None;
            return true;
        }
        self.queued_command = Some(
            match self.pending_seek {
                Some(seek) => if seek.resume {
                    PlaybackCommand::Seek(seek.target)
                } else {
                    PlaybackCommand::SeekPaused(seek.target)
                },
                None => command,
            },
        );
        false
    }

    /// A newer pause at the provider cancels an older native request to play.
    pub open spec fn without_superseded_play(self, now: u64) -> Transport {
        if provider_paused(self.state, self.pending_playback, self.pending_seek is Some, now) {
            Transport { pending_playback: None, queued_command: None, command_retried: false, ..self }
        } else {
            self
        }
    }

    pub fn cancel_superseded_play(&mut self, now: u64)
        ensures
            *final(self) == old(self).without_superseded_play(now),
    {
        if newer_provider_pause(&self.state, self.pending_playback, self.pending_seek.is_some(), now) {
            self.pending_playback = None;
            self.queued_command = None;
            self.command_retried = false;
        }
    }

    /// When the player was first seen ready, as known at `now`.
    pub open spec fn ready_from(self, now: u64) -> Option<u64> {
        if self.state.ready && self.ready_since is None { Some(now) } else { self.ready_since }
    }

    /// The queued command that is due at `now`.
    pub open spec fn due(self, now: u64) -> Option<PlaybackCommand> {
        if self.state.ready && elapsed_since(self.ready_from(now)->0, now) >= READY_SETTLE {
            self.queued_command
        } else {
            None
        }
    }

    /// What is left once the due command was handed out.
    pub open spec fn after_due(self, now: u64) -> Transport {
        Transport {
            ready_since: self.ready_from(now),
            queued_command: if self.due(now) is Some { None } else { self.queued_command },
            ..self
        }
    }

    /// Hands out the queued command once the player has been ready long enough.
    pub fn take_due_command(&mut self, now: u64) -> (command: Option<PlaybackCommand>)
        ensures
            command == old(self).due(now),
            *final(self) == old(self).after_due(now),
    {
        if !self.state.ready {
            return None;
        }
        let since: u64 = match self.ready_since {
            Some(since) => since,
            None => now,
        };
        self.ready_since = Some(since);
        if elapsed(since, now) >= READY_SETTLE {
            let command = self.queued_command;
            self.queued_command = None;
            command
        } else {
            None
        }
    }

    /// What still waits after the last sample is held against it. A change between playing
    /// and paused is settled only once no jump waits.
    pub open spec fn acknowledged(self, now: u64) -> Transport {
        let seek = match self.pending_seek {
            Some(seek) => if seek_done(seek, self.reported(), now) { None } else { Some(seek) },
            None => None,
        };
        let play = match self.pending_playback {
            Some(request) => if seek is None && playback_done(request, self.reported(), now) {
                None
            } else {
                Some(request)
            },
            None => None,
        };
        Transport { pending_seek: seek, pending_playback: play, ..self }
    }

    pub fn acknowledge(&mut self, now: u64)
        ensures
            *final(self) == old(self).acknowledged(now),
    {
        if let Some(seek) = self.pending_seek {
            if seek_acknowledged(seek.target, seek.resume, seek.requested, &self.state, now) {
                self.pending_seek = None;
            }
        }
        if let Some(request) = self.pending_playback {
            if self.pending_seek.is_none() && playback_acknowledged(
                request.playing,
                request.requested,
                &self.state,
                now,
            ) {
                self.pending_playback = None;
            }
        }
    }

    /// Whether a command that waits may be sent a second time.
    pub open spec fn may_retry(self, now: u64, visible: bool, loaded: bool) -> bool {
        let requested = self.pending_playback->0.requested;
        &&& !self.command_retried
        &&& elapsed_since(requested, now) >= COMMAND_RETRY_AFTER
        &&& visible && loaded
        &&& self.state.ready && !self.state.buffering
        &&& self.state.fresh_since(requested, now)
    }

    pub open spec fn recovery(self, now: u64, visible: bool, loaded: bool) -> Recovery {
        match self.pending_playback {
            None => Recovery::Nothing,
            Some(request) => if elapsed_since(request.requested, now) >= COMMAND_TIMEOUT {
                Recovery::GivenUp
            } else if self.may_retry(now, visible, loaded) {
                Recovery::Retry(
                    match self.pending_seek {
                        Some(seek) => seek_command(seek),
                        None => play_or_pause(request.playing),
                    },
                )
            } else {
                Recovery::Nothing
            },
        }
    }

    pub open spec fn recovered(self, now: u64, visible: bool, loaded: bool) -> Transport {
        match self.recovery(now, visible, loaded) {
            Recovery::Nothing => self,
            Recovery::Retry(_) => Transport { command_retried: true, ..self },
            Recovery::GivenUp => Transport {
                pending_seek: None,
                pending_playback: None,
                queued_command: None,
                ..self
            },
        }
    }

    /// Sends a command that waits once more, or gives it up.
    pub fn recover_pending_command(&mut self, now: u64, visible: bool, loaded: bool) -> (recovery: Recovery)
        ensures
            recovery == old(self).recovery(now, visible, loaded),
            *final(self) == old(self).recovered(now, visible, loaded),
    {
        let request = match self.pending_playback {
            Some(request) => request,
            None => {
                return Recovery::Nothing;
            },
        };
        let waited: u64 = elapsed(request.requested, now);
        if waited >= COMMAND_TIMEOUT {
            self.pending_seek = None;
            self.pending_playback = None;
            self.queued_command = None;
            return Recovery::GivenUp;
        }
        if self.command_retried || waited < COMMAND_RETRY_AFTER || !visible || !loaded || !self.state.ready
            || !self.state.is_fresh_since(request.requested, now) || self.state.buffering {
            return Recovery::Nothing;
        }
        self.command_retried = true;
        Recovery::Retry(
            match self.pending_seek {
                Some(seek) => if seek.resume {
                    PlaybackCommand::Seek(seek.target)
                } else {
                    PlaybackCommand::SeekPaused(seek.target)
                },
                None => play_or_pause_command(request.playing),
            },
        )
    }
}

// ---------------------------------------------------------------- laws

/// Two state requests of one document are at least an interval apart.
pub proof fn state_reads_have_a_bounded_rate(first: u64, second: u64, visible: bool)
    requires
        poll_decision(Some(first), false, second, visible) == StatePoll::Started,
    ensures
        second >= first + poll_interval(visible),
{
}

/// While a request is outstanding no other starts, however long it takes.
pub proof fn requests_never_overlap(last: Option<u64>, now: u64, visible: bool)
    ensures
        poll_decision(last, true, now, visible) == StatePoll::Pending,
{
}

/// A sample that was asked for before a command neither lands its jump nor settles it, and
/// neither does one that is no longer fresh.
pub proof fn stale_samples_acknowledge_nothing(playback: Transport, now: u64)
    requires
        playback.state.polled_at is None || elapsed_since(playback.state.polled_at->0, now) >= FRESH_FOR || (
        playback.pending_seek is Some ==> playback.state.polled_at->0 < playback.pending_seek->0.requested) && (
        playback.pending_playback is Some ==> playback.state.polled_at->0 < playback.pending_playback->0.requested),
    ensures
        playback.acknowledged(now) == playback,
{
}

/// A command that waits is sent a second time at most once, and giving it up never
/// touches the reported position.
pub proof fn one_retry_then_given_up(
    playback: Transport,
    now: u64,
    later: u64,
    visible: bool,
    loaded: bool,
    visible_then: bool,
    loaded_then: bool,
)
    requires
        playback.recovery(now, visible, loaded) is Retry,
    ensures
        !(playback.recovered(now, visible, loaded).recovery(later, visible_then, loaded_then) is Retry),
        playback.recovered(now, visible, loaded).recovered(later, visible_then, loaded_then).state == playback.state,
{
}

/// The sample that is kept never goes back in time, and a dated sample that is refused is
/// older than the one that is kept.
pub proof fn samples_never_go_back(current: PlaybackState, next: PlaybackState)
    requires
        current.polled_at is Some,
        next.polled_at is Some,
    ensures
        supersedes(current, next) <==> next.polled_at->0 >= current.polled_at->0,
{
}

/// A pause at the provider cancels a native request to play, and acknowledges nothing: a
/// jump that waits goes on waiting.
pub proof fn provider_pause_only_cancels(playback: Transport, now: u64)
    ensures
        playback.without_superseded_play(now).pending_seek == playback.pending_seek,
        playback.without_superseded_play(now).state == playback.state,
        playback.pending_seek is Some ==> playback.without_superseded_play(now) == playback,
{
}

/// Play or pause while a jump waits keeps the jump's target, and what is queued before the
/// player is ready carries out the latest command at the latest target.
pub proof fn latest_command_keeps_target(playback: Transport, command: PlaybackCommand, now: u64)
    requires
        playback.pending_seek is Some,
        command == PlaybackCommand::Play || command == PlaybackCommand::Pause,
    ensures
        playback.commanded(command, now).pending_seek == Some(
            PendingSeek {
                target: playback.pending_seek->0.target,
                resume: command == PlaybackCommand::Play,
                requested: now,
            },
        ),
        !playback.state.ready ==> playback.commanded(command, now).queued_command == Some(
            if command == PlaybackCommand::Play {
                PlaybackCommand::Seek(playback.pending_seek->0.target)
            } else {
                PlaybackCommand::SeekPaused(playback.pending_seek->0.target)
            },
        ),
{
}

/// A jump that counts as landed is where it was sent: settled as asked, never more than a
/// quarter of a second before the target, and past it by no more than the video can have played
/// meanwhile.
pub proof fn landed_jumps_are_at_their_target(target: i64, resume: bool, waited: u64, state: PlaybackState)
    requires
        landed(target, resume, waited, state),
    ensures
        state.ready && !state.buffering && state.playing == resume,
        state.position >= target - 250_000,
        !resume ==> state.position <= target + 250_000,
        state.position <= target + 15_000_000,
        state.position > target + 2_000_000 ==> state.position <= target + waited + 500_000,
{
}

/// A settled video at the target has landed, and so has one that was resumed there and has
/// played on for no longer than was waited.
pub proof fn videos_at_their_target_have_landed(target: i64, resume: bool, waited: u64, state: PlaybackState)
    requires
        state.ready && !state.buffering && state.playing == resume,
        target - 250_000 <= state.position,
        state.position <= target + 250_000 || (resume && (state.position <= target + 2_000_000 || (state.position
            <= target + waited + 500_000 && state.position <= target + 15_000_000))),
    ensures
        landed(target, resume, waited, state),
{
}

/// Waiting longer never takes a landing back.
pub proof fn landings_outlast_the_wait(target: i64, resume: bool, waited: u64, longer: u64, state: PlaybackState)
    requires
        landed(target, resume, waited, state),
        waited <= longer,
    ensures
        landed(target, resume, longer, state),
{
}

/// A jump stops waiting exactly when the player's last sample, asked for after the jump and less
/// than two seconds old, shows it settled at the target; and what stops waiting was no other
/// jump's.
pub proof fn jumps_wait_until_they_are_seen(playback: Transport, now: u64)
    requires
        playback.pending_seek is Some,
    ensures
        ({
            let seek = playback.pending_seek->0;
            let after = playback.acknowledged(now);
            let state = playback.state;
            &&& after.pending_seek is Some ==> after.pending_seek == playback.pending_seek
            &&& after.pending_seek is Some ==> after.pending_playback == playback.pending_playback
            &&& after.pending_seek is None ==> {
                &&& state.polled_at is Some && state.polled_at->0 >= seek.requested && now < state.polled_at->0 + 2_000_000
                &&& state.ready && !state.buffering && state.playing == seek.resume
                &&& target_seen(seek.target, state.position)
            }
            &&& state.polled_at is Some && state.polled_at->0 >= seek.requested && now < state.polled_at->0 + 2_000_000
                && state.ready && !state.buffering && state.playing == seek.resume && -250_000 <= state.position
                - seek.target <= 250_000 ==> after.pending_seek is None
        }),
{
}

/// Whether a position can be that of a jump to `target`: at most a quarter of a second early, or
/// fifteen seconds late.
pub open spec fn target_seen(target: i64, position: i64) -> bool {
    target - 250_000 <= position <= target + 15_000_000
}

/// Play and pause stop waiting exactly when no jump waits and a sample, asked for after them and
/// less than two seconds old, shows them settled.
pub proof fn play_and_pause_wait_until_they_are_seen(playback: Transport, now: u64)
    requires
        playback.pending_playback is Some,
        playback.pending_seek is None,
    ensures
        ({
            let request = playback.pending_playback->0;
            let after = playback.acknowledged(now);
            let state = playback.state;
            after.pending_playback is None <==> (state.polled_at is Some && state.polled_at->0 >= request.requested && now
                < state.polled_at->0 + 2_000_000 && state.ready && !state.buffering && state.playing == request.playing)
        }),
        playback.acknowledged(now).state == playback.state,
        playback.acknowledged(now).queued_command == playback.queued_command,
{
}

/// A sample counts as fresh for two seconds after it was asked for, and only where it is dated.
pub proof fn samples_are_fresh_for_two_seconds(state: PlaybackState, since: u64, now: u64)
    ensures
        state.fresh(now) <==> state.polled_at is Some && now < state.polled_at->0 + 2_000_000,
        state.fresh_since(since, now) ==> state.fresh(now) && since <= state.polled_at->0,
        state.fresh_after(since, now) ==> state.fresh_since(since, now) && since != state.polled_at->0,
        state.fresh(now) && since < state.polled_at->0 ==> state.fresh_since(since, now) && state.fresh_after(since, now),
        state.fresh(now) && since == state.polled_at->0 ==> state.fresh_since(since, now) && !state.fresh_after(since, now),
{
}

/// A visible player is asked ten times a second at most, a hidden one twice; a first request
/// never waits, and one that waits starts exactly when its wait is over.
pub proof fn state_requests_keep_their_time(last: u64, now: u64, visible: bool, later: u64)
    ensures
        poll_decision(None, false, now, visible) == StatePoll::Started,
        poll_decision(Some(last), false, now, visible) == StatePoll::Started <==> now >= last + (if visible {
            100_000int
        } else {
            500_000
        }),
        match poll_decision(Some(last), false, now, visible) {
            StatePoll::Waiting(wait) => {
                &&& 0 < wait
                &&& now >= last && later == now + wait ==> poll_decision(Some(last), false, later, visible)
                    == StatePoll::Started
                &&& now >= last && now <= later < now + wait ==> poll_decision(Some(last), false, later, visible)
                    != StatePoll::Started
            },
            StatePoll::Pending => false,
            StatePoll::Started => true,
        },
{
}

/// A command is what waits next: its target, whether the video plays, and since when. It wipes
/// what was queued; a player that is not ready yet queues the command, with the target that
/// waits.
pub proof fn commands_replace_what_waits(playback: Transport, command: PlaybackCommand, now: u64)
    ensures
        ({
            let after = playback.commanded(command, now);
            &&& after.pending_playback is Some && after.pending_playback->0.requested == now
            &&& after.reported().playback_intent == Some(command == PlaybackCommand::Play || command is Seek)
            &&& command is Seek ==> after.reported().seeking == Some(command->Seek_0)
            &&& command is SeekPaused ==> after.reported().seeking == Some(command->SeekPaused_0)
            &&& command == PlaybackCommand::Play || command == PlaybackCommand::Pause ==> after.reported().seeking
                == playback.reported().seeking
            &&& after.pending_seek is Some ==> after.pending_seek->0.requested == now && after.pending_seek->0.resume
                == after.pending_playback->0.playing
            &&& playback.state.ready ==> after.queued_command is None
            &&& !playback.state.ready && playback.pending_seek is None ==> after.queued_command == Some(command)
            &&& !playback.state.ready && (command is Seek || command is SeekPaused) ==> after.queued_command == Some(command)
            &&& !after.command_retried
            &&& after.state == playback.state && after.state_pending == playback.state_pending && after.last_state_poll
                == playback.last_state_poll && after.ready_since == playback.ready_since
        }),
{
}

/// What is reported is the last sample, with nothing but the waiting requests put in: a position
/// is never made up.
pub proof fn reports_are_the_last_sample(playback: Transport)
    ensures
        playback.reported().position == playback.state.position,
        playback.reported().ready == playback.state.ready && playback.reported().playing == playback.state.playing,
        playback.reported().buffering == playback.state.buffering && playback.reported().blocked == playback.state.blocked,
        playback.reported().polled_at == playback.state.polled_at,
        playback.reported().seeking is Some <==> playback.pending_seek is Some,
        playback.pending_seek is Some ==> playback.reported().seeking == Some(playback.pending_seek->0.target),
        playback.reported().playback_intent is Some <==> playback.pending_playback is Some,
        playback.pending_playback is Some ==> playback.reported().playback_intent == Some(
            playback.pending_playback->0.playing,
        ),
{
}

/// A queued command is handed on once the player has been ready for half a second, and not
/// before.
pub proof fn queued_commands_wait_half_a_second(playback: Transport, now: u64)
    ensures
        playback.due(now) is Some ==> playback.due(now) == playback.queued_command && playback.state.ready
            && playback.ready_since is Some && now >= playback.ready_since->0 + 500_000,
        playback.state.ready && playback.ready_since is Some && now >= playback.ready_since->0 + 500_000
            ==> playback.due(now) == playback.queued_command,
        playback.state.ready && playback.ready_since is None ==> playback.ready_from(now) == Some(now),
        playback.ready_since is Some ==> playback.ready_from(now) == playback.ready_since,
{
}

/// A waiting command is given up after thirty seconds and never before; it is sent again after
/// four, for the same target and the same play state, to a visible, loaded player whose fresh
/// sample shows it ready.
pub proof fn waiting_commands_are_sent_again_or_given_up(playback: Transport, now: u64, visible: bool, loaded: bool)
    ensures
        playback.pending_playback is None ==> playback.recovery(now, visible, loaded) == Recovery::Nothing,
        playback.pending_playback is Some ==> {
            let requested = playback.pending_playback->0.requested;
            let recovery = playback.recovery(now, visible, loaded);
            let after = playback.recovered(now, visible, loaded);
            let able = !playback.command_retried && visible && loaded && playback.state.ready && !playback.state.buffering
                && playback.state.polled_at is Some && playback.state.polled_at->0 >= requested && now
                < playback.state.polled_at->0 + 2_000_000;
            &&& recovery is GivenUp <==> now >= requested + 30_000_000
            &&& recovery is Retry <==> requested + 4_000_000 <= now < requested + 30_000_000 && able
            &&& recovery is GivenUp ==> after.pending_seek is None && after.pending_playback is None
                && after.queued_command is None && after.state == playback.state
            &&& recovery is Retry ==> after.pending_seek == playback.pending_seek && after.pending_playback
                == playback.pending_playback && after.command_retried
            &&& recovery is Retry ==> match recovery->Retry_0 {
                PlaybackCommand::Seek(target) => playback.pending_seek is Some && playback.pending_seek->0.target == target
                    && playback.pending_seek->0.resume,
                PlaybackCommand::SeekPaused(target) => playback.pending_seek is Some
                    && playback.pending_seek->0.target == target && !playback.pending_seek->0.resume,
                PlaybackCommand::Play => playback.pending_seek is None && playback.pending_playback->0.playing,
                PlaybackCommand::Pause => playback.pending_seek is None && !playback.pending_playback->0.playing,
            }
        },
        playback.recovery(now, visible, loaded) == Recovery::Nothing ==> playback.recovered(now, visible, loaded)
            == playback,
{
}

/// A pause at the provider cancels a native request to play exactly where it is known to be the
/// newer one: a fresh sample, asked for later than the request, shows a ready player that is
/// paused and announced it.
pub proof fn only_a_newer_pause_cancels(playback: Transport, now: u64)
    ensures
        ({
            let after = playback.without_superseded_play(now);
            let state = playback.state;
            let newer = playback.pending_playback is Some && playback.pending_playback->0.playing && playback.pending_seek
                is None && state.ready && state.pause_intent && !state.playing && state.polled_at is Some
                && state.polled_at->0 > playback.pending_playback->0.requested && now < state.polled_at->0 + 2_000_000;
            &&& newer ==> after.pending_playback is None && after.queued_command is None
            &&& !newer ==> after == playback
        }),
{
}

/// Only positions within a week are sent, and play and pause always can be.
pub proof fn commands_stay_within_a_recording(command: PlaybackCommand)
    ensures
        match command {
            PlaybackCommand::Seek(position) => valid_command(command) <==> 0 <= position <= 7 * 24 * 3600 * 1_000_000,
            PlaybackCommand::SeekPaused(position) => valid_command(command) <==> 0 <= position <= 7 * 24 * 3600 * 1_000_000,
            _ => valid_command(command),
        },
{
}

/// The milliseconds that a position is sent in are never more than half of one away from it.
pub proof fn positions_are_sent_to_the_millisecond(micros: int)
    requires
        0 <= micros,
    ensures
        -500 <= nearest_milli(micros) * 1000 - micros <= 500,
        micros % 1000 == 0 ==> nearest_milli(micros) * 1000 == micros,
        micros % 1000 == 500 ==> nearest_milli(micros) % 2 == 0,
        number(position_text(micros).take(position_text(micros).len() - 4) + position_text(micros).skip(
            position_text(micros).len() - 3,
        )) == nearest_milli(micros),
        position_text(micros)[position_text(micros).len() - 4] == '.',
{
    let millis = nearest_milli(micros) as nat;
    let front = decimal(millis / 1000);
    let text = position_text(micros);
    reveal_strlit(".");
    let (a, b, c) = (digit(millis % 1000 / 100), digit(millis % 1000 / 10 % 10), digit(millis % 1000 % 10));
    assert(text =~= front + seq!['.', a, b, c]);
    let digits = text.take(text.len() - 4) + text.skip(text.len() - 3);
    assert(digits =~= front.push(a).push(b).push(c));
    lemma_decimal_number(millis / 1000);
    assert(digits.drop_last() =~= front.push(a).push(b));
    assert(front.push(a).push(b).drop_last() =~= front.push(a));
    assert(front.push(a).drop_last() =~= front);
    lemma_digit_value(millis % 1000 / 100);
    lemma_digit_value(millis % 1000 / 10 % 10);
    lemma_digit_value(millis % 1000 % 10);
    assert(number(front.push(a)) == number(front) * 10 + millis % 1000 / 100);
    assert(number(front.push(a).push(b)) == number(front.push(a)) * 10 + millis % 1000 / 10 % 10);
    assert(number(digits) == number(front.push(a).push(b)) * 10 + millis % 1000 % 10);
}

/// A command and its repetition ask for the same: the call says whether the video plays, and
/// different commands have different calls.
pub proof fn calls_tell_commands_apart(command: PlaybackCommand)
    ensures
        command == PlaybackCommand::Play ==> call_text(command) == "play()"@,
        command == PlaybackCommand::Pause ==> call_text(command) == "pause()"@,
        match command {
            PlaybackCommand::Seek(position) => call_text(command) == "seek("@ + position_text(position as int) + ",true)"@,
            PlaybackCommand::SeekPaused(position) => call_text(command) == "seek("@ + position_text(position as int)
                + ",false)"@,
            _ => true,
        },
{
}

/// A new document starts where it was asked to: the position waits from its creation, and the
/// first command plays it unless it is to be paused.
pub proof fn players_open_where_asked(at: Option<i64>, paused: bool, created: u64)
    ensures
        ({
            let playback = Transport::opening(at, paused, created);
            &&& playback.reported().seeking == at
            &&& playback.queued_command == Some(if paused { PlaybackCommand::Pause } else { PlaybackCommand::Play })
            &&& at is Some ==> playback.pending_seek->0.resume == !paused && playback.pending_seek->0.requested == created
            &&& at is Some ==> playback.reported().playback_intent == Some(!paused)
            &&& at is None ==> playback.reported().playback_intent is None
            &&& !playback.state.ready && !playback.state_pending && playback.state.polled_at is None
        }),
{
}

/// A player was read between a request and a callback that does not come before it.
pub proof fn readings_lie_between_request_and_callback(state: PlaybackState)
    ensures
        match state.window() {
            Some((start, end)) => state.polled_at == Some(start) && state.poll_finished_at == Some(end) && start <= end,
            None => state.polled_at is None || state.poll_finished_at is None || state.polled_at->0
                > state.poll_finished_at->0,
        },
{
}

/// A queued command is handed out once; what is not due yet stays, and nothing else changes.
pub proof fn queued_commands_are_handed_out_once(playback: Transport, now: u64, later: u64)
    ensures
        playback.due(now) is Some ==> playback.due(now) == playback.queued_command && playback.after_due(now).queued_command
            is None && playback.after_due(now).due(later) is None,
        playback.due(now) is None ==> playback.after_due(now).queued_command == playback.queued_command,
        playback.after_due(now).pending_seek == playback.pending_seek && playback.after_due(now).pending_playback
            == playback.pending_playback && playback.after_due(now).state == playback.state,
{
}

} // verus!
