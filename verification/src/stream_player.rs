//! One media child: its document, its playback commands, its snapshots and its layout.
//!
//! The window itself is driven elsewhere. Every function here says what has to be done to
//! it, and takes what the window reports back.
use crate::address::{parse_address, segment_provider, text_of, url_address, Address, AddressView};
use crate::capture::{next_number, Bounds, MAX_ANSWER_BYTES, Controller, FrameCapture, Generations, Next};
use crate::clock::{elapsed, elapsed_since};
use crate::fullscreen;
use crate::playback::{
    begin_state_poll, call_text, playback_call, poll_decision, publish_playback_state, supersedes, valid_command,
    Transport, PlaybackCommand, PlaybackState, Recovery, StatePoll, MAX_POSITION, STATE_POLL_TIMEOUT,
    WRAPPER_LOAD_TIMEOUT,
};
use crate::player_address::{
    authorization, bearer, playback_request, read_request, same_video, shows_same_video, valid_player_address,
    validate_player_address, PlaybackRequest,
};
use crate::text::{last_segment, same_text};
use vstd::prelude::*;

verus! {

pub struct StreamPlayer {
    /// Whether the native child still exists.
    pub open: bool,
    pub allowed_url: String,
    pub bounds: Bounds,
    pub visible: bool,
    pub loaded: bool,
    pub created: u64,
    pub failure: Option<String>,
    /// Whether the provider's preferences are kept from the rest of the app.
    pub protected: bool,
    /// Counts the documents: callbacks of an earlier one are not heard.
    pub document: u64,
    pub playback: Transport,
    pub capture: Controller,
    pub fullscreen: fullscreen::Controller,
}

/// A new player and the header of its one authenticated request.
pub struct Opened {
    pub player: StreamPlayer,
    pub authorization: String,
}

/// The authenticated request that changes a player to another recording.
pub struct ReplayLoad {
    pub url: String,
    pub authorization: String,
    pub target: i64,
    pub resume: bool,
}

pub enum ReplayPlan {
    /// The same video: run this script, where there is one.
    Command(Option<String>),
    /// Another video: its preferences are to be protected, then it is loaded.
    Load(ReplayLoad),
}

/// What the window has to do for the commands and the state of its player.
pub struct PlaybackPlan {
    /// The script of the queued command that is due.
    pub forward: Option<String>,
    /// The script of a command that is sent a second time.
    pub retry: Option<String>,
    /// Whether to read the player's state; nothing before the document has loaded.
    pub poll: Option<StatePoll>,
}

/// The script that carries out a command in the player page.
pub open spec fn script_text(command: PlaybackCommand) -> Seq<char> {
    "if(window.brickMedia) window.brickMedia."@ + call_text(command)
}

/// Why a player cannot take a command.
pub open spec fn command_refusal(open: bool, command: PlaybackCommand) -> Option<Seq<char>> {
    if !valid_command(command) {
        Some("Invalid replay position."@)
    } else if !open {
        Some("The player has closed."@)
    } else {
        None
    }
}

/// The content of a parsed address, where there is one.
pub open spec fn address_view(address: Option<Address>) -> Option<AddressView> {
    match address {
        Some(address) => Some(address@),
        None => None,
    }
}

/// A position of an address, in milliseconds, as a position of the player.
pub open spec fn target_of(request: PlaybackRequest) -> Option<i64> {
    match request.at {
        Some(millis) => Some((millis * 1000) as i64),
        None => None,
    }
}

fn target_micros(request: &PlaybackRequest) -> (target: Option<i64>)
    requires
        request.at is Some ==> request.at->0 <= crate::player_address::MAX_POSITION_MS,
    ensures
        target == target_of(*request),
        target is Some ==> 0 <= target->0 <= MAX_POSITION,
{
    match request.at {
        Some(millis) => Some((millis * 1000) as i64),
        None => None,
    }
}

fn script(call: &str) -> (text: String)
    ensures
        text@ == "if(window.brickMedia) window.brickMedia."@ + call@,
{
    String::from_str("if(window.brickMedia) window.brickMedia.").concat(call)
}

impl StreamPlayer {
    pub open spec fn wf(self) -> bool {
        self.capture.wf()
    }

    /// Whether this is a fresh player for a validated address.
    pub open spec fn fresh_for(self, address: AddressView, bounds: Bounds, created: u64, generation: u64) -> bool {
        &&& self.allowed_url@ == address.text
        &&& self.open && self.visible && !self.loaded && self.protected
        &&& self.bounds == bounds
        &&& self.created == created
        &&& self.failure is None
        &&& self.document == 0
        &&& self.playback == Transport::opening(
            target_of(playback_request(address)),
            playback_request(address).paused,
            created,
        )
        &&& self.capture == (Controller {
            job: None,
            native_pending: false,
            last_requested: None,
            generation,
            jobs: 0,
        })
        &&& self.fullscreen == (fullscreen::Controller { active: false, enabled: true })
    }

    /// The answer to a request for a player at a validated address.
    pub open spec fn opened_as(
        result: Result<Opened, String>,
        address: AddressView,
        token: Seq<char>,
        bounds: Option<Bounds>,
        now: u64,
        before: Generations,
        after: Generations,
    ) -> bool {
        &&& result is Ok == (bounds is Some && bearer(token) is Ok)
        &&& match result {
            Ok(opened) => {
                &&& opened.player.fresh_for(address, bounds->0, now, before.next)
                &&& opened.player.wf()
                &&& bearer(token) == Ok::<Seq<char>, Seq<char>>(opened.authorization@)
                &&& after.next == next_number(before.next)
            },
            Err(message) => {
                &&& after == before
                &&& message@ == if bounds is None {
                    "The stream player needs more room in the Brick window."@
                } else {
                    bearer(token)->Err_0
                }
            },
        }
    }

    /// A player for a validated address. There are no bounds where the window has no room.
    pub fn open(address: Address, token: &str, bounds: Option<Bounds>, now: u64, generations: &mut Generations) -> (result:
        Result<Opened, String>)
        ensures
            StreamPlayer::opened_as(result, address@, token@, bounds, now, *old(generations), *final(generations)),
    {
        let request = read_request(&address);
        proof {
            lemma_request_bounded(address@);
        }
        let bounds = match bounds {
            Some(bounds) => bounds,
            None => {
                return Err(String::from_str("The stream player needs more room in the Brick window."));
            },
        };
        let authorization = match authorization(token) {
            Ok(value) => value,
            Err(message) => {
                return Err(message);
            },
        };
        let target = target_micros(&request);
        let player = StreamPlayer {
            open: true,
            allowed_url: address.text,
            bounds,
            visible: true,
            loaded: false,
            created: now,
            failure: None,
            protected: true,
            document: 0,
            playback: Transport::open(target, request.paused, now),
            capture: Controller::new(generations),
            fullscreen: fullscreen::Controller::new(),
        };
        Ok(Opened { player, authorization })
    }

    /// A player for one address of the service at `configured`.
    pub fn new(
        url: &str,
        configured: &str,
        token: &str,
        bounds: Option<Bounds>,
        now: u64,
        generations: &mut Generations,
    ) -> (result: Result<Opened, String>)
        ensures
            if valid_player_address(url@, configured@) {
                StreamPlayer::opened_as(
                    result,
                    url_address(url@)->0,
                    token@,
                    bounds,
                    now,
                    *old(generations),
                    *final(generations),
                )
            } else {
                &&& result is Err && result->Err_0@ == "The stream player address is invalid."@
                &&& *final(generations) == *old(generations)
            },
    {
        match validate_player_address(url, configured) {
            Ok(address) => StreamPlayer::open(address, token, bounds, now, generations),
            Err(message) => Err(message),
        }
    }

    /// Whether another recording can take the place of the page at `present`.
    pub open spec fn reusable_at(self, present: Option<AddressView>) -> bool {
        self.protected && present is Some && segment_provider(last_segment(present->0.path)) is Some
    }

    pub open spec fn reusable(self) -> bool {
        self.reusable_at(url_address(self.allowed_url@))
    }

    /// Whether another recording can be loaded into this player.
    pub fn can_reuse_for_replay(&self) -> (reusable: bool)
        ensures
            reusable == self.reusable(),
    {
        self.protected && match parse_address(&self.allowed_url) {
            Some(address) => crate::address::provider(&address).is_some(),
            None => false,
        }
    }

    /// The player with its expanded view left, which also drops a snapshot under way.
    pub open spec fn unexpanded(self, generation: u64) -> StreamPlayer {
        if self.fullscreen.active {
            StreamPlayer {
                capture: self.capture.cancelled(generation),
                fullscreen: self.fullscreen.requested(false),
                ..self
            }
        } else {
            self
        }
    }

    /// Leaves the expanded view; whether the document has to be told.
    pub fn exit_fullscreen(&mut self, generations: &mut Generations) -> (left: bool)
        ensures
            left == old(self).fullscreen.active,
            *final(self) == old(self).unexpanded(old(generations).next),
            final(generations).next == if left { next_number(old(generations).next) } else { old(generations).next },
            old(self).wf() ==> final(self).wf(),
    {
        if !self.fullscreen.active() {
            return false;
        }
        self.capture.cancel(generations);
        self.fullscreen.request(false);
        true
    }

    pub fn is_fullscreen(&self) -> (active: bool)
        ensures
            active == self.fullscreen.active,
    {
        self.fullscreen.active()
    }

    /// The player after a command that it can take.
    pub open spec fn commanded(self, command: PlaybackCommand, now: u64, generation: u64) -> StreamPlayer {
        StreamPlayer {
            playback: self.playback.commanded(command, now),
            capture: self.capture.cancelled(generation),
            ..self
        }
    }

    /// Whether this is `before` given a command, and `result` is the answer.
    pub open spec fn commanded_from(
        self,
        before: StreamPlayer,
        command: PlaybackCommand,
        now: u64,
        numbers: (Generations, Generations),
        result: Result<Option<String>, String>,
    ) -> bool {
        match command_refusal(before.open, command) {
            Some(message) => {
                &&& result is Err && result->Err_0@ == message
                &&& self == before
                &&& numbers.1 == numbers.0
            },
            None => {
                &&& result is Ok && text_of(result->Ok_0) == if before.playback.state.ready {
                    Some(script_text(command))
                } else {
                    None
                }
                &&& self == before.commanded(command, now, numbers.0.next)
                &&& numbers.1.next == next_number(numbers.0.next)
            },
        }
    }

    /// Takes a command: the script to run where the player is ready, nothing where the
    /// command is queued, or the message for which it is refused.
    pub fn command(&mut self, command: PlaybackCommand, now: u64, generations: &mut Generations) -> (result: Result<
        Option<String>,
        String,
    >)
        ensures
            final(self).commanded_from(*old(self), command, now, (*old(generations), *final(generations)), result),
            old(self).wf() ==> final(self).wf(),
    {
        let call = match playback_call(command) {
            Ok(call) => call,
            Err(message) => {
                return Err(message);
            },
        };
        if !self.open {
            return Err(String::from_str("The player has closed."));
        }
        self.capture.cancel(generations);
        if self.playback.command(command, now) {
            Ok(Some(script(&call)))
        } else {
            Ok(None)
        }
    }

    /// Whether this is `before` asked to change from the page at `present` to the validated
    /// address `next`, and `result` is the answer. The same video only jumps; another one
    /// leaves the expanded view and asks for an authenticated load.
    pub open spec fn changed_from(
        self,
        before: StreamPlayer,
        present: Option<AddressView>,
        next: AddressView,
        token: Seq<char>,
        now: u64,
        numbers: (Generations, Generations),
        result: Result<ReplayPlan, String>,
    ) -> bool {
        let request = playback_request(next);
        let command = if request.paused {
            PlaybackCommand::SeekPaused(target_of(request)->0)
        } else {
            PlaybackCommand::Seek(target_of(request)->0)
        };
        let taken = before.reusable_at(present) && request.at is Some;
        let same = same_video(present->0, next);
        let cancels = taken && (if same { before.open } else { before.fullscreen.active });
        &&& numbers.1.next == if cancels { next_number(numbers.0.next) } else { numbers.0.next }
        &&& if !before.reusable_at(present) {
            &&& result is Err && result->Err_0@ == "This recording needs a new player."@
            &&& self == before
        } else if request.at is None {
            &&& result is Err && result->Err_0@ == "The recording has no replay position."@
            &&& self == before
        } else if same {
            if before.open {
                &&& result is Ok && result->Ok_0 is Command
                &&& text_of(result->Ok_0->Command_0) == if before.playback.state.ready {
                    Some(script_text(command))
                } else {
                    None
                }
                &&& self == before.commanded(command, now, numbers.0.next)
            } else {
                &&& result is Err && result->Err_0@ == "The player has closed."@
                &&& self == before
            }
        } else {
            &&& self == before.unexpanded(numbers.0.next)
            &&& match bearer(token) {
                Err(message) => result is Err && result->Err_0@ == message,
                Ok(header) => {
                    &&& result is Ok && result->Ok_0 is Load
                    &&& result->Ok_0->Load_0.url@ == next.text
                    &&& result->Ok_0->Load_0.authorization@ == header
                    &&& result->Ok_0->Load_0.target == target_of(request)->0
                    &&& result->Ok_0->Load_0.resume == !request.paused
                },
            }
        }
    }

    /// Changes from the page at `present`, as it was parsed, to the validated address `next`.
    pub fn change_recording(
        &mut self,
        present: &Option<Address>,
        next: Address,
        token: &str,
        now: u64,
        generations: &mut Generations,
    ) -> (result: Result<ReplayPlan, String>)
        ensures
            old(self).wf() ==> final(self).wf(),
            final(self).changed_from(
                *old(self),
                address_view(*present),
                next@,
                token@,
                now,
                (*old(generations), *final(generations)),
                result,
            ),
    {
        let previous = match present {
            Some(previous) => previous,
            None => {
                return Err(String::from_str("This recording needs a new player."));
            },
        };
        if !self.protected || crate::address::provider(previous).is_none() {
            return Err(String::from_str("This recording needs a new player."));
        }
        let request = read_request(&next);
        proof {
            lemma_request_bounded(next@);
        }
        let target: i64 = match target_micros(&request) {
            Some(target) => target,
            None => {
                return Err(String::from_str("The recording has no replay position."));
            },
        };
        if shows_same_video(previous, &next) {
            let command = if request.paused {
                PlaybackCommand::SeekPaused(target)
            } else {
                PlaybackCommand::Seek(target)
            };
            return match self.command(command, now, generations) {
                Ok(script) => Ok(ReplayPlan::Command(script)),
                Err(message) => Err(message),
            };
        }
        self.exit_fullscreen(generations);
        match authorization(token) {
            Ok(authorization) => Ok(
                ReplayPlan::Load(
                    ReplayLoad { url: next.text, authorization, target, resume: !request.paused },
                ),
            ),
            Err(message) => Err(message),
        }
    }

    /// Changes to the recording that `value` names.
    pub fn load_replay(
        &mut self,
        value: &str,
        configured: &str,
        token: &str,
        now: u64,
        generations: &mut Generations,
    ) -> (result: Result<ReplayPlan, String>)
        ensures
            old(self).wf() ==> final(self).wf(),
            if valid_player_address(value@, configured@) {
                final(self).changed_from(
                    *old(self),
                    url_address(old(self).allowed_url@),
                    url_address(value@)->0,
                    token@,
                    now,
                    (*old(generations), *final(generations)),
                    result,
                )
            } else {
                &&& result is Err && result->Err_0@ == "The stream player address is invalid."@
                &&& *final(self) == *old(self)
                &&& *final(generations) == *old(generations)
            },
    {
        match validate_player_address(value, configured) {
            Ok(next) => {
                let present = parse_address(&self.allowed_url);
                self.change_recording(&present, next, token, now, generations)
            },
            Err(message) => Err(message),
        }
    }

    /// Whether this is `before` turned to a new document for `load`.
    pub open spec fn turned_to(self, before: StreamPlayer, load: ReplayLoad, now: u64, generation: u64) -> bool {
        &&& self.allowed_url@ == load.url@
        &&& self == (StreamPlayer {
            allowed_url: self.allowed_url,
            loaded: false,
            created: now,
            failure: None,
            document: next_number(before.document),
            playback: Transport::opening(Some(load.target), !load.resume, now),
            capture: before.capture.cancelled(generation),
            ..before
        })
    }

    /// Whether this is `before` turned to the document of `load`, where its preferences could be
    /// protected, and `result` is the answer.
    pub open spec fn begun_from(
        self,
        before: StreamPlayer,
        load: ReplayLoad,
        retargeted: bool,
        now: u64,
        numbers: (Generations, Generations),
        result: Result<(), String>,
    ) -> bool {
        if !retargeted {
            &&& result is Err && result->Err_0@ == "The player could not protect recording preferences."@
            &&& self == before
            &&& numbers.1 == numbers.0
        } else {
            &&& self.turned_to(before, load, now, numbers.0.next)
            &&& numbers.1.next == next_number(numbers.0.next)
            &&& result is Ok == before.open
            &&& result is Err ==> result->Err_0@ == "The player has closed."@
        }
    }

    /// Turns to the document of `load`, once its preferences are protected. What the old
    /// document still reports is not heard.
    pub fn begin_replay(&mut self, load: &ReplayLoad, retargeted: bool, now: u64, generations: &mut Generations) -> (result:
        Result<(), String>)
        ensures
            final(self).begun_from(
                *old(self),
                *load,
                retargeted,
                now,
                (*old(generations), *final(generations)),
                result,
            ),
            old(self).wf() ==> final(self).wf(),
    {
        if !retargeted {
            return Err(String::from_str("The player could not protect recording preferences."));
        }
        self.capture.cancel(generations);
        self.allowed_url = load.url.clone();
        self.created = now;
        self.loaded = false;
        self.document = if self.document == u64::MAX { 0 } else { self.document + 1 };
        self.playback = Transport::open(Some(load.target), !load.resume, now);
        self.failure = None;
        if self.open {
            Ok(())
        } else {
            Err(String::from_str("The player has closed."))
        }
    }

    /// Whether this is `before` asked to be shown or hidden. Hiding drops the snapshot, and leaving
    /// the expanded view does once more.
    pub open spec fn shown_from(self, before: StreamPlayer, visible: bool, numbers: (Generations, Generations)) -> bool {
        let first = numbers.0.next;
        let last = if before.fullscreen.active { next_number(first) } else { first };
        if visible {
            &&& self == (StreamPlayer { fullscreen: before.fullscreen.with_enabled(true), ..before })
            &&& numbers.1 == numbers.0
        } else {
            &&& self == (StreamPlayer {
                capture: before.capture.cancelled(last),
                fullscreen: before.fullscreen.with_enabled(false),
                ..before
            })
            &&& numbers.1.next == next_number(last)
        }
    }

    /// Shows or hides the player; whether the native child has to follow.
    pub fn set_visible(&mut self, visible: bool, generations: &mut Generations) -> (apply: bool)
        ensures
            apply == (old(self).open && old(self).visible != visible),
            final(self).shown_from(*old(self), visible, (*old(generations), *final(generations))),
            old(self).wf() ==> final(self).wf(),
    {
        if !visible {
            self.capture.cancel(generations);
            self.exit_fullscreen(generations);
        }
        self.fullscreen.set_enabled(visible);
        self.open && self.visible != visible
    }

    /// The native child has been shown or hidden.
    pub fn visibility_applied(&mut self, visible: bool)
        ensures
            *final(self) == (StreamPlayer { visible, ..*old(self) }),
    {
        self.visible = visible;
    }

    /// Whether this is `before` asked to move, and `result` is the answer.
    pub open spec fn placed_from(
        self,
        before: StreamPlayer,
        bounds: Option<Bounds>,
        numbers: (Generations, Generations),
        result: Result<bool, String>,
    ) -> bool {
        &&& numbers.1.next == if bounds is Some && bounds->0 != before.bounds {
            next_number(numbers.0.next)
        } else {
            numbers.0.next
        }
        &&& match bounds {
            None => result is Err && result->Err_0@ == "The stream player needs more room in the Brick window."@ && self
                == before,
            Some(bounds) => if bounds == before.bounds {
                result == Ok::<bool, String>(false) && self == before
            } else {
                &&& self == (StreamPlayer { capture: before.capture.cancelled(numbers.0.next), ..before })
                &&& if before.open {
                    result == Ok::<bool, String>(true)
                } else {
                    result is Err && result->Err_0@ == "The stream player has closed."@
                }
            },
        }
    }

    /// Moves the player; whether the native child has to follow, or why it cannot.
    pub fn set_bounds(&mut self, bounds: Option<Bounds>, generations: &mut Generations) -> (result: Result<bool, String>)
        ensures
            final(self).placed_from(*old(self), bounds, (*old(generations), *final(generations)), result),
            old(self).wf() ==> final(self).wf(),
    {
        match bounds {
            None => Err(String::from_str("The stream player needs more room in the Brick window.")),
            Some(bounds) => {
                if bounds == self.bounds {
                    return Ok(false);
                }
                self.capture.cancel(generations);
                if self.open {
                    Ok(true)
                } else {
                    Err(String::from_str("The stream player has closed."))
                }
            },
        }
    }

    /// The native child has been moved.
    pub fn bounds_applied(&mut self, bounds: Bounds)
        ensures
            *final(self) == (StreamPlayer { bounds, ..*old(self) }),
    {
        self.bounds = bounds;
    }

    /// The last sample with the requests that still wait.
    pub fn playback_state(&self) -> (state: PlaybackState)
        ensures
            state == self.playback.reported(),
    {
        self.playback.playback_state()
    }

    /// The commands of one tick, in order: a newer pause at the provider, the queued command
    /// that is due, what the last sample confirms, and the retry of what still waits.
    pub open spec fn playback_after_commands(self, now: u64) -> Transport {
        let first = self.playback.without_superseded_play(now);
        let due = first.due(now);
        let handed = Transport {
            ready_since: first.ready_from(now),
            queued_command: if due is Some { None } else { first.queued_command },
            ..first
        };
        let forwarded = if due is Some && command_refusal(self.open, due->0) is None {
            handed.commanded(due->0, now)
        } else {
            handed
        };
        forwarded.acknowledged(now)
    }

    /// The queued command that one tick hands on.
    pub open spec fn due_command(self, now: u64) -> Option<PlaybackCommand> {
        self.playback.without_superseded_play(now).due(now)
    }

    /// Whether this is `before` with its commands up to date, with what the window has to do.
    pub open spec fn polled_from(
        self,
        before: StreamPlayer,
        viewport_visible: bool,
        now: u64,
        numbers: (Generations, Generations),
        plan: PlaybackPlan,
    ) -> bool {
        let due = before.due_command(now);
        let forwarded = due is Some && command_refusal(before.open, due->0) is None;
        let first = numbers.0.next;
        let middle = if forwarded { next_number(first) } else { first };
        let waiting = before.playback_after_commands(now);
        let recovery = waiting.recovery(now, before.visible, before.loaded);
        let after = waiting.recovered(now, before.visible, before.loaded);
        let poll = poll_decision(after.last_state_poll, after.state_pending, now, before.visible && viewport_visible);
        &&& text_of(plan.forward) == if forwarded {
            Some(script_text(due->0))
        } else {
            None
        }
        &&& text_of(self.failure) == if due is Some && command_refusal(before.open, due->0) is Some {
            command_refusal(before.open, due->0)
        } else {
            text_of(before.failure)
        }
        &&& text_of(plan.retry) == match recovery {
            Recovery::Retry(command) => if before.open && valid_command(command) {
                Some(script_text(command))
            } else {
                None
            },
            _ => None,
        }
        &&& plan.poll == if before.loaded { Some(poll) } else { None }
        &&& self.playback == if plan.poll == Some(StatePoll::Started) {
            Transport { last_state_poll: Some(now), state_pending: before.open, ..after }
        } else {
            after
        }
        &&& self.capture == if recovery is GivenUp {
            before.capture.cancelled(middle)
        } else if forwarded {
            before.capture.cancelled(first)
        } else {
            before.capture
        }
        &&& numbers.1.next == if recovery is GivenUp { next_number(middle) } else { middle }
        &&& self == (StreamPlayer { playback: self.playback, capture: self.capture, failure: self.failure, ..before })
    }

    /// Brings the commands up to date and decides about the next reading of the state.
    pub fn poll_playback(&mut self, viewport_visible: bool, now: u64, generations: &mut Generations) -> (plan:
        PlaybackPlan)
        ensures
            final(self).polled_from(
                *old(self),
                viewport_visible,
                now,
                (*old(generations), *final(generations)),
                plan,
            ),
            old(self).wf() ==> final(self).wf(),
    {
        self.playback.cancel_superseded_play(now);
        let due = self.playback.take_due_command(now);
        let mut forward: Option<String> = None;
        if let Some(command) = due {
            match self.command(command, now, generations) {
                Ok(script) => {
                    forward = script;
                },
                Err(message) => {
                    self.failure = Some(message);
                },
            }
        }
        self.playback.acknowledge(now);
        let mut retry: Option<String> = None;
        match self.playback.recover_pending_command(now, self.visible, self.loaded) {
            Recovery::Nothing => {},
            Recovery::GivenUp => {
                self.capture.cancel(generations);
            },
            Recovery::Retry(command) => {
                if self.open {
                    if let Ok(call) = playback_call(command) {
                        retry = Some(script(&call));
                    }
                }
            },
        }
        if !self.loaded {
            return PlaybackPlan { forward, retry, poll: None };
        }
        let mut last = self.playback.last_state_poll;
        let mut pending = self.playback.state_pending;
        let poll = begin_state_poll(&mut last, &mut pending, now, self.visible && viewport_visible);
        self.playback.last_state_poll = last;
        self.playback.state_pending = if poll == StatePoll::Started {
            self.open
        } else {
            pending
        };
        PlaybackPlan { forward, retry, poll: Some(poll) }
    }

    /// The state request could not be submitted.
    pub fn state_request_failed(&mut self)
        ensures
            *final(self) == (StreamPlayer {
                playback: Transport { state_pending: false, ..old(self).playback },
                ..*old(self)
            }),
    {
        self.playback.state_pending = false;
    }

    /// Whether this is `before` with the answer to a state request taken.
    pub open spec fn received_from(
        self,
        before: StreamPlayer,
        document: u64,
        length: nat,
        parsed: Option<PlaybackState>,
        polled_at: u64,
        finished_at: u64,
        repaint: bool,
    ) -> bool {
        let next = PlaybackState { polled_at: Some(polled_at), poll_finished_at: Some(finished_at), ..parsed->0 };
        let usable = length <= MAX_ANSWER_BYTES && parsed is Some && 0 <= parsed->0.position <= MAX_POSITION;
        if document != before.document {
            !repaint && self == before
        } else {
            &&& repaint == (usable && supersedes(before.playback.state, next))
            &&& self == (StreamPlayer {
                playback: Transport {
                    state_pending: false,
                    state: if repaint { next } else { before.playback.state },
                    ..before.playback
                },
                ..before
            })
        }
    }

    /// Takes the answer to a state request of `document`: its length in bytes, and what
    /// could be read of it. Whether the view has to be drawn again.
    pub fn receive_state(
        &mut self,
        document: u64,
        length: usize,
        parsed: Option<PlaybackState>,
        polled_at: u64,
        finished_at: u64,
    ) -> (repaint: bool)
        ensures
            final(self).received_from(*old(self), document, length as nat, parsed, polled_at, finished_at, repaint),
    {
        if document != self.document {
            return false;
        }
        self.playback.state_pending = false;
        if length > MAX_ANSWER_BYTES {
            return false;
        }
        match parsed {
            None => false,
            Some(mut next) => {
                if next.position < 0 || next.position > MAX_POSITION {
                    return false;
                }
                next.mark_polled_between(polled_at, finished_at);
                let mut state = self.playback.state;
                let published = publish_playback_state(&mut state, next);
                self.playback.state = state;
                published
            },
        }
    }

    /// The player once a page has finished loading.
    pub open spec fn finished_at(self, destination: Seq<char>) -> StreamPlayer {
        StreamPlayer { loaded: self.loaded || destination == self.allowed_url@, ..self }
    }

    /// A page has finished loading in the child.
    pub fn page_finished(&mut self, destination: &str)
        ensures
            *final(self) == old(self).finished_at(destination@),
    {
        if same_text(destination, &self.allowed_url) {
            self.loaded = true;
        }
    }

    /// Whether this is `before` with a failure noted, where it counts. The first failure stays.
    pub open spec fn failed_from(self, before: StreamPlayer, counts: bool, message: Seq<char>) -> bool {
        &&& self == (StreamPlayer { failure: self.failure, ..before })
        &&& text_of(self.failure) == if counts && before.failure is None { Some(message) } else { text_of(before.failure) }
    }

    /// A page could not be loaded; whether it was the player's own. The first failure stays.
    pub fn load_failed(&mut self, destination: &str) -> (own: bool)
        ensures
            own == (destination@ == old(self).allowed_url@),
            final(self).failed_from(
                *old(self),
                own,
                "The stream player could not connect. Check your connection and try again."@,
            ),
    {
        if !same_text(destination, &self.allowed_url) {
            return false;
        }
        if self.failure.is_none() {
            self.failure = Some(
                String::from_str("The stream player could not connect. Check your connection and try again."),
            );
        }
        true
    }

    /// The browser process is gone. The first failure stays.
    pub fn process_terminated(&mut self)
        ensures
            final(self).failed_from(*old(self), true, "The stream player stopped unexpectedly. Please try again."@),
    {
        if self.failure.is_none() {
            self.failure = Some(String::from_str("The stream player stopped unexpectedly. Please try again."));
        }
    }

    /// Why the native child has to be replaced, if it has to. A command that the provider
    /// ignores is never a reason.
    pub open spec fn spec_failure(self, now: u64) -> Option<Seq<char>> {
        if self.failure is Some {
            Some(self.failure->0@)
        } else if self.playback.state_pending && self.playback.last_state_poll is Some && elapsed_since(
            self.playback.last_state_poll->0,
            now,
        ) >= STATE_POLL_TIMEOUT {
            Some("The stream player stopped responding."@)
        } else if !self.loaded && elapsed_since(self.created, now) >= WRAPPER_LOAD_TIMEOUT {
            Some("The stream player took too long to load. Please try again."@)
        } else if self.playback.pending_seek is Some && !self.playback.state.ready && elapsed_since(self.created, now)
            >= WRAPPER_LOAD_TIMEOUT {
            Some("The recording player took too long to become ready. Please try again."@)
        } else {
            None
        }
    }

    pub fn failure(&self, now: u64) -> (message: Option<String>)
        ensures
            text_of(message) == self.spec_failure(now),
    {
        if let Some(message) = &self.failure {
            return Some(message.clone());
        }
        if self.playback.state_pending {
            if let Some(at) = self.playback.last_state_poll {
                if elapsed(at, now) >= STATE_POLL_TIMEOUT {
                    return Some(String::from_str("The stream player stopped responding."));
                }
            }
        }
        let late = elapsed(self.created, now) >= WRAPPER_LOAD_TIMEOUT;
        if !self.loaded && late {
            return Some(String::from_str("The stream player took too long to load. Please try again."));
        }
        if self.playback.pending_seek.is_some() && !self.playback.state.ready && late {
            return Some(
                String::from_str("The recording player took too long to become ready. Please try again."),
            );
        }
        None
    }

    /// Whether this is `before` with a snapshot begun, where one can be.
    pub open spec fn capture_asked_from(
        self,
        before: StreamPlayer,
        viewport_visible: bool,
        now: u64,
        started: Option<u64>,
    ) -> bool {
        &&& started == if before.open && before.capture.may_request(
            before.playback.reported(),
            before.visible && viewport_visible,
            before.bounds,
            now,
        ) {
            Some(before.capture.jobs)
        } else {
            None
        }
        &&& self == if started is Some {
            (StreamPlayer { capture: before.capture.requested(now), ..before })
        } else {
            before
        }
    }

    /// Begins a snapshot of the child, where it can be captured.
    pub fn request_frame_capture(&mut self, viewport_visible: bool, now: u64) -> (started: Option<u64>)
        ensures
            final(self).capture_asked_from(*old(self), viewport_visible, now, started),
            old(self).wf() ==> final(self).wf(),
    {
        if !self.open {
            return None;
        }
        let state = self.playback.playback_state();
        self.capture.request(&state, self.visible && viewport_visible, self.bounds, now)
    }

    /// Takes the snapshot under way one stage further.
    pub fn tick_capture(&mut self, viewport_visible: bool, now: u64, generations: &mut Generations) -> (next: Next)
        requires
            old(self).capture.phase(old(self).playback.reported(), old(self).visible && viewport_visible, now) is Encode
                ==> old(self).capture.has_image(),
        ensures
            old(self).wf() ==> final(self).wf(),
            *final(self) == (StreamPlayer { capture: final(self).capture, ..*old(self) }),
            !old(self).open ==> next is Wait && *final(self) == *old(self) && *final(generations) == *old(generations),
            old(self).open ==> final(generations).next == if old(self).capture.phase(
                old(self).playback.reported(),
                old(self).visible && viewport_visible,
                now,
            ) is Cancelled {
                next_number(old(generations).next)
            } else {
                old(generations).next
            },
            old(self).open ==> final(self).capture.ticked(
                old(self).capture,
                next,
                old(self).playback.reported(),
                old(self).visible && viewport_visible,
                now,
                old(generations).next,
            ),
    {
        if !self.open {
            return Next::Wait;
        }
        let state = self.playback.playback_state();
        self.capture.tick(&state, self.visible && viewport_visible, now, generations)
    }

    /// Hands out the finished snapshot, once.
    pub fn take_frame_capture(&mut self) -> (result: Option<Result<FrameCapture, String>>)
        ensures
            result == old(self).capture.outcome(),
            *final(self) == (StreamPlayer { capture: old(self).capture.handed_out(), ..*old(self) }),
    {
        self.capture.take()
    }

    pub fn frame_capture_pending(&self) -> (pending: bool)
        ensures
            pending == self.capture.is_pending(),
    {
        self.capture.pending()
    }

    pub fn cancel_frame_capture(&mut self, generations: &mut Generations)
        ensures
            *final(self) == (StreamPlayer {
                capture: old(self).capture.cancelled(old(generations).next),
                ..*old(self)
            }),
            final(generations).next == next_number(old(generations).next),
            old(self).wf() ==> final(self).wf(),
    {
        self.capture.cancel(generations);
    }

    /// The generation that a snapshot has to have to be of use.
    pub fn frame_capture_generation(&self) -> (generation: u64)
        ensures
            generation == self.capture.generation,
    {
        self.capture.generation()
    }

    pub open spec fn closed(self, generation: u64) -> StreamPlayer {
        StreamPlayer {
            open: false,
            capture: self.capture.cancelled(generation),
            fullscreen: self.fullscreen.with_enabled(false),
            ..self
        }
    }

    /// Shuts the player: its snapshot is dropped and it can no longer expand.
    pub fn close(&mut self, generations: &mut Generations)
        ensures
            *final(self) == old(self).closed(old(generations).next),
            final(generations).next == next_number(old(generations).next),
    {
        self.capture.cancel(generations);
        self.fullscreen.set_enabled(false);
        self.open = false;
    }
}

proof fn lemma_request_bounded(address: AddressView)
    ensures
        playback_request(address).at is Some ==> playback_request(address).at->0
            <= crate::player_address::MAX_POSITION_MS,
{
}

// ---------------------------------------------------------------- laws

/// A loaded player whose state requests are answered is never discarded, however long its
/// commands wait.
pub proof fn waiting_commands_never_discard_a_loaded_player(player: StreamPlayer, now: u64)
    requires
        player.failure is None,
        player.loaded,
        player.playback.state.ready,
        !player.playback.state_pending,
    ensures
        player.spec_failure(now) is None,
{
}

/// After turning to another document, no sample of the old one is left, and the requested
/// position waits until the new document confirms it.
pub proof fn turning_forgets_the_old_document(
    before: StreamPlayer,
    after: StreamPlayer,
    load: ReplayLoad,
    now: u64,
    generation: u64,
)
    requires
        after.turned_to(before, load, now, generation),
    ensures
        after.playback.state == PlaybackState::initial(),
        after.playback.reported().seeking == Some(load.target),
        after.playback.reported().playback_intent == Some(load.resume),
        after.document != before.document,
        after.playback.acknowledged(now) == after.playback,
{
}

/// A player that opens waits for its page with the position and the choice to play that its address
/// asks for; it is refused without room or without a usable token, and no number is then used.
pub proof fn players_open_as_their_address_asks(
    result: Result<Opened, String>,
    address: AddressView,
    token: Seq<char>,
    bounds: Option<Bounds>,
    now: u64,
    before: Generations,
    after: Generations,
)
    requires
        StreamPlayer::opened_as(result, address, token, bounds, now, before, after),
    ensures
        bounds is None ==> result is Err && after == before,
        result is Ok ==> {
            let player = result->Ok_0.player;
            &&& player.open && player.visible && !player.loaded && player.failure is None && player.protected
            &&& player.allowed_url@ == address.text && player.created == now && Some(player.bounds) == bounds
            &&& !player.playback.state.ready && !player.playback.state_pending && player.capture.job is None
            &&& !player.fullscreen.active && player.fullscreen.enabled
            &&& playback_request(address).at is Some ==> player.playback.reported().seeking == Some(
                (playback_request(address).at->0 * 1000) as i64,
            ) && player.playback.reported().playback_intent == Some(!playback_request(address).paused)
            &&& playback_request(address).at is None ==> player.playback.reported().seeking is None
            &&& player.capture.generation == before.next && after.next != before.next
            &&& player.spec_failure(now) is None
        },
        result is Ok <==> bounds is Some && bearer(token) is Ok,
{
}

/// A command is taken by an open player, within a recording, and refused otherwise without any effect.
/// A ready player runs it at once, any other queues it; a snapshot under way is dropped.
pub proof fn open_players_take_valid_commands(
    before: StreamPlayer,
    after: StreamPlayer,
    command: PlaybackCommand,
    now: u64,
    numbers: (Generations, Generations),
    result: Result<Option<String>, String>,
)
    requires
        after.commanded_from(before, command, now, numbers, result),
    ensures
        result is Ok <==> before.open && valid_command(command),
        result is Err ==> after == before && numbers.1 == numbers.0,
        result is Ok ==> {
            &&& result->Ok_0 is Some == before.playback.state.ready
            &&& result->Ok_0 is Some ==> text_of(result->Ok_0) == Some(script_text(command))
            &&& after.playback.reported().playback_intent == Some(crate::playback::plays(command))
            &&& after.capture.job is None && after.capture.generation == numbers.0.next
            &&& before.playback.state.ready ==> after.playback.queued_command is None
            &&& !before.playback.state.ready ==> after.playback.queued_command is Some
            &&& after.loaded == before.loaded && after.open == before.open && after.document == before.document
                && after.allowed_url == before.allowed_url && after.failure == before.failure
        },
        result is Ok && command is Seek ==> after.playback.reported().seeking == Some(command->Seek_0),
        result is Ok && command is SeekPaused ==> after.playback.reported().seeking == Some(command->SeekPaused_0),
{
}

/// The same video jumps in its page, playing or paused as the address asks; another one is loaded with
/// an authenticated request, and nothing of the present page changes before that but its layout. A
/// player without a page of a provider, or an address without a position, is refused.
pub proof fn other_recordings_are_loaded(
    before: StreamPlayer,
    after: StreamPlayer,
    present: Option<AddressView>,
    next: AddressView,
    token: Seq<char>,
    now: u64,
    numbers: (Generations, Generations),
    result: Result<ReplayPlan, String>,
)
    requires
        after.changed_from(before, present, next, token, now, numbers, result),
    ensures
        present is None || !before.protected ==> result is Err && after == before,
        playback_request(next).at is None ==> result is Err && after == before,
        result is Ok && result->Ok_0 is Load ==> {
            let load = result->Ok_0->Load_0;
            &&& !same_video(present->0, next) && load.url@ == next.text
            &&& load.target == playback_request(next).at->0 * 1000 && load.resume == !playback_request(next).paused
            &&& bearer(token) == Ok::<Seq<char>, Seq<char>>(load.authorization@)
            &&& after.playback == before.playback && after.allowed_url == before.allowed_url && after.loaded
                == before.loaded && after.document == before.document
            &&& !after.fullscreen.active
        },
        result is Ok && result->Ok_0 is Command ==> {
            &&& same_video(present->0, next) && before.open
            &&& after.playback.reported().seeking == Some((playback_request(next).at->0 * 1000) as i64)
            &&& after.playback.reported().playback_intent == Some(!playback_request(next).paused)
            &&& after.allowed_url == before.allowed_url && after.document == before.document
        },
        before.open && before.protected && present is Some && segment_provider(last_segment(present->0.path)) is Some
            && playback_request(next).at is Some && (same_video(present->0, next) || bearer(token) is Ok) ==> result is Ok,
        after.open == before.open && after.visible == before.visible && after.failure == before.failure,
{
    lemma_request_bounded(next);
}

/// A document that is turned to is the asked recording's, not loaded yet, with the position and the
/// choice to play waiting; without protected preferences nothing changes, and a closed player fails.
pub proof fn turned_players_load_the_recording(
    before: StreamPlayer,
    after: StreamPlayer,
    load: ReplayLoad,
    retargeted: bool,
    now: u64,
    numbers: (Generations, Generations),
    result: Result<(), String>,
)
    requires
        after.begun_from(before, load, retargeted, now, numbers, result),
    ensures
        result is Ok <==> retargeted && before.open,
        !retargeted ==> after == before && numbers.1 == numbers.0,
        retargeted ==> {
            &&& after.allowed_url@ == load.url@ && !after.loaded && after.created == now && after.failure is None
            &&& after.document != before.document && after.capture.job is None
            &&& after.playback.pending_seek is Some && after.playback.pending_seek->0.target == load.target
                && after.playback.pending_seek->0.resume == load.resume
            &&& after.open == before.open && after.visible == before.visible && after.bounds == before.bounds
                && after.protected == before.protected
        },
{
}

/// A hidden player drops its snapshot and cannot be expanded; a shown one can be again, and stays as it
/// is otherwise.
pub proof fn hidden_players_shrink(
    before: StreamPlayer,
    after: StreamPlayer,
    visible: bool,
    numbers: (Generations, Generations),
)
    requires
        after.shown_from(before, visible, numbers),
    ensures
        !visible ==> !after.fullscreen.active && !after.fullscreen.enabled && after.capture.job is None && numbers.1.next
            != numbers.0.next,
        visible ==> after.fullscreen.enabled && after.fullscreen.active == before.fullscreen.active && after.capture
            == before.capture && numbers.1 == numbers.0,
        after.playback == before.playback && after.open == before.open && after.visible == before.visible
            && after.document == before.document && after.loaded == before.loaded && after.bounds == before.bounds,
{
}

/// A player that is moved drops its snapshot; one that stays where it is, or has no room, changes
/// nothing. A closed one cannot be moved.
pub proof fn moved_players_drop_their_snapshot(
    before: StreamPlayer,
    after: StreamPlayer,
    bounds: Option<Bounds>,
    numbers: (Generations, Generations),
    result: Result<bool, String>,
)
    requires
        after.placed_from(before, bounds, numbers, result),
    ensures
        bounds is None ==> result is Err && after == before,
        bounds == Some(before.bounds) ==> result == Ok::<bool, String>(false) && after == before && numbers.1.next
            == numbers.0.next,
        bounds is Some && bounds->0 != before.bounds ==> after.capture.job is None && numbers.1.next != numbers.0.next && (
        result is Ok <==> before.open) && (result is Ok ==> result->Ok_0),
        after.playback == before.playback && after.bounds == before.bounds && after.fullscreen == before.fullscreen
            && after.open == before.open,
{
}

/// A tick runs at most the queued command that is due and a second try of one that waits; it reads the
/// state only once the document has loaded, and a snapshot survives only where no command was run
/// and none was given up.
pub proof fn ticks_run_what_is_due(
    before: StreamPlayer,
    after: StreamPlayer,
    viewport_visible: bool,
    now: u64,
    numbers: (Generations, Generations),
    plan: PlaybackPlan,
)
    requires
        after.polled_from(before, viewport_visible, now, numbers, plan),
    ensures
        plan.poll is Some <==> before.loaded,
        plan.poll == Some(StatePoll::Started) ==> after.playback.last_state_poll == Some(now)
            && after.playback.state_pending == before.open,
        !before.open ==> plan.forward is None && plan.retry is None,
        before.playback.queued_command is None ==> plan.forward is None && text_of(after.failure) == text_of(
            before.failure,
        ),
        plan.forward is Some ==> after.capture.job is None && numbers.1.next != numbers.0.next,
        numbers.1.next == numbers.0.next ==> after.capture == before.capture,
        after.playback.state == before.playback.state,
        after.open == before.open && after.loaded == before.loaded && after.visible == before.visible && after.document
            == before.document && after.allowed_url == before.allowed_url && after.bounds == before.bounds
            && after.fullscreen == before.fullscreen,
{
}

/// An answer of another document is not heard. One of this document ends the request; what it says is
/// kept where it could be read, is at most 4,096 bytes long, lies in a recording, and is newer.
pub proof fn answers_of_the_document_are_heard(
    before: StreamPlayer,
    after: StreamPlayer,
    document: u64,
    length: nat,
    parsed: Option<PlaybackState>,
    polled_at: u64,
    finished_at: u64,
    repaint: bool,
)
    requires
        after.received_from(before, document, length, parsed, polled_at, finished_at, repaint),
    ensures
        document != before.document ==> after == before && !repaint,
        document == before.document ==> !after.playback.state_pending,
        repaint ==> {
            &&& length <= 4096 && parsed is Some && 0 <= parsed->0.position <= 604_800_000_000
            &&& after.playback.state.position == parsed->0.position && after.playback.state.playing == parsed->0.playing
                && after.playback.state.ready == parsed->0.ready && after.playback.state.buffering
                == parsed->0.buffering && after.playback.state.blocked == parsed->0.blocked
            &&& after.playback.state.polled_at == Some(polled_at) && after.playback.state.poll_finished_at == Some(
                finished_at,
            )
        },
        !repaint ==> after.playback.state == before.playback.state,
        document == before.document && length <= 4096 && parsed is Some && 0 <= parsed->0.position <= 604_800_000_000
            && before.playback.state.polled_at is None ==> repaint,
        after.playback.pending_seek == before.playback.pending_seek && after.playback.pending_playback
            == before.playback.pending_playback && after.playback.queued_command == before.playback.queued_command,
        after.loaded == before.loaded && after.failure == before.failure && after.document == before.document,
{
}

/// Only the player's own page counts as loaded, and once it is, it stays so.
pub proof fn own_pages_count_as_loaded(player: StreamPlayer, destination: Seq<char>)
    ensures
        destination == player.allowed_url@ ==> player.finished_at(destination).loaded,
        destination != player.allowed_url@ ==> player.finished_at(destination) == player,
        player.loaded ==> player.finished_at(destination).loaded,
        player.finished_at(destination).playback == player.playback,
{
}

/// The first failure is kept, and one that does not count is not.
pub proof fn first_failures_stay(before: StreamPlayer, after: StreamPlayer, counts: bool, message: Seq<char>, now: u64)
    requires
        after.failed_from(before, counts, message),
    ensures
        before.failure is Some ==> text_of(after.failure) == text_of(before.failure),
        !counts ==> text_of(after.failure) == text_of(before.failure),
        counts && before.failure is None ==> after.spec_failure(now) == Some(message),
        after.playback == before.playback && after.loaded == before.loaded && after.open == before.open,
{
}

/// A player fails for what was noted; for a state request without an answer for thirty seconds; for a
/// page that did not load, or a recording that did not become ready, within twenty-five; and for
/// nothing else.
pub proof fn players_fail_in_time(player: StreamPlayer, now: u64)
    requires
        player.created <= now,
        player.playback.last_state_poll is Some ==> player.playback.last_state_poll->0 <= now,
    ensures
        player.spec_failure(now) is Some <==> {
            ||| player.failure is Some
            ||| player.playback.state_pending && player.playback.last_state_poll is Some && now
                - player.playback.last_state_poll->0 >= 30_000_000
            ||| !player.loaded && now - player.created >= 25_000_000
            ||| player.playback.pending_seek is Some && !player.playback.state.ready && now - player.created
                >= 25_000_000
        },
        player.failure is Some ==> player.spec_failure(now) == Some(player.failure->0@),
{
}

/// A snapshot begins only in an open player that may be captured, under the next number of its own; a
/// player that does not begin one is unchanged.
pub proof fn open_players_are_captured(
    before: StreamPlayer,
    after: StreamPlayer,
    viewport_visible: bool,
    now: u64,
    started: Option<u64>,
)
    requires
        after.capture_asked_from(before, viewport_visible, now, started),
    ensures
        started is None ==> after == before,
        started is Some ==> before.open && before.visible && viewport_visible && started == Some(before.capture.jobs)
            && after.capture.job is Some,
        before.open && before.capture.may_request(
            before.playback.reported(),
            before.visible && viewport_visible,
            before.bounds,
            now,
        ) ==> started is Some,
        after.playback == before.playback && after.fullscreen == before.fullscreen,
{
}

/// A closed player has no snapshot, is not expanded, and takes no command.
pub proof fn closed_players_take_nothing(player: StreamPlayer, generation: u64, command: PlaybackCommand)
    ensures
        !player.closed(generation).open && player.closed(generation).capture.job is None && player.closed(
            generation,
        ).capture.generation == generation,
        !player.closed(generation).fullscreen.active && !player.closed(generation).fullscreen.requested(true).active,
        command_refusal(player.closed(generation).open, command) is Some,
        command_refusal(true, command) is None <==> valid_command(command),
        player.closed(generation).playback == player.playback,
{
}

/// Leaving the expanded view drops the snapshot; a player that is not expanded is unchanged.
pub proof fn leaving_the_expanded_view_drops_the_snapshot(player: StreamPlayer, generation: u64)
    ensures
        !player.unexpanded(generation).fullscreen.active,
        !player.fullscreen.active ==> player.unexpanded(generation) == player,
        player.fullscreen.active ==> player.unexpanded(generation).capture.job is None,
        player.unexpanded(generation).fullscreen.enabled == player.fullscreen.enabled && player.unexpanded(
            generation,
        ).playback == player.playback,
{
}

/// A player can change recordings only while its page is one of a provider's and its preferences are
/// protected.
pub proof fn protected_pages_can_change(player: StreamPlayer, present: AddressView)
    ensures
        !player.reusable_at(None),
        player.reusable_at(Some(present)) <==> player.protected && segment_provider(last_segment(present.path)) is Some,
{
}

/// A player can take another recording exactly where the address it shows parses to a provider's page and
/// its preferences are protected.
pub proof fn players_are_reused_by_their_page(player: StreamPlayer)
    ensures
        player.reusable() <==> player.protected && url_address(player.allowed_url@) is Some && segment_provider(
            last_segment(url_address(player.allowed_url@)->0.path),
        ) is Some,
{
}

/// A tick with no command queued gives none: what waits is only confirmed, and a wait never begins.
pub proof fn idle_ticks_give_no_command(player: StreamPlayer, now: u64)
    requires
        player.playback.queued_command is None,
    ensures
        player.due_command(now) is None,
        player.playback_after_commands(now).queued_command is None,
        player.playback.pending_seek is None ==> player.playback_after_commands(now).pending_seek is None,
        player.playback.pending_playback is None ==> player.playback_after_commands(now).pending_playback is None,
        player.playback_after_commands(now).state == player.playback.state,
{
}

} // verus!
