//! What the review of a recording knows and waits for.
//!
//! Readings of the clock and positions in a recording are in microseconds, moments of the
//! encounter in Unix milliseconds.
use crate::clock::{after, elapsed, elapsed_since, later};
use crate::cooldown_editor::CooldownEditor;
use crate::cooldowns::{Catalog, Preferences};
use crate::raid::{
    is_same_pull, pull_view, same_pull, DefensiveGroup, EventKind, MarkerCache, MarkerKey, Alignment, Pull, PullView,
    RaidEvent, Review,
};
use crate::session::next_generation;
use vstd::prelude::*;

verus! {

/// How soon metadata is read again while the raid may still go on.
pub const LIVE_REFRESH: u64 = 15_000_000;

/// How soon metadata is read again otherwise, and after an error.
pub const IDLE_REFRESH: u64 = 60_000_000;

/// The shortest wait before the review looks at itself again.
pub const MIN_WAIT: u64 = 250_000;

/// One of each kind of event.
#[derive(Clone, Copy, Debug, PartialEq, Eq, Structural)]
pub struct Kinds {
    pub deaths: bool,
    pub defensives: bool,
}

impl Kinds {
    pub open spec fn none() -> Kinds {
        Kinds { deaths: false, defensives: false }
    }

    pub open spec fn has(self, kind: EventKind) -> bool {
        match kind {
            EventKind::Deaths => self.deaths,
            EventKind::Defensives => self.defensives,
        }
    }

    pub open spec fn with(self, kind: EventKind, present: bool) -> Kinds {
        match kind {
            EventKind::Deaths => Kinds { deaths: present, ..self },
            EventKind::Defensives => Kinds { defensives: present, ..self },
        }
    }

    pub fn contains(&self, kind: EventKind) -> (present: bool)
        ensures
            present == self.has(kind),
    {
        match kind {
            EventKind::Deaths => self.deaths,
            EventKind::Defensives => self.defensives,
        }
    }

    pub fn set(&mut self, kind: EventKind, present: bool)
        ensures
            *final(self) == old(self).with(kind, present),
    {
        match kind {
            EventKind::Deaths => {
                self.deaths = present;
            },
            EventKind::Defensives => {
                self.defensives = present;
            },
        }
    }
}

/// Why one kind of event could not be read, and when it is tried again.
#[derive(Debug)]
pub struct EventFailure {
    pub message: String,
    pub attempts: u8,
    pub retry_at: u64,
}

/// The failure of each kind of event, where there is one.
#[derive(Debug)]
pub struct Failures {
    pub deaths: Option<EventFailure>,
    pub defensives: Option<EventFailure>,
}

impl Failures {
    pub open spec fn of(self, kind: EventKind) -> Option<EventFailure> {
        match kind {
            EventKind::Deaths => self.deaths,
            EventKind::Defensives => self.defensives,
        }
    }

    pub open spec fn with(self, kind: EventKind, failure: Option<EventFailure>) -> Failures {
        match kind {
            EventKind::Deaths => Failures { deaths: failure, ..self },
            EventKind::Defensives => Failures { defensives: failure, ..self },
        }
    }

    pub fn get(&self, kind: EventKind) -> (failure: &Option<EventFailure>)
        ensures
            *failure == self.of(kind),
    {
        match kind {
            EventKind::Deaths => &self.deaths,
            EventKind::Defensives => &self.defensives,
        }
    }

    pub fn set(&mut self, kind: EventKind, failure: Option<EventFailure>)
        ensures
            *final(self) == old(self).with(kind, failure),
    {
        match kind {
            EventKind::Deaths => {
                self.deaths = failure;
            },
            EventKind::Defensives => {
                self.defensives = failure;
            },
        }
    }
}

/// What is known of the selected pull's events.
#[derive(Debug)]
pub struct PullEvents {
    pub events: Vec<RaidEvent>,
    pub requested: Kinds,
    pub loaded: Kinds,
    pub failures: Failures,
}

impl PullEvents {
    /// Whether nothing is known and nothing was asked.
    pub open spec fn cleared(self) -> bool {
        &&& self.events@.len() == 0
        &&& self.requested == Kinds::none()
        &&& self.loaded == Kinds::none()
        &&& self.failures.deaths is None && self.failures.defensives is None
    }

    pub open spec fn unrequested(self, kind: EventKind) -> PullEvents {
        PullEvents { requested: self.requested.with(kind, false), ..self }
    }

    pub open spec fn asked(self, kind: EventKind) -> PullEvents {
        PullEvents { requested: self.requested.with(kind, true), ..self }
    }

    /// Whether one kind still has to be read: it was never asked, or its failure is old enough.
    pub open spec fn misses(self, kind: EventKind, now: u64) -> bool {
        !self.loaded.has(kind) && (!self.requested.has(kind) || (self.failures.of(kind) is Some && now
            >= self.failures.of(kind)->0.retry_at))
    }

    fn is_missing(&self, kind: EventKind, now: u64) -> (missing: bool)
        ensures
            missing == self.misses(kind, now),
    {
        if self.loaded.contains(kind) {
            return false;
        }
        if !self.requested.contains(kind) {
            return true;
        }
        match self.failures.get(kind) {
            Some(failure) => now >= failure.retry_at,
            None => false,
        }
    }

    /// The kind to read next, deaths before defensives.
    pub open spec fn missing_kind(self, now: u64) -> Option<EventKind> {
        if self.misses(EventKind::Deaths, now) {
            Some(EventKind::Deaths)
        } else if self.misses(EventKind::Defensives, now) {
            Some(EventKind::Defensives)
        } else {
            None
        }
    }

    pub fn find_missing(&self, now: u64) -> (kind: Option<EventKind>)
        ensures
            kind == self.missing_kind(now),
    {
        if self.is_missing(EventKind::Deaths, now) {
            Some(EventKind::Deaths)
        } else if self.is_missing(EventKind::Defensives, now) {
            Some(EventKind::Defensives)
        } else {
            None
        }
    }

    /// How many attempts have failed in a row, this one included.
    pub open spec fn attempts_after(self, kind: EventKind) -> u8 {
        match self.failures.of(kind) {
            Some(failure) => if failure.attempts == u8::MAX { u8::MAX } else { (failure.attempts + 1) as u8 },
            None => 1,
        }
    }

    pub open spec fn failed(self, kind: EventKind, message: String, now: u64) -> PullEvents {
        PullEvents {
            failures: self.failures.with(
                kind,
                Some(
                    EventFailure {
                        message,
                        attempts: self.attempts_after(kind),
                        retry_at: later(now, backoff(self.attempts_after(kind))),
                    },
                ),
            ),
            ..self
        }
    }

    /// Notes that one kind could not be read, and when to try again.
    pub fn record_failure(&mut self, kind: EventKind, message: String, now: u64)
        ensures
            *final(self) == old(self).failed(kind, message, now),
    {
        let attempts: u8 = match self.failures.get(kind) {
            Some(failure) => if failure.attempts == u8::MAX {
                u8::MAX
            } else {
                failure.attempts + 1
            },
            None => 1,
        };
        let wait: u64 = if attempts == 1 {
            5_000_000
        } else if attempts == 2 {
            15_000_000
        } else if attempts == 3 {
            30_000_000
        } else {
            60_000_000
        };
        self.failures.set(kind, Some(EventFailure { message, attempts, retry_at: after(now, wait) }));
    }

    /// How long one kind's failure still waits; nothing where it has none or is loaded.
    pub open spec fn retry_wait(self, kind: EventKind, now: u64) -> Option<u64> {
        if self.loaded.has(kind) || self.failures.of(kind) is None {
            None
        } else {
            let left = elapsed_since(now, self.failures.of(kind)->0.retry_at);
            Some(if left < MIN_WAIT { MIN_WAIT } else { left })
        }
    }

    pub fn kind_wait(&self, kind: EventKind, now: u64) -> (wait: Option<u64>)
        ensures
            wait == self.retry_wait(kind, now),
    {
        if self.loaded.contains(kind) {
            return None;
        }
        match self.failures.get(kind) {
            Some(failure) => {
                let left: u64 = elapsed(now, failure.retry_at);
                if left < MIN_WAIT { Some(MIN_WAIT) } else { Some(left) }
            },
            None => None,
        }
    }

    pub fn empty() -> (events: PullEvents)
        ensures
            events.cleared(),
    {
        PullEvents {
            events: Vec::new(),
            requested: Kinds { deaths: false, defensives: false },
            loaded: Kinds { deaths: false, defensives: false },
            failures: Failures { deaths: None, defensives: None },
        }
    }
}

/// How long to wait after that many failures in a row.
pub open spec fn backoff(attempts: u8) -> u64 {
    if attempts == 1 {
        5_000_000
    } else if attempts == 2 {
        15_000_000
    } else if attempts == 3 {
        30_000_000
    } else {
        60_000_000
    }
}

/// What has been seen of the provider since the last native command.
#[derive(Clone, Copy, Debug, PartialEq, Eq, Structural)]
pub struct Range {
    /// When the present range of playback began: earlier samples do not count.
    pub epoch: u64,
    pub pause_sent: bool,
    pub timeline_position: Option<i64>,
    pub observation: Option<Observation>,
    pub seek_generation: Option<u64>,
    pub seek_pending: bool,
}

/// A position that the provider showed.
#[derive(Clone, Copy, Debug, PartialEq, Eq, Structural)]
pub struct Observation {
    pub at: u64,
    pub position: i64,
}

impl Range {
    pub open spec fn fresh(now: u64) -> Range {
        Range {
            epoch: now,
            pause_sent: false,
            timeline_position: None,
            observation: None,
            seek_generation: None,
            seek_pending: false,
        }
    }

    pub fn start(now: u64) -> (range: Range)
        ensures
            range == Range::fresh(now),
    {
        Range {
            epoch: now,
            pause_sent: false,
            timeline_position: None,
            observation: None,
            seek_generation: None,
            seek_pending: false,
        }
    }
}

/// What the search for a marker in the picture is doing.
#[derive(Clone, Copy, Debug, PartialEq, Eq, Structural)]
pub struct MarkerSync {
    pub busy: bool,
    /// The time into the pull, and whether to play, to which the search goes back.
    pub intent: Option<MarkerIntent>,
}

#[derive(Clone, Copy, Debug, PartialEq, Eq, Structural)]
pub struct MarkerIntent {
    pub elapsed: i64,
    pub playing: bool,
}

impl MarkerSync {
    pub open spec fn idle() -> MarkerSync {
        MarkerSync { busy: false, intent: None }
    }

    pub fn reset(&mut self)
        ensures
            *final(self) == MarkerSync::idle(),
    {
        self.busy = false;
        self.intent = None;
    }
}

/// Where playback goes, and whether it plays.
#[derive(Debug)]
pub struct Playback {
    pub position: i64,
    pub autoplay: bool,
    pub broadcast_id: String,
    /// The whole second at which the provider's public page opens.
    pub public_second: u64,
}

impl Playback {
    /// Whether playback goes to this position of this broadcast.
    pub open spec fn is_at(self, position: i64, autoplay: bool, broadcast: Seq<char>) -> bool {
        &&& self.position == position
        &&& self.autoplay == autoplay
        &&& self.broadcast_id@ == broadcast
        &&& self.public_second == whole_second(position)
    }
}

/// The whole second of a position; none is before the start.
pub open spec fn whole_second(position: i64) -> u64 {
    if position < 0 { 0 } else { (position / 1_000_000) as u64 }
}

pub fn second_of(position: i64) -> (second: u64)
    ensures
        second == whole_second(position),
{
    if position < 0 { 0 } else { position as u64 / 1_000_000 }
}

/// A pull and a moment of it that another view is to show.
#[derive(Debug)]
pub struct Focus {
    pub pull: Pull,
    pub at_ms: i64,
    pub autoplay: bool,
}

/// A moment that is highlighted: when, and who.
#[derive(Debug)]
pub struct SelectedEvent {
    pub at_ms: i64,
    pub actor: String,
}

/// What the background worker does for the review.
#[derive(Debug)]
pub enum Action {
    Refresh,
    Connect,
    Disconnect,
    Events(Pull, EventKind),
    SaveCooldowns,
}

impl Action {
    /// Whether the action only reads, so that navigation may drop it.
    pub open spec fn reads(self) -> bool {
        self is Refresh || self is Events
    }
}

/// The background worker of one review.
#[derive(Debug)]
pub struct Worker {
    pub running: bool,
    pub action: Option<Action>,
    /// Whether the result is no longer wanted.
    pub cancelled: bool,
    pub generation: u64,
    /// When metadata was last asked for.
    pub last_attempt: Option<u64>,
}

impl Worker {
    /// Whether it reads something that is still wanted.
    pub open spec fn reading(self) -> bool {
        self.action is Some && self.action->0.reads() && !self.cancelled
    }

    pub open spec fn dropped(self) -> Worker {
        if self.reading() {
            Worker {
                cancelled: true,
                generation: next_generation(self.generation),
                last_attempt: if self.action->0 is Refresh { None } else { self.last_attempt },
                ..self
            }
        } else {
            self
        }
    }

    /// The kind of event that it reads for this pull.
    pub open spec fn reads_kind(self, pull: Option<PullView>) -> Option<EventKind> {
        if self.reading() {
            match self.action->0 {
                Action::Events(target, kind) => if pull is Some && same_pull(pull->0, target@) {
                    Some(kind)
                } else {
                    None
                },
                _ => None,
            }
        } else {
            None
        }
    }

    /// Drops its read; the kind of event that has to be asked for again for this pull.
    pub fn drop_read(&mut self, pull: &Option<Pull>) -> (kind: Option<EventKind>)
        ensures
            *final(self) == old(self).dropped(),
            kind == old(self).reads_kind(pull_view(*pull)),
    {
        if self.cancelled {
            return None;
        }
        let mut again: Option<EventKind> = None;
        match &self.action {
            Some(Action::Refresh) => {
                self.last_attempt = None;
            },
            Some(Action::Events(target, kind)) => {
                if let Some(selected) = pull {
                    if is_same_pull(selected, target) {
                        again = Some(*kind);
                    }
                }
            },
            _ => {
                return None;
            },
        }
        self.cancelled = true;
        self.generation = if self.generation == u64::MAX { 0 } else { self.generation + 1 };
        again
    }

    pub open spec fn taken(self, action: Action, now: u64) -> Worker {
        Worker {
            running: true,
            cancelled: false,
            generation: next_generation(self.generation),
            last_attempt: if action is Refresh { Some(now) } else { self.last_attempt },
            action: Some(action),
        }
    }

    /// Takes an action under a new generation.
    pub fn take(&mut self, action: Action, now: u64)
        ensures
            *final(self) == old(self).taken(action, now),
    {
        self.running = true;
        self.cancelled = false;
        self.generation = if self.generation == u64::MAX { 0 } else { self.generation + 1 };
        if let Action::Refresh = &action {
            self.last_attempt = Some(now);
        }
        self.action = Some(action);
    }
}

/// The selected pull, and what the user sees of it.
#[derive(Debug)]
pub struct Selection {
    pub pull: Option<Pull>,
    pub events: PullEvents,
    pub selected_event: Option<SelectedEvent>,
    pub scroll_to_event: bool,
    pub scrub: Option<i64>,
}

impl Selection {
    pub open spec fn selects(self, pull: PullView) -> bool {
        self.pull is Some && same_pull(self.pull->0@, pull)
    }

    /// Whether nothing is known yet of the selected pull.
    pub open spec fn untouched(self) -> bool {
        self.events.cleared() && self.selected_event is None && !self.scroll_to_event && self.scrub is None
    }

    pub fn of(pull: Option<Pull>) -> (selection: Selection)
        ensures
            selection.pull == pull,
            selection.untouched(),
    {
        Selection {
            pull,
            events: PullEvents::empty(),
            selected_event: None,
            scroll_to_event: false,
            scrub: None,
        }
    }

    /// Whether this is `before` without its pull.
    pub open spec fn forgotten(self, before: Selection) -> bool {
        &&& self.pull is None && self.events.cleared() && self.selected_event is None
        &&& self.scroll_to_event == before.scroll_to_event && self.scrub == before.scrub
    }

    /// Forgets the pull and everything that was read of it.
    pub fn forget(&mut self)
        ensures
            final(self).forgotten(*old(self)),
    {
        self.pull = None;
        self.events = PullEvents::empty();
        self.selected_event = None;
    }

    pub fn is_selected(&self, pull: &Pull) -> (yes: bool)
        ensures
            yes == self.selects(pull@),
    {
        match &self.pull {
            Some(selected) => is_same_pull(selected, pull),
            None => false,
        }
    }
}

/// What the review is used for at the moment.
#[derive(Clone, Copy, Debug, PartialEq, Eq, Structural)]
pub struct Mode {
    /// A peer that only reads metadata for a comparison.
    pub metadata_only: bool,
    pub connected: bool,
    pub connection_checked: bool,
    pub signing_in: bool,
    pub active: bool,
    pub comparing: bool,
    pub open_first_pull: bool,
    pub popup_open: bool,
}

/// How the list of events is shown.
#[derive(Debug)]
pub struct EventList {
    pub kind: EventKind,
    pub show_all_deaths: bool,
    pub search: String,
}

/// The tracked spells, and changes to them under way.
#[derive(Debug)]
pub struct Cooldowns {
    pub current: Preferences,
    pub editor: Option<CooldownEditor>,
    /// What is to be saved for the account.
    pub save: Option<Preferences>,
    pub notice: Option<String>,
    pub filter: DefensiveGroup,
}

pub struct ReviewUi {
    pub worker: Worker,
    pub mode: Mode,
    /// The view that is reviewed.
    pub key: String,
    pub refresh_period: u64,
    pub notice: Option<String>,
    pub review: Option<Review>,
    pub replay_coverage: Option<(i64, i64)>,
    pub playback: Option<Playback>,
    pub selection: Selection,
    pub pending_focus: Option<Focus>,
    pub aligning: bool,
    pub range: Range,
    pub marker: MarkerSync,
    pub marker_cache: MarkerCache,
    pub list: EventList,
    pub cooldowns: Cooldowns,
}

impl ReviewUi {
    /// Whether this is a review of nothing yet, with the guild's catalogue of spells.
    pub open spec fn starts_with(self, catalog: Catalog, metadata_only: bool, now: u64) -> bool {
        &&& self.mode == (Mode {
            metadata_only,
            connected: false,
            connection_checked: false,
            signing_in: false,
            active: false,
            comparing: false,
            open_first_pull: false,
            popup_open: false,
        })
        &&& self.worker == (Worker {
            running: false,
            action: None,
            cancelled: false,
            generation: 0,
            last_attempt: None,
        })
        &&& self.key@.len() == 0
        &&& self.refresh_period == IDLE_REFRESH
        &&& self.notice is None && self.review is None && self.playback is None && self.pending_focus is None
        &&& self.replay_coverage is None && !self.aligning
        &&& self.selection.pull is None && self.selection.untouched()
        &&& self.range == Range::fresh(now)
        &&& self.marker == MarkerSync::idle()
        &&& self.marker_cache@ == Map::<MarkerKey, Alignment>::empty()
        &&& self.list.kind == EventKind::Deaths && !self.list.show_all_deaths && self.list.search@.len() == 0
        &&& self.cooldowns.current@.catalog == catalog@
        &&& self.cooldowns.current@.overrides == Map::<u64, crate::cooldowns::Rule>::empty()
        &&& self.cooldowns.current@.hidden == Seq::<DefensiveGroup>::empty()
        &&& self.cooldowns.editor is None && self.cooldowns.save is None && self.cooldowns.notice is None
        &&& self.cooldowns.filter == DefensiveGroup::Healing
    }

    /// A review of nothing yet, with the guild's catalogue of spells.
    pub fn new(catalog: Catalog, now: u64) -> (ui: ReviewUi)
        ensures
            ui.starts_with(catalog, false, now),
    {
        ReviewUi {
            worker: Worker { running: false, action: None, cancelled: false, generation: 0, last_attempt: None },
            mode: Mode {
                metadata_only: false,
                connected: false,
                connection_checked: false,
                signing_in: false,
                active: false,
                comparing: false,
                open_first_pull: false,
                popup_open: false,
            },
            key: String::new(),
            refresh_period: IDLE_REFRESH,
            notice: None,
            review: None,
            replay_coverage: None,
            playback: None,
            selection: Selection::of(None),
            pending_focus: None,
            aligning: false,
            range: Range::start(now),
            marker: MarkerSync { busy: false, intent: None },
            marker_cache: MarkerCache::new(),
            list: EventList { kind: EventKind::Deaths, show_all_deaths: false, search: String::new() },
            cooldowns: Cooldowns {
                current: Preferences::new(catalog),
                editor: None,
                save: None,
                notice: None,
                filter: DefensiveGroup::Healing,
            },
        }
    }

    /// A review that only reads metadata, for a comparison.
    pub fn metadata_peer(catalog: Catalog, now: u64) -> (peer: ReviewUi)
        ensures
            peer.starts_with(catalog, true, now),
    {
        let mut peer = ReviewUi::new(catalog, now);
        peer.mode.metadata_only = true;
        peer
    }

    /// Exchanges the clocks that were found for those of `shared`: a review and its peers use
    /// one cache in turn.
    pub fn exchange_markers(&mut self, shared: &mut MarkerCache)
        ensures
            *final(self) == (ReviewUi { marker_cache: *old(shared), ..*old(self) }),
            *final(shared) == old(self).marker_cache,
    {
        core::mem::swap(&mut self.marker_cache, shared);
    }

    pub fn active(&self) -> (active: bool)
        ensures
            active == self.mode.active,
    {
        self.mode.active
    }

    pub fn playback(&self) -> (playback: Option<&Playback>)
        ensures
            playback is Some == self.playback is Some,
            playback is Some ==> *playback->0 == self.playback->0,
    {
        match &self.playback {
            Some(playback) => Some(playback),
            None => None,
        }
    }

    // ------------------------------------------------------------ the worker

    /// The review after its read is dropped: what the read would have answered is asked
    /// anew where it is still wanted.
    pub open spec fn read_cancelled(self) -> ReviewUi {
        ReviewUi {
            worker: self.worker.dropped(),
            selection: match self.worker.reads_kind(pull_view(self.selection.pull)) {
                Some(kind) => Selection { events: self.selection.events.unrequested(kind), ..self.selection },
                None => self.selection,
            },
            ..self
        }
    }

    /// Drops the worker's read. Account actions go on.
    pub fn cancel_read(&mut self)
        ensures
            *final(self) == old(self).read_cancelled(),
    {
        if let Some(kind) = self.worker.drop_read(&self.selection.pull) {
            let mut requested = self.selection.events.requested;
            requested.set(kind, false);
            self.selection.events.requested = requested;
        }
    }

    pub open spec fn interval(self) -> u64 {
        if self.notice is Some { IDLE_REFRESH } else { self.refresh_period }
    }

    /// How soon metadata is read again: errors back off.
    pub fn refresh_interval(&self) -> (interval: u64)
        ensures
            interval == self.interval(),
    {
        if self.notice.is_some() { IDLE_REFRESH } else { self.refresh_period }
    }

    pub open spec fn refresh_due(self, now: u64) -> bool {
        self.worker.last_attempt is None || elapsed_since(self.worker.last_attempt->0, now) >= self.interval()
    }

    /// Whether this is what the worker does next.
    pub open spec fn acts(self, now: u64, action: Option<Action>) -> bool {
        let missing = self.selection.events.missing_kind(now);
        if self.worker.running {
            action is None
        } else if self.mode.active && self.selection.pull is Some && missing is Some {
            &&& action is Some && action->0 is Events
            &&& action->0->Events_0@ == self.selection.pull->0@
            &&& action->0->Events_1 == missing->0
        } else if self.refresh_due(now) {
            action == Some(Action::Refresh)
        } else {
            action is None
        }
    }

    /// What the worker does next: the missing events of the selected pull, then metadata.
    pub fn next_action(&self, now: u64) -> (action: Option<Action>)
        ensures
            self.acts(now, action),
    {
        if self.worker.running {
            return None;
        }
        if self.mode.active {
            if let Some(pull) = &self.selection.pull {
                if let Some(kind) = self.selection.events.find_missing(now) {
                    return Some(Action::Events(pull.clone(), kind));
                }
            }
        }
        let due = match self.worker.last_attempt {
            Some(at) => elapsed(at, now) >= self.refresh_interval(),
            None => true,
        };
        if due {
            Some(Action::Refresh)
        } else {
            None
        }
    }

    /// Whether this is `before` once an action was handed to its worker, with the generation
    /// that the action runs under.
    pub open spec fn started_from(
        self,
        before: ReviewUi,
        action: Action,
        permit: bool,
        now: u64,
        generation: Option<u64>,
    ) -> bool {
        &&& generation == if before.worker.running || (before.mode.metadata_only && !permit) {
            None
        } else {
            Some(next_generation(before.worker.generation))
        }
        &&& self == if generation is None {
            before
        } else {
            (ReviewUi {
                worker: before.worker.taken(action, now),
                selection: match action {
                    Action::Events(_, kind) => Selection {
                        events: before.selection.events.asked(kind),
                        ..before.selection
                    },
                    _ => before.selection,
                },
                mode: Mode { signing_in: action is Connect, ..before.mode },
                ..before
            })
        }
    }

    /// Hands an action to the worker, under a new generation. A peer that only reads
    /// metadata needs the shared permit for it.
    pub fn start(&mut self, action: Action, permit: bool, now: u64) -> (generation: Option<u64>)
        ensures
            final(self).started_from(*old(self), action, permit, now, generation),
    {
        if self.worker.running || (self.mode.metadata_only && !permit) {
            return None;
        }
        let connecting = match &action {
            Action::Connect => true,
            _ => false,
        };
        if let Action::Events(_, kind) = &action {
            let mut requested = self.selection.events.requested;
            requested.set(*kind, true);
            self.selection.events.requested = requested;
        }
        self.mode.signing_in = connecting;
        self.worker.take(action, now);
        Some(self.worker.generation)
    }

    /// The review goes away: what the worker still brings, a sign-in included, is not wanted.
    pub fn abandon(&mut self)
        ensures
            *final(self) == (ReviewUi { worker: Worker { cancelled: true, ..old(self).worker }, ..*old(self) }),
    {
        self.worker.cancelled = true;
    }

    /// Notes that one kind of event could not be read, and when to try again.
    pub fn record_event_failure(&mut self, kind: EventKind, message: String, now: u64)
        ensures
            *final(self) == (ReviewUi {
                selection: Selection {
                    events: old(self).selection.events.failed(kind, message, now),
                    ..old(self).selection
                },
                ..*old(self)
            }),
    {
        self.selection.events.record_failure(kind, message, now);
    }

    pub open spec fn retry_after(self, now: u64) -> Option<u64> {
        if !self.mode.active || self.selection.pull is None || self.worker.running {
            None
        } else {
            sooner(
                self.selection.events.retry_wait(EventKind::Deaths, now),
                self.selection.events.retry_wait(EventKind::Defensives, now),
            )
        }
    }

    /// How soon a failed read of events is tried again.
    pub fn event_retry_after(&self, now: u64) -> (wait: Option<u64>)
        ensures
            wait == self.retry_after(now),
    {
        if !self.mode.active || self.selection.pull.is_none() || self.worker.running {
            return None;
        }
        match (
            self.selection.events.kind_wait(EventKind::Deaths, now),
            self.selection.events.kind_wait(EventKind::Defensives, now),
        ) {
            (Some(a), Some(b)) => if a < b {
                Some(a)
            } else {
                Some(b)
            },
            (Some(a), None) => Some(a),
            (None, b) => b,
        }
    }

    /// How soon the review has to be looked at again, without input or a playing video.
    pub open spec fn wake_after(self, now: u64) -> u64 {
        let wait = match self.worker.last_attempt {
            Some(at) => {
                let left = if self.interval() > elapsed_since(at, now) {
                    (self.interval() - elapsed_since(at, now)) as u64
                } else {
                    0
                };
                if left < MIN_WAIT { MIN_WAIT } else { left }
            },
            None => 1_000_000,
        };
        match self.retry_after(now) {
            Some(retry) => if retry < wait { retry } else { wait },
            None => wait,
        }
    }

    pub fn wake(&self, now: u64) -> (wait: u64)
        ensures
            wait == self.wake_after(now),
    {
        let wait: u64 = match self.worker.last_attempt {
            Some(at) => {
                let since: u64 = elapsed(at, now);
                let interval: u64 = self.refresh_interval();
                let left: u64 = if interval > since { interval - since } else { 0 };
                if left < MIN_WAIT { MIN_WAIT } else { left }
            },
            None => 1_000_000,
        };
        match self.event_retry_after(now) {
            Some(retry) => if retry < wait {
                retry
            } else {
                wait
            },
            None => wait,
        }
    }
}

/// The sooner of two waits, where there is one.
pub open spec fn sooner(a: Option<u64>, b: Option<u64>) -> Option<u64> {
    match (a, b) {
        (Some(a), Some(b)) => Some(if a < b { a } else { b }),
        (Some(a), None) => Some(a),
        (None, b) => b,
    }
}

/// The permit that only one metadata peer holds at a time. Only taking it makes one.
#[derive(Debug)]
pub struct PeerMetadataPermit {
    held: bool,
}

impl PeerMetadataPermit {
    /// Takes the permit where nobody holds it.
    pub fn acquire(running: &mut bool) -> (permit: Option<PeerMetadataPermit>)
        ensures
            permit is Some == !*old(running),
            *final(running),
    {
        if *running {
            None
        } else {
            *running = true;
            Some(PeerMetadataPermit { held: true })
        }
    }

    /// Gives the permit back, where it was taken.
    pub fn release(self, running: &mut bool)
        requires
            *old(running),
        ensures
            !*final(running),
    {
        *running = false;
    }
}

// ---------------------------------------------------------------- laws

/// Dropping a read twice is the same as once, so rapid navigation starts one generation
/// and keeps one worker.
pub proof fn cancelling_again_changes_nothing(ui: ReviewUi)
    ensures
        ui.read_cancelled().read_cancelled() == ui.read_cancelled(),
        ui.read_cancelled().worker.running == ui.worker.running,
        ui.worker.reading() ==> ui.read_cancelled().worker.generation != ui.worker.generation,
{
}

/// Navigation never drops an account action.
pub proof fn account_actions_survive_navigation(ui: ReviewUi)
    requires
        ui.worker.action is Some,
        !ui.worker.action->0.reads(),
    ensures
        ui.read_cancelled() == ui,
{
}

/// However often reading fails, the wait stays between five seconds and a minute, and
/// never shrinks from one failure to the next.
pub proof fn backoff_is_bounded(attempts: u8, more: u8)
    requires
        1 <= attempts <= more,
    ensures
        5_000_000 <= backoff(attempts) <= 60_000_000,
        backoff(attempts) <= backoff(more),
{
}

/// A failure of one kind of event never delays the other.
pub proof fn failures_do_not_block_the_other_kind(events: PullEvents, message: String, now: u64, later: u64)
    ensures
        events.failed(EventKind::Deaths, message, now).misses(EventKind::Defensives, later) == events.misses(
            EventKind::Defensives,
            later,
        ),
        events.failed(EventKind::Defensives, message, now).misses(EventKind::Deaths, later) == events.misses(
            EventKind::Deaths,
            later,
        ),
{
}

/// A read that failed is tried again five, fifteen, thirty and then every sixty seconds after its
/// failure, and not before; the failure keeps its own message and counts once more.
pub proof fn failed_reads_are_tried_again(events: PullEvents, kind: EventKind, message: String, now: u64, later: u64)
    requires
        now <= 9_000_000_000_000_000_000,
        events.requested.has(kind) && !events.loaded.has(kind),
    ensures
        ({
            let failed = events.failed(kind, message, now);
            let past: u8 = match events.failures.of(kind) {
                Some(failure) => failure.attempts,
                None => 0,
            };
            let wait: int = if past == 0 {
                5_000_000
            } else if past == 1 {
                15_000_000
            } else if past == 2 {
                30_000_000
            } else {
                60_000_000
            };
            &&& failed.misses(kind, later) <==> later >= now + wait
            &&& failed.failures.of(kind) is Some && failed.failures.of(kind)->0.message == message
            &&& failed.failures.of(kind)->0.attempts == if past == 255 { 255 } else { past + 1 }
            &&& failed.retry_wait(kind, now) == Some(wait as u64)
            &&& failed.events == events.events && failed.requested == events.requested && failed.loaded == events.loaded
        }),
{
}

/// The two kinds of event are kept apart: what is set for one holds for it, and the other stays.
pub proof fn kinds_are_kept_apart(kinds: Kinds, failures: Failures, kind: EventKind, present: bool, failure: Option<EventFailure>)
    ensures
        kinds.with(kind, present).has(kind) == present,
        failures.with(kind, failure).of(kind) == failure,
        kinds.with(EventKind::Deaths, present).has(EventKind::Defensives) == kinds.has(EventKind::Defensives),
        kinds.with(EventKind::Defensives, present).has(EventKind::Deaths) == kinds.has(EventKind::Deaths),
        failures.with(EventKind::Deaths, failure).of(EventKind::Defensives) == failures.of(EventKind::Defensives),
        failures.with(EventKind::Defensives, failure).of(EventKind::Deaths) == failures.of(EventKind::Deaths),
        kinds.has(EventKind::Deaths) == kinds.deaths && kinds.has(EventKind::Defensives) == kinds.defensives,
        failures.of(EventKind::Deaths) == failures.deaths && failures.of(EventKind::Defensives) == failures.defensives,
        !Kinds::none().has(kind),
{
}

/// A kind that was loaded is not read again; one that was never asked is read at once; one that is
/// being read, with no failure, is not asked a second time.
pub proof fn each_kind_is_read_once(events: PullEvents, kind: EventKind, now: u64)
    ensures
        events.loaded.has(kind) ==> !events.misses(kind, now) && events.retry_wait(kind, now) is None,
        !events.loaded.has(kind) && !events.requested.has(kind) ==> events.misses(kind, now),
        events.failures.of(kind) is None ==> !events.asked(kind).misses(kind, now),
        !events.loaded.has(kind) ==> events.unrequested(kind).misses(kind, now),
        events.asked(kind).events == events.events && events.unrequested(kind).events == events.events,
        events.cleared() ==> events.misses(kind, now) && events.events@.len() == 0 && events.failures.of(kind) is None,
{
}

/// Deaths are read first, defensives as soon as no deaths are missing, and nothing only where
/// neither is.
pub proof fn deaths_are_read_first(events: PullEvents, now: u64)
    ensures
        events.misses(EventKind::Deaths, now) <==> events.missing_kind(now) == Some(EventKind::Deaths),
        !events.misses(EventKind::Deaths, now) && events.misses(EventKind::Defensives, now) <==> events.missing_kind(
            now,
        ) == Some(EventKind::Defensives),
        events.missing_kind(now) is None <==> !events.misses(EventKind::Deaths, now) && !events.misses(
            EventKind::Defensives,
            now,
        ),
{
}

/// After an error metadata is read every sixty seconds, otherwise as often as its period says;
/// it is due from then on, and at once where it was never asked for.
pub proof fn metadata_is_due_after_its_interval(ui: ReviewUi, now: u64)
    ensures
        ui.notice is Some ==> ui.interval() == 60_000_000,
        ui.notice is None ==> ui.interval() == ui.refresh_period,
        ui.worker.last_attempt is None ==> ui.refresh_due(now),
        ui.worker.last_attempt is Some && now >= ui.worker.last_attempt->0 ==> (ui.refresh_due(now) <==> now
            - ui.worker.last_attempt->0 >= ui.interval()),
        LIVE_REFRESH == 15_000_000 && IDLE_REFRESH == 60_000_000 && MIN_WAIT == 250_000,
{
}

/// A worker that is busy is given nothing; an idle one the missing events of the pull that is
/// watched, deaths first, and metadata only where none are missing and it is due.
pub proof fn idle_workers_are_given_what_is_missing(ui: ReviewUi, now: u64, action: Option<Action>)
    requires
        ui.acts(now, action),
    ensures
        ui.worker.running ==> action is None,
        action is Some && action->0 is Events ==> {
            &&& ui.mode.active && ui.selection.pull is Some && action->0->Events_0@ == ui.selection.pull->0@
            &&& ui.selection.events.misses(action->0->Events_1, now)
        },
        action is Some ==> action->0 is Events || action->0 is Refresh,
        action == Some(Action::Refresh) ==> ui.refresh_due(now) && !ui.worker.running,
        !ui.worker.running && ui.mode.active && ui.selection.pull is Some && ui.selection.events.misses(
            EventKind::Deaths,
            now,
        ) ==> action is Some && action->0 is Events && action->0->Events_1 == EventKind::Deaths,
        !ui.worker.running && ui.mode.active && ui.selection.pull is Some && !ui.selection.events.misses(
            EventKind::Deaths,
            now,
        ) && ui.selection.events.misses(EventKind::Defensives, now) ==> action is Some && action->0 is Events
            && action->0->Events_1 == EventKind::Defensives,
        !ui.worker.running && ui.refresh_due(now) ==> action is Some,
        !ui.worker.running && ui.refresh_due(now) && (!ui.mode.active || ui.selection.pull is None) ==> action == Some(
            Action::Refresh,
        ),
{
}

/// Only an idle worker takes an action, a metadata peer's only with the permit. It then runs
/// under a generation of its own, a read of events counts as asked, and only a sign-in shows
/// as one; a refused action changes nothing.
pub proof fn actions_start_under_a_new_generation(
    before: ReviewUi,
    after: ReviewUi,
    action: Action,
    permit: bool,
    now: u64,
    generation: Option<u64>,
)
    requires
        after.started_from(before, action, permit, now, generation),
    ensures
        generation is Some <==> !before.worker.running && (permit || !before.mode.metadata_only),
        generation is None ==> after == before,
        generation is Some ==> {
            &&& generation == Some(after.worker.generation) && after.worker.generation != before.worker.generation
            &&& before.worker.generation < u64::MAX ==> after.worker.generation == before.worker.generation + 1
            &&& after.worker.running && !after.worker.cancelled && after.worker.action == Some(action)
            &&& action is Refresh ==> after.worker.last_attempt == Some(now)
            &&& !(action is Refresh) ==> after.worker.last_attempt == before.worker.last_attempt
            &&& after.mode.signing_in == (action is Connect)
            &&& action is Events ==> after.selection.events.requested.has(action->Events_1)
            &&& !(action is Events) ==> after.selection == before.selection
            &&& after.selection.pull == before.selection.pull && after.selection.events.events
                == before.selection.events.events && after.selection.events.loaded == before.selection.events.loaded
            &&& after.playback == before.playback && after.review == before.review && after.notice == before.notice
            &&& after.mode.active == before.mode.active && after.mode.connected == before.mode.connected
        },
{
}

/// A read that is dropped is no longer wanted, under a generation that its result does not
/// have, and is asked again: metadata at once, events where their pull is still chosen.
pub proof fn dropped_reads_are_asked_again(ui: ReviewUi, now: u64)
    requires
        ui.worker.action is Some && !ui.worker.cancelled,
    ensures
        ({
            let after = ui.read_cancelled();
            &&& ui.worker.action->0 is Refresh || ui.worker.action->0 is Events ==> after.worker.cancelled
                && after.worker.generation != ui.worker.generation
            &&& ui.worker.action->0 is Refresh ==> after.refresh_due(now)
            &&& ui.worker.action->0 is Events ==> after.worker.last_attempt == ui.worker.last_attempt
            &&& ui.worker.action->0 is Connect || ui.worker.action->0 is Disconnect
                || ui.worker.action->0 is SaveCooldowns ==> after == ui
            &&& ui.worker.action->0 is Events && ui.selection.pull is Some && ui.selection.pull->0.id
                == ui.worker.action->0->Events_0.id && ui.selection.pull->0.report@
                == ui.worker.action->0->Events_0.report@ ==> !after.selection.events.requested.has(
                ui.worker.action->0->Events_1,
            )
            &&& ui.worker.action->0 is Events && (ui.selection.pull is None || ui.selection.pull->0.id
                != ui.worker.action->0->Events_0.id) ==> after.selection == ui.selection
            &&& after.worker.running == ui.worker.running && after.worker.action == ui.worker.action
            &&& after.selection.events.events == ui.selection.events.events && after.selection.events.loaded
                == ui.selection.events.loaded && after.selection.pull == ui.selection.pull
            &&& after.playback == ui.playback && after.review == ui.review && after.mode == ui.mode
        }),
{
}

/// The review looks at itself again when something is due: at most a refresh interval later, no
/// sooner than a quarter of a second, and by the time a failed read may be tried again.
pub proof fn reviews_wake_when_something_is_due(ui: ReviewUi, now: u64)
    ensures
        ui.retry_after(now) is Some ==> ui.wake_after(now) <= ui.retry_after(now)->0,
        ui.worker.last_attempt is None && ui.retry_after(now) is None ==> ui.wake_after(now) == 1_000_000,
        ui.wake_after(now) >= 250_000,
        ui.worker.last_attempt is Some && ui.worker.last_attempt->0 <= now && ui.retry_after(now) is None ==> {
            let due = ui.worker.last_attempt->0 + ui.interval();
            &&& due >= now + 250_000 ==> now + ui.wake_after(now) == due
            &&& due < now + 250_000 ==> ui.wake_after(now) == 250_000
        },
        !ui.mode.active || ui.selection.pull is None || ui.worker.running ==> ui.retry_after(now) is None,
        ui.mode.active && ui.selection.pull is Some && !ui.worker.running ==> {
            let deaths = ui.selection.events.retry_wait(EventKind::Deaths, now);
            let defensives = ui.selection.events.retry_wait(EventKind::Defensives, now);
            &&& ui.retry_after(now) is None <==> deaths is None && defensives is None
            &&& deaths is Some ==> ui.retry_after(now)->0 <= deaths->0
            &&& defensives is Some ==> ui.retry_after(now)->0 <= defensives->0
            &&& ui.retry_after(now) is Some ==> ui.retry_after(now) == deaths || ui.retry_after(now) == defensives
        },
{
}

/// A failed read waits until it may be tried again, a quarter of a second at least.
pub proof fn failed_reads_wait_their_turn(events: PullEvents, kind: EventKind, now: u64)
    ensures
        match events.retry_wait(kind, now) {
            Some(wait) => {
                &&& !events.loaded.has(kind) && events.failures.of(kind) is Some
                &&& wait >= 250_000 && now + wait >= events.failures.of(kind)->0.retry_at
                &&& wait > 250_000 ==> now + wait == events.failures.of(kind)->0.retry_at
            },
            None => events.loaded.has(kind) || events.failures.of(kind) is None,
        },
{
}

/// A position opens at the second it lies in; one before the start at the start.
pub proof fn pages_open_at_the_second(position: i64)
    ensures
        position >= 0 ==> 0 <= position - whole_second(position) * 1_000_000 < 1_000_000,
        position < 0 ==> whole_second(position) == 0,
{
}

/// A new range of playback starts at the present moment, with nothing seen.
pub proof fn new_ranges_have_seen_nothing(now: u64)
    ensures
        Range::fresh(now).epoch == now && !Range::fresh(now).pause_sent && !Range::fresh(now).seek_pending,
        Range::fresh(now).observation is None && Range::fresh(now).timeline_position is None && Range::fresh(
            now,
        ).seek_generation is None,
        !MarkerSync::idle().busy && MarkerSync::idle().intent is None,
{
}

/// A pull is chosen exactly where the chosen one has its report and number.
pub proof fn one_pull_is_chosen(selection: Selection, pull: PullView)
    ensures
        selection.selects(pull) <==> selection.pull is Some && selection.pull->0.report@ == pull.report
            && selection.pull->0.id == pull.id,
{
}

/// A new review shows nothing, reads metadata first and at once, tracks what the guild does, and is not
/// connected before it was looked up.
pub proof fn new_reviews_know_nothing(ui: ReviewUi, catalog: Catalog, metadata_only: bool, now: u64, later: u64)
    requires
        ui.starts_with(catalog, metadata_only, now),
    ensures
        !ui.mode.active && !ui.mode.connected && !ui.mode.connection_checked && ui.mode.metadata_only == metadata_only,
        ui.review is None && ui.playback is None && ui.selection.pull is None && ui.pending_focus is None && ui.notice
            is None && !ui.aligning,
        !ui.worker.running && ui.refresh_due(later) && ui.interval() == 60_000_000,
        ui.acts(later, Some(Action::Refresh)),
        ui.range.epoch == now && !ui.range.pause_sent,
        ui.list.kind == EventKind::Deaths && !ui.list.show_all_deaths && ui.list.search@.len() == 0
            && ui.cooldowns.filter == DefensiveGroup::Healing,
        ui.cooldowns.current@.catalog == catalog@ && ui.cooldowns.save is None && ui.cooldowns.editor is None,
        forall|group: DefensiveGroup| #[trigger] ui.cooldowns.current@.visible(group),
        forall|id: u64| #[trigger] ui.cooldowns.current@.rule(id) == crate::cooldowns::catalog_rule(catalog@, id),
{
}

/// Of a pull that was just chosen nothing is read, asked, highlighted or held.
pub proof fn fresh_choices_hold_nothing(selection: Selection, before: Selection, kind: EventKind)
    ensures
        selection.untouched() ==> selection.events.events@.len() == 0 && !selection.events.requested.has(kind)
            && !selection.events.loaded.has(kind) && selection.events.failures.of(kind) is None && selection.selected_event
            is None && !selection.scroll_to_event && selection.scrub is None,
        selection.forgotten(before) ==> selection.pull is None && selection.events.events@.len() == 0
            && !selection.events.loaded.has(kind) && selection.selected_event is None,
{
}

/// Playback stands where it was placed, in its broadcast, and opens at the second of it.
pub proof fn placed_playback_stands_there(playback: Playback, position: i64, autoplay: bool, broadcast: Seq<char>)
    requires
        playback.is_at(position, autoplay, broadcast),
    ensures
        playback.position == position && playback.autoplay == autoplay && playback.broadcast_id@ == broadcast,
        position >= 0 ==> playback.public_second == position / 1_000_000,
{
}

} // verus!
