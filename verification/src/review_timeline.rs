//! The timeline of a pull, and the list of its events.
use crate::address::text_of;
use crate::cooldowns::PreferencesView;
use crate::playback::{PlaybackCommand, PlaybackState};
use crate::raid::{narrow, nearest_thousand, to_i64, video_start, DefensiveGroup, EventKind, RaidEvent};
use crate::raid_text::{pull_duration, pull_length};
use crate::review_playback::{intended, playback_intent};
use crate::review_state::{EventList, Range, ReviewUi, SelectedEvent, Selection};
use crate::text::{ascii_text, contains, lowercase, occurs, same_text, small_text, to_lowercase};
use vstd::prelude::*;

verus! {

// ---------------------------------------------------------------- the transport

/// What the transport of a pull shows. Times are in microseconds.
#[derive(Clone, Copy, Debug, PartialEq, Eq, Structural)]
pub struct Timeline {
    pub duration: i64,
    /// The position to show, where one is known.
    pub display: Option<i64>,
    /// How far that is into the pull; before it, or past its end, too.
    pub elapsed: i64,
    /// The place of the handle, inside the pull.
    pub handle: i64,
    pub playing: bool,
    /// Whether the pull is over, so that it can be played again.
    pub replay: bool,
    pub show_cursor: bool,
}

pub open spec fn within(n: i64, low: int, high: int) -> int {
    if n < low { low } else if n > high { high } else { n as int }
}

impl ReviewUi {
    /// The position that the timeline shows: where the video goes, where it was seen, or
    /// where it was sent. None of them confirms a jump.
    pub open spec fn displayed(self, state: PlaybackState, now: u64) -> Option<i64> {
        if state.seeking is Some && state.fresh_since(self.range.epoch, now) {
            state.seeking
        } else if self.confirmed(state, now) is Some {
            self.confirmed(state, now)
        } else if self.range.timeline_position is Some {
            self.range.timeline_position
        } else {
            match self.playback {
                Some(playback) => Some(playback.position),
                None => None,
            }
        }
    }

    pub open spec fn timeline_of(self, state: PlaybackState, now: u64) -> Timeline {
        let pull = self.selection.pull->0@;
        let duration = to_i64(pull_length(pull));
        let display = self.displayed(state, now);
        let elapsed = match display {
            Some(position) => to_i64(position - video_start(self.review->0@, pull)),
            None => 0,
        };
        Timeline {
            duration,
            display,
            elapsed,
            handle: match self.selection.scrub {
                Some(scrub) => scrub,
                None => within(elapsed, 0, duration as int) as i64,
            },
            playing: !state.blocked && intended(state, self.playback),
            replay: self.confirmed(state, now) is Some && elapsed >= duration && !self.aligning,
            show_cursor: self.selection.scrub is Some || (display is Some && 0 <= elapsed <= duration),
        }
    }

    /// The review once its timeline was looked at.
    pub open spec fn looked_at(self, state: PlaybackState, now: u64) -> ReviewUi {
        if self.selection.pull is Some && self.review is Some && self.confirmed(state, now) is Some {
            ReviewUi { range: Range { timeline_position: self.confirmed(state, now), ..self.range }, ..self }
        } else {
            self
        }
    }

    /// What the transport shows, where a pull is chosen. The last position seen is kept for
    /// while the video buffers.
    pub fn timeline(&mut self, state: &PlaybackState, now: u64) -> (timeline: Option<Timeline>)
        requires
            old(self).selection.pull is Some ==> old(self).selection.pull->0.start_ms <= old(self).selection.pull->0.end_ms,
        ensures
            timeline == if old(self).selection.pull is Some && old(self).review is Some {
                Some(old(self).timeline_of(*state, now))
            } else {
                None
            },
            *final(self) == old(self).looked_at(*state, now),
    {
        let (start, duration): (i64, i64) = match (&self.selection.pull, &self.review) {
            (Some(pull), Some(review)) => (review.pull_video_start(pull), pull_duration(pull)),
            _ => {
                return None;
            },
        };
        let confirmed = self.confirmed_video_position(state, now);
        let target = if state.is_fresh_since(self.range.epoch, now) {
            state.seeking
        } else {
            None
        };
        let display: Option<i64> = if target.is_some() {
            target
        } else if confirmed.is_some() {
            confirmed
        } else if self.range.timeline_position.is_some() {
            self.range.timeline_position
        } else {
            match &self.playback {
                Some(playback) => Some(playback.position),
                None => None,
            }
        };
        if confirmed.is_some() {
            self.range.timeline_position = confirmed;
        }
        let elapsed: i64 = match display {
            Some(position) => narrow(position as i128 - start as i128),
            None => 0,
        };
        let inside: i64 = if elapsed < 0 { 0 } else if elapsed > duration { duration } else { elapsed };
        Some(
            Timeline {
                duration,
                display,
                elapsed,
                handle: match self.selection.scrub {
                    Some(scrub) => scrub,
                    None => inside,
                },
                playing: !state.blocked && playback_intent(state, &self.playback),
                replay: confirmed.is_some() && elapsed >= duration && !self.aligning,
                show_cursor: self.selection.scrub.is_some() || (display.is_some() && 0 <= elapsed && elapsed
                    <= duration),
            },
        )
    }

    /// Whether this is `before` after its transport's button, with the command made of it.
    pub open spec fn pressed_from(
        self,
        before: ReviewUi,
        timeline: Timeline,
        now: u64,
        command: Option<PlaybackCommand>,
    ) -> bool {
        if timeline.replay {
            self.sought_from(before, before.selection.pull->0.start_ms, true, now, command)
        } else {
            self == before && command == Some(
                if timeline.playing { PlaybackCommand::Pause } else { PlaybackCommand::Play },
            )
        }
    }

    /// The transport's button: plays the pull again once it is over, and otherwise turns
    /// between playing and paused.
    pub fn press_play(&mut self, timeline: &Timeline, now: u64) -> (command: Option<PlaybackCommand>)
        requires
            old(self).selection.pull is Some,
        ensures
            final(self).pressed_from(*old(self), *timeline, now, command),
    {
        if timeline.replay {
            let start: i64 = match &self.selection.pull {
                Some(pull) => pull.start_ms,
                None => 0,
            };
            self.seek_absolute(start, now)
        } else if timeline.playing {
            Some(PlaybackCommand::Pause)
        } else {
            Some(PlaybackCommand::Play)
        }
    }

    pub open spec fn dragged(self, elapsed: i64) -> ReviewUi {
        ReviewUi { selection: Selection { scrub: Some(elapsed), ..self.selection }, ..self }
    }

    /// The handle is held at a time into the pull.
    pub fn drag(&mut self, elapsed: i64)
        ensures
            *final(self) == old(self).dragged(elapsed),
    {
        self.selection.scrub = Some(elapsed);
    }

    /// Whether this is `before` with its handle let go, with the command made of it.
    pub open spec fn let_go_from(
        self,
        before: ReviewUi,
        elapsed: i64,
        state: PlaybackState,
        now: u64,
        command: Option<PlaybackCommand>,
    ) -> bool {
        self.sought_from(
            (ReviewUi { selection: Selection { scrub: None, ..before.selection }, ..before }),
            to_i64(before.selection.pull->0.start_ms + nearest_thousand(elapsed as int)),
            intended(state, before.playback),
            now,
            command,
        )
    }

    /// The handle is let go at a time into the pull: the video goes there, and plays as it did.
    pub fn drop_handle(&mut self, elapsed: i64, state: &PlaybackState, now: u64) -> (command: Option<PlaybackCommand>)
        requires
            old(self).selection.pull is Some,
        ensures
            final(self).let_go_from(*old(self), elapsed, *state, now, command),
    {
        self.selection.scrub = None;
        let start: i64 = match &self.selection.pull {
            Some(pull) => pull.start_ms,
            None => 0,
        };
        let micros: i128 = elapsed as i128;
        let millis: i128 = if micros >= 0 { (micros + 500) / 1000 } else { -((500 - micros) / 1000) };
        let at_ms: i64 = narrow(start as i128 + millis);
        let playing = playback_intent(state, &self.playback);
        self.seek_absolute_with_playback(at_ms, playing, now)
    }

    /// Whether this is `before` after a click on its timeline, with the command made of it.
    pub open spec fn clicked_from(
        self,
        before: ReviewUi,
        elapsed: u64,
        now: u64,
        command: Option<PlaybackCommand>,
    ) -> bool {
        self.sought_from(before, to_i64(before.selection.pull->0.start_ms + elapsed / 1000), true, now, command)
    }

    /// The timeline is clicked at a time into the pull, whole milliseconds of which count.
    pub fn click_timeline(&mut self, elapsed: u64, now: u64) -> (command: Option<PlaybackCommand>)
        requires
            old(self).selection.pull is Some,
        ensures
            final(self).clicked_from(*old(self), elapsed, now, command),
    {
        let start: i64 = match &self.selection.pull {
            Some(pull) => pull.start_ms,
            None => 0,
        };
        let at_ms: i64 = narrow(start as i128 + (elapsed / 1000) as i128);
        self.seek_absolute(at_ms, now)
    }

    /// Whether this is `before` with an event of its timeline chosen, with the command made of it.
    pub open spec fn event_chosen_from(
        self,
        before: ReviewUi,
        event: RaidEvent,
        now: u64,
        command: Option<PlaybackCommand>,
    ) -> bool {
        let shown = ReviewUi {
            list: self.list,
            selection: Selection { scroll_to_event: true, ..before.selection },
            ..before
        };
        &&& self.list.kind == event.kind && self.list.show_all_deaths
        &&& self.list.search@.len() == 0
        &&& (ReviewUi { selection: shown.selection, ..self }).sought_from(shown, event.at_ms, true, now, command)
        &&& command is None ==> self.selection == shown.selection
        &&& command is Some ==> {
            &&& self.selection.selected_event is Some
            &&& self.selection.selected_event->0.at_ms == event.at_ms
            &&& self.selection.selected_event->0.actor@ == event.actor@
            &&& self.selection == (Selection { selected_event: self.selection.selected_event, ..shown.selection })
        }
    }

    /// An event of the timeline is chosen: it is watched, and the list shows it.
    pub fn choose_event(&mut self, place: usize, now: u64) -> (command: Option<PlaybackCommand>)
        requires
            place < old(self).selection.events.events@.len(),
        ensures
            final(self).event_chosen_from(
                *old(self),
                old(self).selection.events.events@[place as int],
                now,
                command,
            ),
    {
        let kind = self.selection.events.events[place].kind;
        let at_ms: i64 = self.selection.events.events[place].at_ms;
        let actor = self.selection.events.events[place].actor.clone();
        self.list = EventList { kind, show_all_deaths: true, search: String::new() };
        self.selection.scroll_to_event = true;
        self.watch_event(at_ms, actor, now)
    }
}

// ---------------------------------------------------------------- lanes

pub open spec fn all_groups() -> Seq<DefensiveGroup> {
    seq![
        DefensiveGroup::Personal,
        DefensiveGroup::External,
        DefensiveGroup::Healing,
        DefensiveGroup::DamageReduction,
        DefensiveGroup::Utility,
    ]
}

/// The groups that have a lane: shown, and with at least one spell.
pub open spec fn shown_groups(preferences: PreferencesView, groups: Seq<DefensiveGroup>) -> Seq<DefensiveGroup>
    decreases groups.len(),
{
    if groups.len() == 0 {
        Seq::empty()
    } else {
        let rest = shown_groups(preferences, groups.drop_last());
        if preferences.visible(groups.last()) && preferences.enables(groups.last()) {
            rest.push(groups.last())
        } else {
            rest
        }
    }
}

/// The name of a lane: deaths, or one group.
pub open spec fn lane_text(group: Option<DefensiveGroup>) -> Seq<char> {
    match group {
        None => "Deaths"@,
        Some(DefensiveGroup::Personal) => "Personal defensives"@,
        Some(DefensiveGroup::External) => "Externals"@,
        Some(DefensiveGroup::Healing) => "Healing CDs"@,
        Some(DefensiveGroup::DamageReduction) => "Damage reduction"@,
        Some(DefensiveGroup::Utility) => "Buffs / utility"@,
    }
}

pub fn lane_label(group: Option<DefensiveGroup>) -> (label: &'static str)
    ensures
        label@ == lane_text(group),
{
    match group {
        None => "Deaths",
        Some(DefensiveGroup::Personal) => "Personal defensives",
        Some(DefensiveGroup::External) => "Externals",
        Some(DefensiveGroup::Healing) => "Healing CDs",
        Some(DefensiveGroup::DamageReduction) => "Damage reduction",
        Some(DefensiveGroup::Utility) => "Buffs / utility",
    }
}

impl ReviewUi {
    /// The groups that have a lane below the deaths.
    pub fn lanes(&self) -> (groups: Vec<DefensiveGroup>)
        ensures
            groups@ == shown_groups(self.cooldowns.current@, all_groups()),
            groups@.len() <= 5,
    {
        let mut all: Vec<DefensiveGroup> = Vec::new();
        all.push(DefensiveGroup::Personal);
        all.push(DefensiveGroup::External);
        all.push(DefensiveGroup::Healing);
        all.push(DefensiveGroup::DamageReduction);
        all.push(DefensiveGroup::Utility);
        assert(all@ =~= all_groups());
        let mut groups: Vec<DefensiveGroup> = Vec::new();
        let mut i: usize = 0;
        while i < all.len()
            invariant
                i <= all@.len(),
                all@.len() == 5,
                groups@.len() <= i,
                groups@ == shown_groups(self.cooldowns.current@, all@.take(i as int)),
            decreases all.len() - i,
        {
            assert(all@.take(i as int + 1).drop_last() =~= all@.take(i as int));
            if self.cooldowns.current.visible(all[i]) && self.cooldowns.current.has_enabled_spells(all[i]) {
                groups.push(all[i]);
            }
            i += 1;
        }
        assert(all@.take(all@.len() as int) =~= all@);
        groups
    }

    pub open spec fn grid_height(self) -> nat {
        20 + 22 * (1 + shown_groups(self.cooldowns.current@, all_groups()).len())
    }

    /// The height of the lanes, in points: a ruler, the deaths, and each group.
    pub fn timeline_grid_height(&self) -> (height: u32)
        ensures
            height == self.grid_height(),
    {
        let lanes: usize = 1 + self.lanes().len();
        20 + 22 * lanes as u32
    }
}

/// Whether an event belongs to a lane.
pub open spec fn in_lane(event: RaidEvent, group: Option<DefensiveGroup>) -> bool {
    event.group == group && (group is Some || event.kind == EventKind::Deaths)
}

/// The places of a lane's events among the first `n`.
pub open spec fn lane_places(events: Seq<RaidEvent>, group: Option<DefensiveGroup>, n: nat) -> Seq<usize>
    decreases n,
{
    if n == 0 || n > events.len() {
        Seq::empty()
    } else {
        let rest = lane_places(events, group, (n - 1) as nat);
        if in_lane(events[n - 1], group) { rest.push((n - 1) as usize) } else { rest }
    }
}

/// The places of a lane's events, in order.
pub fn lane_events(events: &Vec<RaidEvent>, group: Option<DefensiveGroup>) -> (places: Vec<usize>)
    ensures
        places@ == lane_places(events@, group, events@.len()),
{
    let mut places: Vec<usize> = Vec::new();
    let mut i: usize = 0;
    while i < events.len()
        invariant
            i <= events@.len(),
            places@ == lane_places(events@, group, i as nat),
        decreases events.len() - i,
    {
        let event = &events[i];
        if event.group == group && (group.is_some() || event.kind == EventKind::Deaths) {
            places.push(i);
        }
        i += 1;
    }
    places
}

/// The first marker of the cluster that marker `i` belongs to: nearby markers share one.
pub open spec fn cluster_start(places: Seq<i64>, gap: i64, i: int) -> int
    decreases i,
{
    if i <= 0 {
        0
    } else {
        let start = cluster_start(places, gap, i - 1);
        if places[i] - places[start] < gap { start } else { i }
    }
}

/// For each marker the first one of its cluster; `places` are where they are drawn.
pub fn clusters(places: &Vec<i64>, gap: i64) -> (starts: Vec<usize>)
    ensures
        starts@.len() == places@.len(),
        forall|i: int| 0 <= i < places@.len() ==> (#[trigger] starts@[i]) == cluster_start(places@, gap, i) && starts@[i] <= i,
{
    let mut starts: Vec<usize> = Vec::new();
    let mut start: usize = 0;
    let mut i: usize = 0;
    while i < places.len()
        invariant
            i <= places@.len(),
            starts@.len() == i,
            start <= i,
            i > 0 ==> start < i && start == cluster_start(places@, gap, i - 1),
            i == 0 ==> start == 0,
            forall|j: int| 0 <= j < i ==> (#[trigger] starts@[j]) == cluster_start(places@, gap, j) && starts@[j] <= j,
        decreases places.len() - i,
    {
        if i > 0 && places[i] as i128 - places[start] as i128 >= gap as i128 {
            start = i;
        }
        starts.push(start);
        i += 1;
    }
    starts
}

// ---------------------------------------------------------------- the list of events

/// Whether lower-case words of an event hold the search text; an empty search is in all.
pub open spec fn mentioned(search: Seq<char>, actor: Seq<char>, ability: Seq<char>, target: Option<Seq<char>>) -> bool {
    search.len() == 0 || occurs(actor, search) || occurs(ability, search) || (target is Some && occurs(
        target->0,
        search,
    ))
}

/// Whether the search text is in the words of an event, all of them in lower case.
pub fn mentions(search: &str, actor: &str, ability: &str, target: &Option<String>) -> (yes: bool)
    ensures
        yes == mentioned(search@, actor@, ability@, text_of(*target)),
{
    if search.is_empty() || contains(actor, search) || contains(ability, search) {
        return true;
    }
    match target {
        Some(target) => contains(target, search),
        None => false,
    }
}

impl EventList {
    /// Whether the list shows an event, for the lower-case search text.
    pub open spec fn shows(self, event: RaidEvent, filter: DefensiveGroup, search: Seq<char>) -> bool {
        &&& event.kind == self.kind
        &&& event.kind == EventKind::Deaths || event.group == Some(filter)
        &&& mentioned(
            search,
            lowercase(event.actor@),
            lowercase(event.ability@),
            match event.target {
                Some(target) => Some(lowercase(target@)),
                None => None,
            },
        )
    }

    fn is_showing(&self, event: &RaidEvent, filter: DefensiveGroup, search: &str) -> (yes: bool)
        ensures
            yes == self.shows(*event, filter, search@),
    {
        if event.kind != self.kind || (event.kind != EventKind::Deaths && event.group != Some(filter)) {
            return false;
        }
        let target = match &event.target {
            Some(target) => Some(to_lowercase(target)),
            None => None,
        };
        mentions(search, &to_lowercase(&event.actor), &to_lowercase(&event.ability), &target)
    }

    /// The places of the shown events among the first `n`.
    pub open spec fn places(
        self,
        events: Seq<RaidEvent>,
        filter: DefensiveGroup,
        search: Seq<char>,
        n: nat,
    ) -> Seq<usize>
        decreases n,
    {
        if n == 0 || n > events.len() {
            Seq::empty()
        } else {
            let rest = self.places(events, filter, search, (n - 1) as nat);
            if self.shows(events[n - 1], filter, search) { rest.push((n - 1) as usize) } else { rest }
        }
    }

    /// Only the first three deaths are listed, unless all are asked for or searched.
    pub open spec fn limited(self, search: Seq<char>) -> bool {
        self.kind == EventKind::Deaths && !self.show_all_deaths && search.len() == 0
    }

    /// The rows for a lower-case search text.
    pub open spec fn rows_for(self, events: Seq<RaidEvent>, filter: DefensiveGroup, search: Seq<char>) -> Seq<usize> {
        let all = self.places(events, filter, search, events.len());
        if self.limited(search) && all.len() > 3 { all.take(3) } else { all }
    }

    /// The places of the events that the list shows. In an ASCII search, capitals count as
    /// small letters.
    pub fn listed(&self, events: &Vec<RaidEvent>, filter: DefensiveGroup) -> (rows: Vec<usize>)
        ensures
            rows@ == self.rows_for(events@, filter, lowercase(self.search@)),
            ascii_text(self.search@) ==> rows@ == self.rows_for(events@, filter, small_text(self.search@)),
    {
        let search = to_lowercase(&self.search);
        let mut rows: Vec<usize> = Vec::new();
        let mut i: usize = 0;
        while i < events.len()
            invariant
                i <= events@.len(),
                search@ == lowercase(self.search@),
                rows@ == self.places(events@, filter, search@, i as nat),
            decreases events.len() - i,
        {
            if self.is_showing(&events[i], filter, &search) {
                rows.push(i);
            }
            i += 1;
        }
        if self.kind == EventKind::Deaths && !self.show_all_deaths && search.as_str().is_empty() && rows.len() > 3 {
            let ghost all = rows@;
            rows.truncate(3);
            assert(rows@ =~= all.take(3));
        }
        rows
    }

    /// How many events of one kind there are, in the chosen group.
    pub open spec fn count_of(events: Seq<RaidEvent>, kind: EventKind, filter: DefensiveGroup) -> nat
        decreases events.len(),
    {
        if events.len() == 0 {
            0
        } else {
            let event = events.last();
            EventList::count_of(events.drop_last(), kind, filter) + if event.kind == kind && (kind == EventKind::Deaths
                || event.group == Some(filter)) {
                1nat
            } else {
                0nat
            }
        }
    }

    pub fn count(events: &Vec<RaidEvent>, kind: EventKind, filter: DefensiveGroup) -> (count: usize)
        ensures
            count == EventList::count_of(events@, kind, filter),
    {
        let mut count: usize = 0;
        let mut i: usize = 0;
        while i < events.len()
            invariant
                i <= events@.len(),
                count <= i,
                count == EventList::count_of(events@.take(i as int), kind, filter),
            decreases events.len() - i,
        {
            assert(events@.take(i as int + 1).drop_last() =~= events@.take(i as int));
            let event = &events[i];
            if event.kind == kind && (kind == EventKind::Deaths || event.group == Some(filter)) {
                count += 1;
            }
            i += 1;
        }
        assert(events@.take(events@.len() as int) =~= events@);
        count
    }
}

/// Whether an event is the highlighted one.
pub open spec fn highlights(selected: Option<SelectedEvent>, event: RaidEvent) -> bool {
    selected is Some && selected->0.at_ms == event.at_ms && selected->0.actor@ == event.actor@
}

pub fn is_highlighted(selected: &Option<SelectedEvent>, event: &RaidEvent) -> (yes: bool)
    ensures
        yes == highlights(*selected, *event),
{
    match selected {
        Some(chosen) => chosen.at_ms == event.at_ms && same_text(&chosen.actor, &event.actor),
        None => false,
    }
}

// ---------------------------------------------------------------- laws

/// The timeline shows where the video goes, by a sample since the last native command; otherwise
/// where it was just seen, last seen, or sent, in that order.
pub proof fn timelines_show_the_best_known_position(ui: ReviewUi, state: PlaybackState, now: u64)
    ensures
        ({
            let seen = state.polled_at is Some && ui.range.epoch <= state.polled_at->0 && state.polled_at->0 <= now
                < state.polled_at->0 + 2_000_000;
            let old = state.polled_at is None || state.polled_at->0 < ui.range.epoch || now - state.polled_at->0
                >= 2_000_000;
            let settled = state.ready && !state.blocked && !state.buffering && state.seeking is None;
            let kept = if ui.range.timeline_position is Some {
                ui.range.timeline_position
            } else if ui.playback is Some {
                Some(ui.playback->0.position)
            } else {
                None
            };
            &&& seen && state.seeking is Some ==> ui.displayed(state, now) == state.seeking
            &&& seen && settled ==> ui.displayed(state, now) == Some(state.position)
            &&& old || (state.seeking is None && !settled) ==> ui.displayed(state, now) == kept
        }),
{
}

/// The handle lies in the pull, as far into it as the video is; before the pull it waits at the
/// start and after it at the end, unless it is held.
pub proof fn handles_lie_in_the_pull(ui: ReviewUi, state: PlaybackState, now: u64)
    requires
        ui.selection.pull is Some && ui.review is Some,
        ui.selection.pull->0.start_ms <= ui.selection.pull->0.end_ms,
        (ui.selection.pull->0.end_ms - ui.selection.pull->0.start_ms) * 1000 <= i64::MAX,
    ensures
        ({
            let shown = ui.timeline_of(state, now);
            let start = video_start(ui.review->0@, ui.selection.pull->0@);
            &&& shown.duration == (ui.selection.pull->0.end_ms - ui.selection.pull->0.start_ms) * 1000
            &&& shown.display == ui.displayed(state, now)
            &&& shown.display is None ==> shown.elapsed == 0
            &&& shown.display is Some && i64::MIN <= shown.display->0 - start <= i64::MAX ==> shown.elapsed
                == shown.display->0 - start
            &&& ui.selection.scrub is Some ==> Some(shown.handle) == ui.selection.scrub && shown.show_cursor
            &&& ui.selection.scrub is None ==> {
                &&& 0 <= shown.handle <= shown.duration
                &&& 0 <= shown.elapsed <= shown.duration ==> shown.handle == shown.elapsed
                &&& shown.elapsed < 0 ==> shown.handle == 0
                &&& shown.elapsed > shown.duration ==> shown.handle == shown.duration
                &&& shown.show_cursor <==> shown.display is Some && 0 <= shown.elapsed && shown.elapsed <= shown.duration
            }
        }),
{
}

/// A blocked video never shows as playing, and any other as it is meant to; a pull can be played
/// again exactly where a confirmed position has reached its end and nothing is being aligned.
pub proof fn ended_pulls_can_be_played_again(ui: ReviewUi, state: PlaybackState, now: u64)
    requires
        ui.selection.pull is Some && ui.review is Some,
    ensures
        state.blocked ==> !ui.timeline_of(state, now).playing,
        !state.blocked ==> ui.timeline_of(state, now).playing == intended(state, ui.playback),
        ui.timeline_of(state, now).replay ==> state.ready && state.seeking is None && !state.blocked && !state.buffering
            && !ui.aligning && ui.timeline_of(state, now).elapsed >= ui.timeline_of(state, now).duration,
        ui.confirmed(state, now) is Some && !ui.aligning && ui.timeline_of(state, now).elapsed >= ui.timeline_of(
            state,
            now,
        ).duration ==> ui.timeline_of(state, now).replay,
{
}

/// Looking at the timeline keeps a position that was confirmed, and changes nothing else.
pub proof fn timelines_keep_the_confirmed_position(ui: ReviewUi, state: PlaybackState, now: u64)
    ensures
        ui.confirmed(state, now) is Some && ui.selection.pull is Some && ui.review is Some ==> ui.looked_at(
            state,
            now,
        ).range.timeline_position == Some(state.position),
        ui.confirmed(state, now) is None || ui.selection.pull is None || ui.review is None ==> ui.looked_at(state, now)
            == ui,
        ui.looked_at(state, now).playback == ui.playback && ui.looked_at(state, now).selection == ui.selection
            && ui.looked_at(state, now).range.epoch == ui.range.epoch && ui.looked_at(state, now).range.observation
            == ui.range.observation && ui.looked_at(state, now).range.pause_sent == ui.range.pause_sent,
{
}

/// The button pauses what plays and plays what is paused; where the pull is over, it plays the
/// pull again from its first moment.
pub proof fn buttons_turn_playback(
    before: ReviewUi,
    after: ReviewUi,
    timeline: Timeline,
    now: u64,
    command: Option<PlaybackCommand>,
)
    requires
        after.pressed_from(before, timeline, now, command),
        before.selection.pull is Some,
    ensures
        !timeline.replay && timeline.playing ==> command == Some(PlaybackCommand::Pause),
        !timeline.replay && !timeline.playing ==> command == Some(PlaybackCommand::Play),
        !timeline.replay ==> after == before,
        timeline.replay && command is Some ==> after.playback is Some && after.playback->0.autoplay
            && after.playback->0.position == video_start(after.review->0@, before.selection.pull->0@) && command
            == Some(PlaybackCommand::Seek(after.playback->0.position)),
{
}

/// A handle that is let go sends the video as far into the pull as the handle is, to the
/// nearest millisecond, playing or paused as it was; a held one only shows where it is.
pub proof fn handles_send_the_video(
    before: ReviewUi,
    after: ReviewUi,
    elapsed: i64,
    state: PlaybackState,
    now: u64,
    command: Option<PlaybackCommand>,
)
    requires
        after.let_go_from(before, elapsed, state, now, command),
        before.selection.pull is Some,
        i64::MIN <= before.selection.pull->0.start_ms + elapsed / 1000 - 1,
        before.selection.pull->0.start_ms + elapsed / 1000 + 1 <= i64::MAX,
    ensures
        after.selection.scrub is None,
        command is Some ==> {
            let into = after.playback->0.position - video_start(after.review->0@, before.selection.pull->0@);
            &&& after.playback is Some && -500 <= into - elapsed <= 500
            &&& after.playback->0.autoplay == intended(state, before.playback)
            &&& intended(state, before.playback) ==> command == Some(PlaybackCommand::Seek(after.playback->0.position))
            &&& !intended(state, before.playback) ==> command == Some(
                PlaybackCommand::SeekPaused(after.playback->0.position),
            )
        },
        before.dragged(elapsed).selection.scrub == Some(elapsed),
        before.dragged(elapsed).playback == before.playback && before.dragged(elapsed).range == before.range,
{
}

/// A click on the timeline plays from the whole millisecond that was clicked.
pub proof fn clicks_play_from_there(
    before: ReviewUi,
    after: ReviewUi,
    elapsed: u64,
    now: u64,
    command: Option<PlaybackCommand>,
)
    requires
        after.clicked_from(before, elapsed, now, command),
        before.selection.pull is Some,
        before.selection.pull->0.start_ms + elapsed / 1000 <= i64::MAX,
        command is Some,
    ensures
        after.playback is Some && after.playback->0.autoplay,
        command == Some(PlaybackCommand::Seek(after.playback->0.position)),
        ({
            let into = after.playback->0.position - video_start(after.review->0@, before.selection.pull->0@);
            into % 1000 == 0 && into <= elapsed < into + 1000
        }),
{
}

/// An event that is chosen in the timeline is listed: its kind, with no search, and all deaths;
/// where it can be watched it is played and highlighted.
pub proof fn chosen_events_are_listed(
    before: ReviewUi,
    after: ReviewUi,
    event: RaidEvent,
    now: u64,
    command: Option<PlaybackCommand>,
)
    requires
        after.event_chosen_from(before, event, now, command),
    ensures
        after.list.kind == event.kind && after.list.show_all_deaths && after.list.search@.len() == 0,
        after.selection.scroll_to_event && after.selection.pull == before.selection.pull && after.selection.events
            == before.selection.events,
        command is Some ==> {
            &&& after.selection.selected_event is Some && highlights(after.selection.selected_event, event)
            &&& after.playback is Some && after.playback->0.autoplay && command == Some(
                PlaybackCommand::Seek(after.playback->0.position),
            )
            &&& before.selection.pull is Some && after.playback->0.position - video_start(
                after.review->0@,
                before.selection.pull->0@,
            ) == (event.at_ms - before.selection.pull->0.start_ms) * 1000
        },
        command is None ==> after.selection.selected_event == before.selection.selected_event && after.playback
            == before.playback,
{
}

/// A group has a lane exactly where it is shown and tracks a spell; the lanes stand in the order
/// of the groups, each group by itself.
pub proof fn shown_groups_have_a_lane(preferences: PreferencesView, groups: Seq<DefensiveGroup>, group: DefensiveGroup)
    ensures
        shown_groups(preferences, groups.push(group)) == shown_groups(preferences, groups) + (if preferences.visible(
            group,
        ) && preferences.enables(group) {
            seq![group]
        } else {
            Seq::empty()
        }),
        shown_groups(preferences, Seq::empty()) == Seq::<DefensiveGroup>::empty(),
        shown_groups(preferences, groups).contains(group) <==> groups.contains(group) && preferences.visible(group)
            && preferences.enables(group),
        shown_groups(preferences, groups).len() <= groups.len(),
        all_groups().contains(group),
        all_groups().no_duplicates(),
    decreases groups.len(),
{
    let all = groups.push(group);
    assert(all.drop_last() =~= groups);
    assert(shown_groups(preferences, groups.push(group)) =~= shown_groups(preferences, groups) + (
    if preferences.visible(group) && preferences.enables(group) {
        seq![group]
    } else {
        Seq::empty()
    }));
    if groups.len() > 0 {
        let front = groups.drop_last();
        let rest = shown_groups(preferences, front);
        let last = groups.last();
        shown_groups_have_a_lane(preferences, front, group);
        assert(groups =~= front.push(last));
        assert(groups.contains(group) <==> front.contains(group) || last == group) by {
            if groups.contains(group) {
                let i = choose|i: int| 0 <= i < groups.len() && groups[i] == group;
                if i < front.len() {
                    assert(front[i] == group);
                }
            }
            if front.contains(group) {
                let i = choose|i: int| 0 <= i < front.len() && front[i] == group;
                assert(groups[i] == group);
            }
            assert(groups[groups.len() - 1] == last);
        }
        assert(rest.push(last).contains(group) <==> rest.contains(group) || last == group) by {
            let longer = rest.push(last);
            if longer.contains(group) {
                let i = choose|i: int| 0 <= i < longer.len() && longer[i] == group;
                if i < rest.len() {
                    assert(rest[i] == group);
                }
            }
            if rest.contains(group) {
                let i = choose|i: int| 0 <= i < rest.len() && rest[i] == group;
                assert(longer[i] == group);
            }
            assert(longer[rest.len() as int] == last);
        }
    } else {
        assert(!groups.contains(group));
    }
    let every = all_groups();
    assert(every[0] == DefensiveGroup::Personal && every[1] == DefensiveGroup::External && every[2]
        == DefensiveGroup::Healing && every[3] == DefensiveGroup::DamageReduction && every[4]
        == DefensiveGroup::Utility);
    assert(all_groups().contains(group)) by {
        match group {
            DefensiveGroup::Personal => assert(every[0] == group),
            DefensiveGroup::External => assert(every[1] == group),
            DefensiveGroup::Healing => assert(every[2] == group),
            DefensiveGroup::DamageReduction => assert(every[3] == group),
            DefensiveGroup::Utility => assert(every[4] == group),
        }
    }
}

/// A lane's places are those of its events, each once and in order: deaths without a group in the
/// first lane, and in the others the events of their group.
pub proof fn lanes_hold_their_events(events: Seq<RaidEvent>, group: Option<DefensiveGroup>, n: nat)
    requires
        n <= events.len() <= usize::MAX,
    ensures
        forall|i: int|
            0 <= i < n ==> (lane_places(events, group, n).contains(i as usize) <==> #[trigger] events[i].group == group
                && (group is Some || events[i].kind == EventKind::Deaths)),
        forall|a: int| 0 <= a < lane_places(events, group, n).len() ==> #[trigger] lane_places(events, group, n)[a] < n,
        forall|a: int, b: int|
            0 <= a < b < lane_places(events, group, n).len() ==> #[trigger] lane_places(events, group, n)[a]
                < #[trigger] lane_places(events, group, n)[b],
    decreases n,
{
    if n > 0 {
        let m = (n - 1) as nat;
        lanes_hold_their_events(events, group, m);
        let rest = lane_places(events, group, m);
        let all = lane_places(events, group, n);
        assert forall|i: int| 0 <= i < n implies (all.contains(i as usize) <==> #[trigger] events[i].group == group && (
        group is Some || events[i].kind == EventKind::Deaths)) by {
            if i < m {
                if rest.contains(i as usize) {
                    let a = choose|a: int| 0 <= a < rest.len() && rest[a] == i as usize;
                    assert(all[a] == i as usize);
                }
                if all.contains(i as usize) {
                    let a = choose|a: int| 0 <= a < all.len() && all[a] == i as usize;
                    assert(a < rest.len());
                    assert(rest[a] == i as usize);
                }
            } else {
                if in_lane(events[i], group) {
                    assert(all[rest.len() as int] == i as usize);
                }
            }
        }
    }
}

/// No event is in two lanes.
pub proof fn events_are_in_one_lane(event: RaidEvent, one: Option<DefensiveGroup>, other: Option<DefensiveGroup>)
    ensures
        in_lane(event, one) && in_lane(event, other) ==> one == other,
        event.kind == EventKind::Deaths ==> in_lane(event, event.group),
        event.kind == EventKind::Defensives && event.group is None ==> !in_lane(event, one),
{
}

/// A cluster starts with its first marker and holds those less than a gap behind it; the next
/// marker that is at least a gap behind starts another.
pub proof fn clusters_are_narrower_than_the_gap(places: Seq<i64>, gap: i64, i: int)
    requires
        0 <= i < places.len(),
        gap > 0,
    ensures
        ({
            let start = cluster_start(places, gap, i);
            &&& 0 <= start <= i
            &&& cluster_start(places, gap, start) == start
            &&& start < i ==> places[i] - places[start] < gap
            &&& i > 0 ==> start == i || start == cluster_start(places, gap, i - 1)
            &&& i > 0 ==> (start == i <==> places[i] - places[cluster_start(places, gap, i - 1)] >= gap)
        }),
    decreases i,
{
    if i > 0 {
        clusters_are_narrower_than_the_gap(places, gap, i - 1);
    }
}

/// A listed event is of the list's kind, a cooldown of the chosen group, and holds the search text
/// in one of its words; every such event is listed, once and in order.
pub proof fn lists_hold_what_is_searched(
    list: EventList,
    events: Seq<RaidEvent>,
    filter: DefensiveGroup,
    search: Seq<char>,
    n: nat,
)
    requires
        n <= events.len() <= usize::MAX,
    ensures
        forall|i: int|
            0 <= i < n ==> (list.places(events, filter, search, n).contains(i as usize) <==> {
                let event = #[trigger] events[i];
                &&& event.kind == list.kind
                &&& event.kind == EventKind::Defensives ==> event.group == Some(filter)
                &&& search.len() == 0 || occurs(lowercase(event.actor@), search) || occurs(
                    lowercase(event.ability@),
                    search,
                ) || (event.target is Some && occurs(lowercase(event.target->0@), search))
            }),
        forall|a: int, b: int|
            0 <= a < b < list.places(events, filter, search, n).len() ==> #[trigger] list.places(
                events,
                filter,
                search,
                n,
            )[a] < #[trigger] list.places(events, filter, search, n)[b],
        forall|a: int|
            0 <= a < list.places(events, filter, search, n).len() ==> #[trigger] list.places(events, filter, search, n)[a]
                < n,
    decreases n,
{
    if n > 0 {
        let m = (n - 1) as nat;
        lists_hold_what_is_searched(list, events, filter, search, m);
        let rest = list.places(events, filter, search, m);
        let all = list.places(events, filter, search, n);
        assert forall|i: int| 0 <= i < n implies (all.contains(i as usize) <==> list.shows(
            #[trigger] events[i],
            filter,
            search,
        )) by {
            if i < m {
                assert(rest.contains(i as usize) <==> list.shows(events[i], filter, search));
                if rest.contains(i as usize) {
                    let a = choose|a: int| 0 <= a < rest.len() && rest[a] == i as usize;
                    assert(all[a] == i as usize);
                }
                if all.contains(i as usize) {
                    let a = choose|a: int| 0 <= a < all.len() && all[a] == i as usize;
                    assert(a < rest.len());
                    assert(rest[a] == i as usize);
                }
            } else {
                if list.shows(events[i], filter, search) {
                    assert(all[rest.len() as int] == i as usize);
                }
            }
        }
    }
}

/// Without a search only the first three deaths are listed until all are asked for; everything
/// else is listed whole.
pub proof fn three_deaths_are_listed_at_first(
    list: EventList,
    events: Seq<RaidEvent>,
    filter: DefensiveGroup,
    search: Seq<char>,
)
    ensures
        ({
            let all = list.places(events, filter, search, events.len());
            let rows = list.rows_for(events, filter, search);
            let short = list.kind == EventKind::Deaths && !list.show_all_deaths && search.len() == 0;
            &&& !short ==> rows == all
            &&& short && all.len() <= 3 ==> rows == all
            &&& short && all.len() > 3 ==> rows == seq![all[0], all[1], all[2]]
        }),
{
    let all = list.places(events, filter, search, events.len());
    if list.limited(search) && all.len() > 3 {
        assert(all.take(3) =~= seq![all[0], all[1], all[2]]);
    }
}

/// The number beside a kind is that of the rows that its list has without a search.
pub proof fn counts_are_those_of_the_list(list: EventList, events: Seq<RaidEvent>, filter: DefensiveGroup)
    ensures
        EventList::count_of(events, list.kind, filter) == list.places(events, filter, Seq::empty(), events.len()).len(),
    decreases events.len(),
{
    if events.len() > 0 {
        let front = events.drop_last();
        counts_are_those_of_the_list(list, front, filter);
        lemma_places_prefix(list, events, front, filter, front.len());
        assert(events[events.len() - 1] == events.last());
    }
}

proof fn lemma_places_prefix(
    list: EventList,
    events: Seq<RaidEvent>,
    front: Seq<RaidEvent>,
    filter: DefensiveGroup,
    n: nat,
)
    requires
        n <= front.len() <= events.len(),
        forall|i: int| 0 <= i < front.len() ==> front[i] == #[trigger] events[i],
    ensures
        list.places(events, filter, Seq::empty(), n) == list.places(front, filter, Seq::empty(), n),
    decreases n,
{
    if n > 0 {
        lemma_places_prefix(list, events, front, filter, (n - 1) as nat);
        assert(front[n - 1] == events[n - 1]);
    }
}

/// The highlighted event is the one of its moment and actor.
pub proof fn highlights_tell_events_apart(selected: SelectedEvent, event: RaidEvent)
    ensures
        highlights(Some(selected), event) <==> selected.at_ms == event.at_ms && selected.actor@ == event.actor@,
        !highlights(None, event),
{
}

/// The lanes are as high as their ruler, the deaths and each group that is shown.
pub proof fn lanes_have_one_height(ui: ReviewUi)
    ensures
        ui.grid_height() == 42 + 22 * shown_groups(ui.cooldowns.current@, all_groups()).len(),
{
}

/// Each lane has a name of its own.
pub proof fn lanes_are_told_apart(one: Option<DefensiveGroup>, other: Option<DefensiveGroup>)
    ensures
        lane_text(one) == lane_text(other) <==> one == other,
{
    reveal_strlit("Deaths");
    reveal_strlit("Personal defensives");
    reveal_strlit("Externals");
    reveal_strlit("Healing CDs");
    reveal_strlit("Damage reduction");
    reveal_strlit("Buffs / utility");
    assert("Deaths"@[1] == 'e' && "Damage reduction"@[1] == 'a' && "Deaths"@[0] == 'D' && "Damage reduction"@[0] == 'D');
    assert("Personal defensives"@[0] == 'P' && "Externals"@[0] == 'E' && "Healing CDs"@[0] == 'H' && "Buffs / utility"@[0]
        == 'B');
}

} // verus!
