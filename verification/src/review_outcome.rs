//! What the review makes of the worker's results.
use crate::address::text_of;
use crate::cooldowns::{
    asks_for_more, of_kind, regroup_events, regrouped, same_overrides, tracks_more, Preferences, PreferencesView,
};
use crate::raid::{
    alignment_of, at_key, coverage_of, find_pull, is_same_pull, marker_key, place_of, pull_view, pull_views, same_pull,
    Alignment, EventKind, MarkerCache, MarkerKey, Pull, PullView, RaidEvent, ReplayView, Review, ReviewView, Status,
    Stream,
};
use crate::raid_text::{pov_key, pov_key_text, pull_key, pull_key_text};
use crate::review::review_view;
use crate::review_state::{
    Action, Cooldowns, MarkerSync, Mode, PullEvents, Range, ReviewUi, Selection, Worker, IDLE_REFRESH,
    LIVE_REFRESH,
};
use crate::text::same_text;
use vstd::prelude::*;

verus! {

// ---------------------------------------------------------------- preferences

/// The preferences to use: a choice of the user that is still to be saved is newer than
/// what the worker read, but the guild's catalogue is always the one that was read.
pub open spec fn effective(cooldowns: Cooldowns, incoming: PreferencesView) -> PreferencesView {
    if cooldowns.save is Some {
        PreferencesView { catalog: incoming.catalog, ..cooldowns.current@ }
    } else {
        incoming
    }
}

/// Whether the new preferences track other spells, or other groups.
pub open spec fn tracking_changes(cooldowns: Cooldowns, incoming: PreferencesView) -> bool {
    cooldowns.current@.overrides != effective(cooldowns, incoming).overrides || cooldowns.current@.catalog != effective(
        cooldowns,
        incoming,
    ).catalog
}

impl Cooldowns {
    /// Whether this is `before` with new preferences. An open editor and a pending save only
    /// take the new catalogue.
    pub open spec fn accepted_from(self, before: Cooldowns, incoming: PreferencesView) -> bool {
        &&& self.current@ == effective(before, incoming)
        &&& self.save is Some == before.save is Some
        &&& self.save is Some ==> self.save->0@ == (PreferencesView {
            catalog: incoming.catalog,
            ..before.save->0@
        })
        &&& self.editor is Some == before.editor is Some
        &&& self.editor is Some ==> {
            let was = before.editor->0;
            let is = self.editor->0;
            &&& is.draft@ == (PreferencesView { catalog: incoming.catalog, ..was.draft@ })
            &&& is.draft.overrides == was.draft.overrides
            &&& is == (crate::cooldown_editor::CooldownEditor { draft: is.draft, ..was })
        }
        &&& self.notice == before.notice
        &&& self.filter == before.filter
    }

    /// Takes new preferences; whether tracking changes, and whether it asks for more events.
    pub fn accept(&mut self, incoming: Preferences) -> (result: (bool, bool))
        ensures
            final(self).accepted_from(*old(self), incoming@),
            result.0 == tracking_changes(*old(self), incoming@),
            result.1 == (result.0 && tracks_more(old(self).current@, effective(*old(self), incoming@))),
    {
        let mut next = incoming;
        if let Some(pending) = self.save.take() {
            let kept = self.current.duplicate();
            self.save = Some(
                Preferences {
                    catalog: next.catalog.duplicate(),
                    overrides: pending.overrides,
                    hidden_groups: pending.hidden_groups,
                },
            );
            next = Preferences {
                catalog: next.catalog,
                overrides: kept.overrides,
                hidden_groups: kept.hidden_groups,
            };
        }
        assert(next@ == effective(*old(self), incoming@));
        let changed = !same_overrides(&self.current.overrides, &next.overrides) || !self.current.catalog.same(
            &next.catalog,
        );
        if let Some(editor) = self.editor.take() {
            let mut editor = editor;
            editor.draft.catalog = next.catalog.duplicate();
            self.editor = Some(editor);
        }
        let more = changed && asks_for_more(&self.current, &next);
        self.current = next;
        (changed, more)
    }
}

impl PullEvents {
    /// Whether this is `before` under new preferences: what is still tracked stays, in its
    /// new group, and cooldowns are read again only where more of them are wanted.
    pub open spec fn retracked_from(self, before: PullEvents, current: PreferencesView, changed: bool, more: bool) -> bool {
        if !changed {
            self == before
        } else {
            &&& self.events@ == regrouped(current, before.events@)
            &&& self == if more {
                (PullEvents {
                    events: self.events,
                    requested: before.requested.with(EventKind::Defensives, false),
                    loaded: before.loaded.with(EventKind::Defensives, false),
                    failures: before.failures.with(EventKind::Defensives, None),
                })
            } else {
                (PullEvents { events: self.events, ..before })
            }
        }
    }
}

impl PullEvents {
    /// Puts the events under new preferences.
    fn retrack(&mut self, current: &Preferences, changed: bool, more: bool)
        ensures
            final(self).retracked_from(*old(self), current@, changed, more),
    {
        if !changed {
            return;
        }
        let mut events: Vec<RaidEvent> = Vec::new();
        core::mem::swap(&mut events, &mut self.events);
        self.events = regroup_events(current, events);
        if more {
            self.requested.defensives = false;
            self.loaded.defensives = false;
            self.failures.defensives = None;
        }
    }

    /// Takes the events of one kind.
    fn take_kind(&mut self, kind: EventKind, incoming: Vec<RaidEvent>)
        ensures
            final(self).events@ == by_time(without_kind(old(self).events@, kind) + incoming@),
            *final(self) == (PullEvents {
                events: final(self).events,
                requested: old(self).requested,
                loaded: old(self).loaded.with(kind, true),
                failures: old(self).failures.with(kind, None),
            }),
    {
        let mut events: Vec<RaidEvent> = Vec::new();
        core::mem::swap(&mut events, &mut self.events);
        self.events = replace_kind(events, kind, incoming);
        self.loaded.set(kind, true);
        self.failures.set(kind, None);
    }
}

impl Cooldowns {
    /// Gives an open editor the names that these events show.
    fn refresh_names(&mut self, events: &Vec<RaidEvent>)
        ensures
            final(self).editor is Some == old(self).editor is Some,
            final(self).editor is Some ==> {
                let names = final(self).editor->0.observed_names;
                &&& crate::cooldown_editor::indexed(names@, events@)
                &&& final(self).editor->0 == (crate::cooldown_editor::CooldownEditor {
                    observed_names: names,
                    ..old(self).editor->0
                })
            },
            *final(self) == (Cooldowns { editor: final(self).editor, ..*old(self) }),
    {
        if let Some(editor) = self.editor.take() {
            let mut editor = editor;
            editor.refresh_names(events);
            self.editor = Some(editor);
        }
    }
}

impl ReviewUi {
    /// Whether this is `before` with new preferences; playback is never touched.
    #[verifier::opaque]
    pub open spec fn prefs_from(self, before: ReviewUi, incoming: PreferencesView) -> bool {
        let changed = tracking_changes(before.cooldowns, incoming);
        let current = effective(before.cooldowns, incoming);
        &&& self.cooldowns.accepted_from(before.cooldowns, incoming)
        &&& self.selection.events.retracked_from(
            before.selection.events,
            current,
            changed,
            changed && tracks_more(before.cooldowns.current@, current),
        )
        &&& self == (ReviewUi {
            cooldowns: self.cooldowns,
            selection: Selection { events: self.selection.events, ..before.selection },
            ..before
        })
    }

    /// Takes new preferences; whether tracking changes.
    pub fn accept_cooldown_preferences(&mut self, incoming: Preferences) -> (changed: bool)
        ensures
            final(self).prefs_from(*old(self), incoming@),
            changed == tracking_changes(old(self).cooldowns, incoming@),
    {
        proof {
            reveal(ReviewUi::prefs_from);
        }
        let (changed, more) = self.cooldowns.accept(incoming);
        self.selection.events.retrack(&self.cooldowns.current, changed, more);
        changed
    }
}

// ---------------------------------------------------------------- metadata

/// The clocks that a review and the cache know together, pull by pull.
pub open spec fn merged(
    timing: Map<(Seq<char>, u64), Alignment>,
    cache: Map<MarkerKey, Alignment>,
    replay: ReplayView,
    pulls: Seq<PullView>,
) -> (Map<(Seq<char>, u64), Alignment>, Map<MarkerKey, Alignment>)
    decreases pulls.len(),
{
    if pulls.len() == 0 {
        (timing, cache)
    } else {
        let (known, found) = merged(timing, cache, replay, pulls.drop_last());
        let pull = pulls.last();
        let key = marker_key(replay, pull);
        let found2 = match at_key(known, (pull.report, pull.id)) {
            Some(alignment) => found.insert(key, alignment),
            None => found,
        };
        let known2 = match at_key(found2, key) {
            Some(alignment) => known.insert((pull.report, pull.id), alignment),
            None => known,
        };
        (known2, found2)
    }
}

fn merge_clocks(review: &mut Review, cache: &mut MarkerCache)
    ensures
        ({
            let result = merged(old(review)@.timing, old(cache)@, old(review)@.replay, old(review)@.pulls);
            &&& final(review)@ == (ReviewView { timing: result.0, ..old(review)@ })
            &&& final(cache)@ == result.1
        }),
{
    let ghost start = review@;
    let ghost found = cache@;
    let mut i: usize = 0;
    assert(start.pulls.take(0) =~= Seq::<PullView>::empty());
    while i < review.pulls.len()
        invariant
            i <= review.pulls@.len(),
            review@ == (ReviewView {
                timing: merged(start.timing, found, start.replay, start.pulls.take(i as int)).0,
                ..start
            }),
            cache@ == merged(start.timing, found, start.replay, start.pulls.take(i as int)).1,
        decreases review.pulls.len() - i,
    {
        let pull = review.pulls[i].clone();
        assert(pull@ == start.pulls[i as int]);
        assert(start.pulls.take(i as int + 1).drop_last() =~= start.pulls.take(i as int));
        if let Some(alignment) = review.marker_alignment(&pull) {
            cache.insert(&review.replay, &pull, alignment);
        }
        if let Some(alignment) = cache.get(&review.replay, &pull) {
            review.marker_timing.insert(&pull.report, pull.id, alignment);
        }
        i += 1;
    }
    assert(start.pulls.take(start.pulls.len() as int) =~= start.pulls);
}

/// Whether the list has this pull with the same bounds.
pub open spec fn has_bounds(pulls: Seq<PullView>, pull: PullView) -> bool {
    exists|i: int|
        0 <= i < pulls.len() && same_pull(#[trigger] pulls[i], pull) && pulls[i].start_ms == pull.start_ms
            && pulls[i].end_ms == pull.end_ms
}

fn contains_bounds(pulls: &Vec<Pull>, pull: &Pull) -> (found: bool)
    ensures
        found == has_bounds(pull_views(pulls@), pull@),
{
    let mut i: usize = 0;
    while i < pulls.len()
        invariant
            i <= pulls.len(),
            forall|j: int|
                0 <= j < i ==> !(same_pull(#[trigger] pull_views(pulls@)[j], pull@) && pull_views(pulls@)[j].start_ms
                    == pull.start_ms && pull_views(pulls@)[j].end_ms == pull.end_ms),
        decreases pulls.len() - i,
    {
        assert(pull_views(pulls@)[i as int] == pulls@[i as int]@);
        if is_same_pull(&pulls[i], pull) && pulls[i].start_ms == pull.start_ms && pulls[i].end_ms == pull.end_ms {
            return true;
        }
        i += 1;
    }
    false
}

/// The clocks of a new review while `pull` of `old` is watched: a better clock for it
/// waits for the next navigation.
pub open spec fn unmoved(
    old: Option<ReviewView>,
    pull: Option<PullView>,
    next: ReviewView,
) -> Map<(Seq<char>, u64), Alignment> {
    if old is Some && pull is Some && old->0.replay.broadcast_id == next.replay.broadcast_id && old->0.replay.video_id
        == next.replay.video_id && has_bounds(next.pulls, pull->0) {
        match alignment_of(old->0, pull->0) {
            Some(alignment) => next.timing.insert((pull->0.report, pull->0.id), alignment),
            None => next.timing.remove((pull->0.report, pull->0.id)),
        }
    } else {
        next.timing
    }
}

impl Selection {
    /// Takes new metadata of the chosen pull; whether its bounds are others, so that its
    /// events have to be read again.
    fn follow(&mut self, current: Pull) -> (moved: bool)
        requires
            old(self).pull is Some,
        ensures
            final(self).pull == Some(current),
            moved == (old(self).pull->0.start_ms != current.start_ms || old(self).pull->0.end_ms != current.end_ms),
            moved ==> final(self).events.cleared() && final(self).selected_event is None
                && !final(self).scroll_to_event && final(self).scrub == old(self).scrub,
            !moved ==> *final(self) == (Selection { pull: Some(current), ..*old(self) }),
    {
        let moved = match &self.pull {
            Some(was) => was.start_ms != current.start_ms || was.end_ms != current.end_ms,
            None => false,
        };
        if moved {
            self.events = PullEvents::empty();
            self.selected_event = None;
            self.scroll_to_event = false;
        }
        self.pull = Some(current);
        moved
    }
}

impl ReviewUi {
    /// The new metadata as this review takes it.
    pub open spec fn taken(self, review: ReviewView) -> ReviewView {
        let next = ReviewView {
            timing: merged(review.timing, self.marker_cache@, review.replay, review.pulls).0,
            ..review
        };
        ReviewView {
            timing: unmoved(review_view(self.review), pull_view(self.selection.pull), next),
            ..next
        }
    }

    pub open spec fn broadcast_changes(self, review: ReviewView) -> bool {
        self.playback is Some && self.playback->0.broadcast_id@ != review.replay.broadcast_id
    }

    /// Where the chosen pull stands in new metadata.
    pub open spec fn chosen_place(self, review: ReviewView) -> Option<int> {
        match self.selection.pull {
            Some(pull) => place_of(review.pulls, pull@),
            None => None,
        }
    }

    pub open spec fn loses_pull(self, review: ReviewView) -> bool {
        self.selection.pull is Some && self.chosen_place(review) is None
    }

    /// Whether this is `before` with its pull and playback held against new metadata.
    pub open spec fn held_from(self, before: ReviewUi, review: ReviewView, now: u64) -> bool {
        let gone = before.broadcast_changes(review) || before.loses_pull(review);
        let place = before.chosen_place(review);
        let moved = place is Some && (before.selection.pull->0.start_ms != review.pulls[place->0].start_ms
            || before.selection.pull->0.end_ms != review.pulls[place->0].end_ms);
        &&& if gone {
            &&& self.selection.pull is None && self.selection.untouched()
            &&& self.playback is None
            &&& !self.aligning
            &&& self.range == (Range { timeline_position: None, ..before.range })
        } else {
            &&& pull_view(self.selection.pull) == match place {
                Some(i) => Some(review.pulls[i]),
                None => pull_view(before.selection.pull),
            }
            &&& self.playback == before.playback
            &&& self.aligning == before.aligning
            &&& if moved {
                &&& self.selection.events.cleared()
                &&& self.selection.selected_event is None && !self.selection.scroll_to_event
                &&& self.selection.scrub == before.selection.scrub
                &&& self.range == (Range { epoch: now, pause_sent: false, timeline_position: None, ..before.range })
            } else {
                &&& self.selection == (Selection { pull: self.selection.pull, ..before.selection })
                &&& self.range == before.range
            }
        }
        &&& self == (ReviewUi {
            selection: self.selection,
            playback: self.playback,
            aligning: self.aligning,
            range: self.range,
            ..before
        })
    }

    /// Whether this is `before` with new metadata. Another broadcast, or a pull that is gone,
    /// ends playback; new bounds only make the pull's events be read again.
    #[verifier::opaque]
    pub open spec fn refreshed_from(self, before: ReviewUi, review: ReviewView, now: u64) -> bool {
        &&& self.marker_cache@ == merged(review.timing, before.marker_cache@, review.replay, review.pulls).1
        &&& review_view(self.review) == Some(before.taken(review))
        &&& text_of(self.notice) == if before.loses_pull(review) {
            Some("This pull is no longer available."@)
        } else {
            None
        }
        &&& (ReviewUi {
            marker_cache: before.marker_cache,
            review: before.review,
            replay_coverage: before.replay_coverage,
            notice: before.notice,
            ..self
        }).held_from(before, review, now)
        &&& self.replay_coverage == coverage_of(review.replay)
    }

    /// Whether this is `middle` with its first pull opened.
    pub open spec fn opened_from(self, middle: ReviewUi, first: Pull, now: u64) -> bool {
        &&& (ReviewUi { mode: middle.mode, ..self }).selected_from(middle, first, now)
        &&& self.mode == (Mode { open_first_pull: false, ..middle.mode })
    }

    pub open spec fn opens_first(self, review: ReviewView) -> bool {
        self.mode.open_first_pull && review.pulls.len() > 0
    }

    /// Whether this is `before` with new metadata and, where a recording was just opened, its
    /// first pull chosen.
    #[verifier::opaque]
    pub open spec fn reviewed_from(self, before: ReviewUi, review: ReviewView, now: u64) -> bool {
        if before.opens_first(review) {
            exists|middle: ReviewUi, first: Pull|
                {
                    &&& #[trigger] middle.refreshed_from(before, review, now)
                    &&& first@ == review.pulls[0]
                    &&& #[trigger] self.opened_from(middle, first, now)
                }
        } else {
            self.refreshed_from(before, review, now)
        }
    }

    /// Puts the clocks of this review and the cache into new metadata.
    fn take_clocks(&mut self, review: &mut Review)
        ensures
            final(review)@ == old(self).taken(old(review)@),
            final(self).marker_cache@ == merged(
                old(review)@.timing,
                old(self).marker_cache@,
                old(review)@.replay,
                old(review)@.pulls,
            ).1,
            *final(self) == (ReviewUi { marker_cache: final(self).marker_cache, ..*old(self) }),
    {
        merge_clocks(review, &mut self.marker_cache);
        if let Some(previous) = &self.review {
            if let Some(selected) = &self.selection.pull {
                if same_text(&previous.replay.broadcast_id, &review.replay.broadcast_id) && same_text(
                    &previous.replay.video_id,
                    &review.replay.video_id,
                ) && contains_bounds(&review.pulls, selected) {
                    match previous.marker_alignment(selected) {
                        Some(alignment) => {
                            review.marker_timing.insert(&selected.report, selected.id, alignment);
                        },
                        None => {
                            review.marker_timing.remove(&selected.report, selected.id);
                        },
                    }
                }
            }
        }
    }

    /// Holds the chosen pull and playback against new metadata; whether the broadcast is
    /// another one, and whether the pull is gone.
    #[verifier::rlimit(40)]
    fn hold_against(&mut self, review: &Review, now: u64) -> (result: (bool, bool))
        ensures
            result.0 == old(self).broadcast_changes(review@),
            result.1 == old(self).loses_pull(review@),
            final(self).held_from(*old(self), review@, now),
    {
        let broadcast_changed = match &self.playback {
            Some(playback) => !same_text(&playback.broadcast_id, &review.replay.broadcast_id),
            None => false,
        };
        let place = match &self.selection.pull {
            Some(selected) => find_pull(&review.pulls, selected),
            None => None,
        };
        let unavailable = self.selection.pull.is_some() && place.is_none();
        if broadcast_changed || unavailable {
            self.selection = Selection::of(None);
            self.playback = None;
            self.range.timeline_position = None;
            self.aligning = false;
        } else if let Some(i) = place {
            let current = review.pulls[i].clone();
            assert(current@ == review@.pulls[i as int]);
            if self.selection.follow(current) {
                self.range = Range { epoch: now, pause_sent: false, timeline_position: None, ..self.range };
            }
        }
        (broadcast_changed, unavailable)
    }

    /// Takes new metadata; whether the player has to follow.
    pub fn accept_review(&mut self, review: Review, now: u64) -> (changed: bool)
        ensures
            final(self).reviewed_from(*old(self), review@, now),
            changed == (old(self).broadcast_changes(review@) || old(self).loses_pull(review@) || old(self).opens_first(
                review@,
            )),
    {
        let ghost incoming = review@;
        let mut review = review;
        self.take_clocks(&mut review);
        let ghost clocked = *self;
        let (broadcast_changed, unavailable) = self.hold_against(&review, now);
        self.replay_coverage = review.replay.coverage();
        let first = if self.mode.open_first_pull && review.pulls.len() > 0 {
            Some(review.pulls[0].clone())
        } else {
            None
        };
        self.review = Some(review);
        self.notice = if unavailable {
            Some(String::from_str("This pull is no longer available."))
        } else {
            None
        };
        let ghost middle = *self;
        proof {
            reveal(ReviewUi::reviewed_from);
            assert(middle.refreshed_from(*old(self), incoming, now)) by {
                reveal(ReviewUi::refreshed_from);
                assert(clocked.chosen_place(review@) == old(self).chosen_place(incoming));
            }
        }
        match first {
            Some(pull) => {
                assert(pull@ == incoming.pulls[0]);
                self.select(pull, now);
                self.mode.open_first_pull = false;
                assert(self.opened_from(middle, pull, now));
                true
            },
            None => broadcast_changed || unavailable,
        }
    }
}

// ---------------------------------------------------------------- events

/// The place of an event among later ones: before the first that is not earlier.
pub open spec fn time_place(events: Seq<RaidEvent>, at_ms: i64) -> int
    decreases events.len(),
{
    if events.len() == 0 || events[0].at_ms >= at_ms { 0 } else { 1 + time_place(events.skip(1), at_ms) }
}

/// The events by time; those of one moment keep their order.
pub open spec fn by_time(events: Seq<RaidEvent>) -> Seq<RaidEvent>
    decreases events.len(),
{
    if events.len() == 0 {
        Seq::empty()
    } else {
        let rest = by_time(events.skip(1));
        rest.insert(time_place(rest, events[0].at_ms), events[0])
    }
}

pub open spec fn without_kind(events: Seq<RaidEvent>, kind: EventKind) -> Seq<RaidEvent>
    decreases events.len(),
{
    if events.len() == 0 {
        Seq::empty()
    } else {
        let rest = without_kind(events.skip(1), kind);
        if events[0].kind != kind { seq![events[0]] + rest } else { rest }
    }
}

proof fn lemma_time_place(events: Seq<RaidEvent>, at_ms: i64)
    ensures
        0 <= time_place(events, at_ms) <= events.len(),
        forall|i: int| 0 <= i < time_place(events, at_ms) ==> (#[trigger] events[i]).at_ms < at_ms,
        time_place(events, at_ms) < events.len() ==> events[time_place(events, at_ms)].at_ms >= at_ms,
    decreases events.len(),
{
    if events.len() > 0 && events[0].at_ms < at_ms {
        lemma_time_place(events.skip(1), at_ms);
        assert forall|i: int| 0 <= i < time_place(events, at_ms) implies (#[trigger] events[i]).at_ms < at_ms by {
            if i > 0 {
                assert(events.skip(1)[i - 1] == events[i]);
            }
        }
    }
}

/// Puts one event before the first that is not earlier.
fn insert_by_time(events: &mut Vec<RaidEvent>, event: RaidEvent)
    ensures
        final(events)@ == old(events)@.insert(time_place(old(events)@, event.at_ms), event),
{
    let ghost before = events@;
    let mut place: usize = 0;
    assert(before.skip(0) =~= before);
    while place < events.len() && events[place].at_ms < event.at_ms
        invariant
            place <= events@.len(),
            events@ == before,
            time_place(before, event.at_ms) == place + time_place(before.skip(place as int), event.at_ms),
        decreases events.len() - place,
    {
        assert(before.skip(place as int).skip(1) =~= before.skip(place as int + 1));
        place += 1;
    }
    events.insert(place, event);
}

/// The events with those of one kind replaced, by time.
fn replace_kind(events: Vec<RaidEvent>, kind: EventKind, incoming: Vec<RaidEvent>) -> (out: Vec<RaidEvent>)
    ensures
        out@ == by_time(without_kind(events@, kind) + incoming@),
{
    let ghost first = events@;
    let ghost second = incoming@;
    let mut old_events = events;
    let mut new_events = incoming;
    let mut out: Vec<RaidEvent> = Vec::new();
    assert(second.skip(second.len() as int) =~= Seq::empty());
    while new_events.len() > 0
        invariant
            new_events@.len() <= second.len(),
            new_events@ == second.take(new_events@.len() as int),
            out@ == by_time(second.skip(new_events@.len() as int)),
        decreases new_events.len(),
    {
        let ghost n = new_events@.len() as int;
        if let Some(event) = new_events.pop() {
            insert_by_time(&mut out, event);
            proof {
                assert(event == second[n - 1]);
                assert(second.skip(n - 1).skip(1) =~= second.skip(n));
                assert(new_events@ =~= second.take(n - 1));
            }
        }
    }
    assert(second.skip(0) =~= second);
    assert(without_kind(first.skip(first.len() as int), kind) + second =~= second);
    while old_events.len() > 0
        invariant
            old_events@.len() <= first.len(),
            old_events@ == first.take(old_events@.len() as int),
            out@ == by_time(without_kind(first.skip(old_events@.len() as int), kind) + second),
        decreases old_events.len(),
    {
        let ghost n = old_events@.len() as int;
        if let Some(event) = old_events.pop() {
            proof {
                let rest = without_kind(first.skip(n), kind) + second;
                assert(event == first[n - 1]);
                assert(first.skip(n - 1).skip(1) =~= first.skip(n));
                assert(old_events@ =~= first.take(n - 1));
                if event.kind != kind {
                    let longer = without_kind(first.skip(n - 1), kind) + second;
                    assert(longer =~= seq![event] + rest);
                    assert(longer.skip(1) =~= rest);
                    assert(longer[0] == event);
                }
            }
            if event.kind != kind {
                insert_by_time(&mut out, event);
            }
        }
    }
    assert(first.skip(0) =~= first);
    out
}

// ---------------------------------------------------------------- outcomes

pub enum Data {
    Review(Review, Preferences),
    Authentication,
    /// The events of one kind, for the pull with this key.
    Events(String, EventKind, Vec<RaidEvent>, Preferences),
    Cooldowns(Preferences),
}

/// What the worker brings back.
pub struct Outcome {
    pub generation: u64,
    pub key: String,
    pub result: Result<Data, String>,
    pub connected: bool,
}

impl ReviewUi {
    /// Whether a result is still wanted: of this generation and this view, and not cancelled.
    pub open spec fn wants(self, generation: u64, key: Seq<char>) -> bool {
        generation == self.worker.generation && key == self.key@ && !self.worker.cancelled
    }

    /// The review with its worker at rest.
    pub open spec fn rested(self) -> ReviewUi {
        ReviewUi {
            worker: Worker { running: false, action: None, ..self.worker },
            mode: Mode { signing_in: false, ..self.mode },
            ..self
        }
    }

    /// The review with its worker at rest and what a wanted result says of the account.
    pub open spec fn informed(self, connected: bool, now: u64) -> ReviewUi {
        let rested = self.rested();
        ReviewUi {
            worker: Worker {
                last_attempt: if self.worker.action is Some && self.worker.action->0 is Refresh {
                    Some(now)
                } else {
                    self.worker.last_attempt
                },
                ..rested.worker
            },
            mode: Mode { connected, connection_checked: true, ..rested.mode },
            ..rested
        }
    }

    /// Whether this is `before` after signing in to or out of the log service.
    pub open spec fn reauthenticated_from(self, before: ReviewUi) -> bool {
        &&& self.marker_cache@ == Map::<MarkerKey, Alignment>::empty()
        &&& self.selection.forgotten(before.selection)
        &&& self == (ReviewUi {
            worker: Worker { last_attempt: None, ..before.worker },
            marker: MarkerSync::idle(),
            marker_cache: self.marker_cache,
            review: None,
            replay_coverage: None,
            selection: self.selection,
            notice: None,
            ..before
        })
    }

    /// Whether this is `before` with the events of one kind of its pull read. Those of
    /// another pull are not taken.
    pub open spec fn events_from(self, before: ReviewUi, key: Seq<char>, kind: EventKind, events: Seq<RaidEvent>) -> bool {
        if before.selection.pull is Some && pull_key_text(before.selection.pull->0@) == key {
            let was = before.selection.events;
            let is = self.selection.events;
            &&& is.events@ == by_time(without_kind(was.events@, kind) + events)
            &&& is == (PullEvents {
                events: is.events,
                requested: was.requested,
                loaded: was.loaded.with(kind, true),
                failures: was.failures.with(kind, None),
            })
            &&& self.cooldowns.editor is Some == before.cooldowns.editor is Some
            &&& self.cooldowns.editor is Some ==> {
                let names = self.cooldowns.editor->0.observed_names;
                &&& crate::cooldown_editor::indexed(names@, is.events@)
                &&& self.cooldowns.editor->0 == (crate::cooldown_editor::CooldownEditor {
                    observed_names: names,
                    ..before.cooldowns.editor->0
                })
            }
            &&& self == (ReviewUi {
                selection: Selection { events: is, ..before.selection },
                cooldowns: Cooldowns { editor: self.cooldowns.editor, ..before.cooldowns },
                ..before
            })
        } else {
            self == before
        }
    }

    /// Whether this is `before` with an error of `action` noted where it belongs: with the
    /// events, with the tracked spells, or with the review.
    pub open spec fn error_from(self, before: ReviewUi, action: Option<Action>, error: String, now: u64) -> bool {
        match action {
            Some(Action::Events(pull, kind)) => self == if before.selection.selects(pull@) {
                (ReviewUi {
                    selection: Selection {
                        events: before.selection.events.failed(kind, error, now),
                        ..before.selection
                    },
                    ..before
                })
            } else {
                before
            },
            Some(Action::SaveCooldowns) => self == (ReviewUi {
                cooldowns: Cooldowns { notice: Some(error), ..before.cooldowns },
                ..before
            }),
            _ => self == (ReviewUi { notice: Some(error), ..before }),
        }
    }

    /// Whether this is `before` without the log service: the view stays open.
    pub open spec fn disconnected_from(self, before: ReviewUi) -> bool {
        &&& self.selection.forgotten(before.selection)
        &&& self == (ReviewUi {
            review: None,
            replay_coverage: None,
            playback: None,
            selection: self.selection,
            ..before
        })
    }

    /// Whether this is `base` with the data of a wanted result.
    #[verifier::opaque]
    pub open spec fn data_from(
        self,
        base: ReviewUi,
        action: Option<Action>,
        result: Result<Data, String>,
        now: u64,
        changed: bool,
    ) -> bool {
        match result {
            Ok(Data::Review(review, preferences)) => exists|first: ReviewUi, second: ReviewUi, restored: bool|
                {
                    &&& #[trigger] first.prefs_from(base, preferences@)
                    &&& #[trigger] second.reviewed_from(first, review@, now)
                    &&& #[trigger] self.restored_from(second, now, restored)
                    &&& changed == (first.broadcast_changes(review@) || first.loses_pull(review@) || first.opens_first(
                        review@,
                    ) || restored)
                },
            Ok(Data::Authentication) => !changed && self.reauthenticated_from(base),
            Ok(Data::Events(key, kind, events, preferences)) => !changed && exists|first: ReviewUi|
                {
                    &&& #[trigger] first.prefs_from(base, preferences@)
                    &&& self.events_from(first, key@, kind, events@)
                },
            Ok(Data::Cooldowns(preferences)) => !changed && exists|first: ReviewUi|
                {
                    &&& #[trigger] first.prefs_from(base, preferences@)
                    &&& self == (ReviewUi {
                        cooldowns: Cooldowns { editor: None, notice: None, ..first.cooldowns },
                        ..first
                    })
                },
            Err(error) => !changed && self.error_from(base, action, error, now),
        }
    }

    /// Whether this is `before` after a result of the worker. One that is no longer wanted
    /// only sets the worker at rest.
    #[verifier::opaque]
    pub open spec fn heard_from(self, before: ReviewUi, outcome: Outcome, now: u64, changed: bool) -> bool {
        if !before.wants(outcome.generation, outcome.key@) {
            !changed && self == before.rested()
        } else {
            exists|middle: ReviewUi, moved: bool|
                {
                    &&& #[trigger] middle.data_from(
                        before.informed(outcome.connected, now),
                        before.worker.action,
                        outcome.result,
                        now,
                        moved,
                    )
                    &&& if outcome.connected {
                        self == middle && changed == moved
                    } else {
                        self.disconnected_from(middle) && changed
                    }
                }
        }
    }

    fn accept_authentication(&mut self)
        ensures
            final(self).reauthenticated_from(*old(self)),
    {
        self.worker.last_attempt = None;
        self.marker.reset();
        self.marker_cache = MarkerCache::new();
        self.review = None;
        self.replay_coverage = None;
        self.selection.forget();
        self.notice = None;
    }

    /// Takes the events of one kind for the pull with this key.
    pub fn accept_events(&mut self, key: &str, kind: EventKind, incoming: Vec<RaidEvent>)
        ensures
            final(self).events_from(*old(self), key@, kind, incoming@),
    {
        let current = match &self.selection.pull {
            Some(pull) => same_text(&pull_key(pull), key),
            None => false,
        };
        if !current {
            return;
        }
        self.selection.events.take_kind(kind, incoming);
        self.cooldowns.refresh_names(&self.selection.events.events);
    }

    fn accept_error(&mut self, action: Option<Action>, error: String, now: u64)
        ensures
            final(self).error_from(*old(self), action, error, now),
    {
        match action {
            Some(Action::Events(pull, kind)) => {
                if self.selection.is_selected(&pull) {
                    self.record_event_failure(kind, error, now);
                }
            },
            Some(Action::SaveCooldowns) => {
                self.cooldowns.notice = Some(error);
            },
            _ => {
                self.notice = Some(error);
            },
        }
    }

    fn accept_data(&mut self, action: Option<Action>, result: Result<Data, String>, now: u64) -> (changed: bool)
        ensures
            final(self).data_from(*old(self), action, result, now, changed),
    {
        proof {
            reveal(ReviewUi::data_from);
        }
        match result {
            Ok(Data::Review(review, preferences)) => {
                self.accept_cooldown_preferences(preferences);
                let ghost first = *self;
                let moved = self.accept_review(review, now);
                let ghost second = *self;
                let restored = self.restore_pov_position(now);
                assert(first.prefs_from(*old(self), preferences@));
                assert(second.reviewed_from(first, review@, now));
                assert(self.restored_from(second, now, restored));
                proof {
                    lemma_review_keeps_cooldowns(first, second, review@, now);
                    lemma_restore_keeps_cooldowns(second, *self, now, restored);
                }
                moved || restored
            },
            Ok(Data::Authentication) => {
                self.accept_authentication();
                false
            },
            Ok(Data::Events(key, kind, events, preferences)) => {
                self.accept_cooldown_preferences(preferences);
                let ghost first = *self;
                self.accept_events(&key, kind, events);
                assert(first.prefs_from(*old(self), preferences@));
                false
            },
            Ok(Data::Cooldowns(preferences)) => {
                self.accept_cooldown_preferences(preferences);
                let ghost first = *self;
                assert(first.prefs_from(*old(self), preferences@));
                self.cooldowns.editor = None;
                self.cooldowns.notice = None;
                false
            },
            Err(error) => {
                self.accept_error(action, error, now);
                false
            },
        }
    }

    fn rest(&mut self) -> (action: Option<Action>)
        ensures
            *final(self) == old(self).rested(),
            action == old(self).worker.action,
    {
        let action = self.worker.action.take();
        self.worker.running = false;
        self.mode.signing_in = false;
        action
    }

    fn disconnect(&mut self)
        ensures
            final(self).disconnected_from(*old(self)),
    {
        self.review = None;
        self.replay_coverage = None;
        self.playback = None;
        self.selection.forget();
    }

    /// Takes a result of the worker; whether the player has to follow.
    pub fn accept_outcome(&mut self, outcome: Outcome, now: u64) -> (changed: bool)
        ensures
            final(self).heard_from(*old(self), outcome, now, changed),
    {
        proof {
            reveal(ReviewUi::heard_from);
        }
        let action = self.rest();
        if outcome.generation != self.worker.generation || !same_text(&outcome.key, &self.key) || self.worker.cancelled {
            return false;
        }
        if let Some(Action::Refresh) = &action {
            self.worker.last_attempt = Some(now);
        }
        self.mode = Mode { connected: outcome.connected, connection_checked: true, ..self.mode };
        assert(*self == old(self).informed(outcome.connected, now));
        let moved = self.accept_data(action, outcome.result, now);
        let ghost middle = *self;
        assert(middle.data_from(
            old(self).informed(outcome.connected, now),
            old(self).worker.action,
            outcome.result,
            now,
            moved,
        ));
        if outcome.connected {
            return moved;
        }
        self.disconnect();
        true
    }

    /// Whether this is `before` after its worker stopped without a result.
    #[verifier::opaque]
    pub open spec fn abandoned_from(self, before: ReviewUi, now: u64) -> bool {
        if before.worker.cancelled {
            self == before.rested()
        } else {
            let base = ReviewUi {
                mode: Mode { connection_checked: true, ..before.rested().mode },
                ..before.rested()
            };
            exists|message: String|
                {
                    &&& message@ == "Warcraft Logs stopped loading. Brick will retry shortly."@
                    &&& #[trigger] self.abandoned_with(base, before.worker.action, message, now)
                }
        }
    }

    pub open spec fn abandoned_with(self, base: ReviewUi, action: Option<Action>, message: String, now: u64) -> bool {
        match action {
            Some(Action::Events(pull, kind)) => self == if base.selection.selects(pull@) {
                (ReviewUi {
                    selection: Selection {
                        events: base.selection.events.failed(kind, message, now),
                        ..base.selection
                    },
                    ..base
                })
            } else {
                base
            },
            _ => self == (ReviewUi { notice: Some(message), ..base }),
        }
    }

    /// The worker stopped without a result.
    pub fn work_abandoned(&mut self, now: u64)
        ensures
            final(self).abandoned_from(*old(self), now),
    {
        proof {
            reveal(ReviewUi::abandoned_from);
        }
        let action = self.rest();
        if self.worker.cancelled {
            return;
        }
        self.mode.connection_checked = true;
        let message = String::from_str("Warcraft Logs stopped loading. Brick will retry shortly.");
        let ghost said = message;
        let ghost base = *self;
        match action {
            Some(Action::Events(pull, kind)) => {
                if self.selection.is_selected(&pull) {
                    self.record_event_failure(kind, message, now);
                }
            },
            _ => {
                self.notice = Some(message);
            },
        }
        assert(self.abandoned_with(base, old(self).worker.action, said, now));
    }
}

proof fn lemma_review_keeps_cooldowns(before: ReviewUi, after: ReviewUi, review: ReviewView, now: u64)
    requires
        after.reviewed_from(before, review, now),
    ensures
        after.cooldowns == before.cooldowns,
{
    reveal(ReviewUi::reviewed_from);
    reveal(ReviewUi::refreshed_from);
    if before.opens_first(review) {
        let (middle, first) = choose|middle: ReviewUi, first: Pull|
            {
                &&& #[trigger] middle.refreshed_from(before, review, now)
                &&& first@ == review.pulls[0]
                &&& #[trigger] after.opened_from(middle, first, now)
            };
        assert(middle.cooldowns == before.cooldowns);
        assert(after.opened_from(middle, first, now));
        assert((ReviewUi { mode: middle.mode, ..after }).selected_from(middle, first, now));
    }
}

proof fn lemma_restore_keeps_cooldowns(before: ReviewUi, after: ReviewUi, now: u64, changed: bool)
    requires
        after.restored_from(before, now, changed),
    ensures
        after.cooldowns == before.cooldowns,
{
    reveal(ReviewUi::restored_from);
    if before.pending_focus is Some {
        let wanted = before.pending_focus->0;
        let found = match before.review {
            Some(review) => crate::review::counterpart(review@.pulls, wanted.pull@),
            None => None,
        };
        if found is Some {
            let (chosen, middle, sought, command) = choose|
                chosen: Pull,
                middle: ReviewUi,
                sought: ReviewUi,
                command: Option<crate::playback::PlaybackCommand>,
            |
                {
                    &&& chosen@ == before.review->0@.pulls[found->0]
                    &&& #[trigger] middle.selected_from(before, chosen, now)
                    &&& #[trigger] sought.sought_from(middle, wanted.at_ms, wanted.autoplay, now, command)
                    &&& after.settled_from(sought, before, command is Some)
                };
            assert(middle.cooldowns == before.cooldowns);
            assert(sought.cooldowns == middle.cooldowns);
        }
    }
}

// ---------------------------------------------------------------- ticks

/// What has come from the worker since the last tick.
pub enum Incoming {
    Nothing,
    Finished(Outcome),
    /// The worker is gone without a result.
    Stopped,
}

/// What a tick asks for.
pub struct TickPlan {
    /// Whether the player has to follow.
    pub changed: bool,
    /// Preferences that the worker has to save, before anything else.
    pub save: Option<Preferences>,
    /// What the worker has to read.
    pub read: Option<Action>,
}

/// Whether a stream's raid may still go on: it is live, or its recording ended within a day.
pub open spec fn recent(stream: Stream, unix_ms: i64) -> bool {
    stream.status == Status::Live || match stream.spec_range() {
        Some((_, end)) => end >= crate::raid::to_i64(unix_ms - 86_400_000),
        None => false,
    }
}

pub fn is_recent(stream: &Stream, unix_ms: i64) -> (yes: bool)
    ensures
        yes == recent(*stream, unix_ms),
{
    if stream.status == Status::Live {
        return true;
    }
    match stream.replay_range() {
        Some((_, end)) => end >= crate::raid::narrow(unix_ms as i128 - 86_400_000),
        None => false,
    }
}

/// The name of an optional view.
pub open spec fn key_of(stream: Option<&Stream>) -> Seq<char> {
    match stream {
        Some(stream) => pov_key_text(*stream),
        None => Seq::empty(),
    }
}

impl ReviewUi {
    /// Whether this is `before` turned to the view named `key`. Another view starts from
    /// nothing, but for the moment that it is to show.
    pub open spec fn turned_from(self, before: ReviewUi, key: Seq<char>, present: bool) -> bool {
        if before.key@ == key {
            self == before
        } else {
            &&& self.key@ == key
            &&& self.selection.forgotten(before.read_cancelled().selection)
            &&& self == (ReviewUi {
                worker: Worker { last_attempt: None, ..before.worker.dropped() },
                mode: Mode {
                    popup_open: false,
                    active: before.mode.active && present,
                    open_first_pull: before.mode.open_first_pull && present,
                    ..before.mode
                },
                key: self.key,
                notice: None,
                review: None,
                replay_coverage: None,
                playback: None,
                selection: self.selection,
                pending_focus: if present { before.pending_focus } else { None },
                marker: MarkerSync::idle(),
                ..before
            })
        }
    }

    /// Turns to another view, or to none.
    pub fn turn_to(&mut self, stream: Option<&Stream>) -> (changed: bool)
        ensures
            final(self).turned_from(*old(self), key_of(stream), stream is Some),
            changed == (old(self).key@ != key_of(stream)),
    {
        let key = match stream {
            Some(stream) => pov_key(stream),
            None => {
                let none = String::new();
                assert(none@ =~= key_of(stream));
                none
            },
        };
        if same_text(&self.key, &key) {
            return false;
        }
        self.marker.reset();
        self.cancel_read();
        self.worker.last_attempt = None;
        self.key = key;
        self.notice = None;
        self.review = None;
        self.replay_coverage = None;
        self.playback = None;
        self.selection.forget();
        self.mode.popup_open = false;
        if stream.is_none() {
            self.mode.active = false;
            self.mode.open_first_pull = false;
            self.pending_focus = None;
        }
        true
    }

    /// How often metadata is read for a view.
    pub open spec fn pace(self, stream: Option<&Stream>, unix_ms: i64) -> u64 {
        if !self.mode.metadata_only && stream is Some && recent(*stream->0, unix_ms) {
            LIVE_REFRESH
        } else {
            IDLE_REFRESH
        }
    }

    /// The review once its pace is set and, out of sight, its events are no longer read.
    pub open spec fn paced(self, period: u64) -> ReviewUi {
        let set = ReviewUi { refresh_period: period, ..self };
        if !set.mode.active && set.worker.action is Some && set.worker.action->0 is Events {
            set.read_cancelled()
        } else {
            set
        }
    }

    /// Whether this is `before` after what came from the worker.
    pub open spec fn updated_from(self, before: ReviewUi, incoming: Incoming, now: u64, changed: bool) -> bool {
        if !before.worker.running {
            !changed && self == before
        } else {
            match incoming {
                Incoming::Nothing => !changed && self == before,
                Incoming::Finished(outcome) => self.heard_from(before, outcome, now, changed),
                Incoming::Stopped => !changed && self.abandoned_from(before, now),
            }
        }
    }

    fn set_pace(&mut self, period: u64)
        ensures
            *final(self) == old(self).paced(period),
    {
        self.refresh_period = period;
        let hidden = !self.mode.active && match &self.worker.action {
            Some(Action::Events(_, _)) => true,
            _ => false,
        };
        if hidden {
            self.cancel_read();
        }
    }

    fn update(&mut self, incoming: Incoming, now: u64) -> (moved: bool)
        ensures
            final(self).updated_from(*old(self), incoming, now, moved),
    {
        if !self.worker.running {
            return false;
        }
        match incoming {
            Incoming::Nothing => false,
            Incoming::Finished(outcome) => self.accept_outcome(outcome, now),
            Incoming::Stopped => {
                self.work_abandoned(now);
                false
            },
        }
    }

    /// Whether this is `before` after one tick, with what the tick asks for.
    pub open spec fn ticked_from(
        self,
        before: ReviewUi,
        stream: Option<&Stream>,
        incoming: Incoming,
        unix_ms: i64,
        now: u64,
        plan: TickPlan,
    ) -> bool {
        &&& exists|turned: ReviewUi, updated: ReviewUi, moved: bool|
            {
                &&& #[trigger] turned.turned_from(before, key_of(stream), stream is Some)
                &&& #[trigger] updated.updated_from(turned.paced(before.pace(stream, unix_ms)), incoming, now, moved)
                &&& plan.changed == (before.key@ != key_of(stream) || moved)
                &&& plan.save == if updated.worker.running { None } else { updated.cooldowns.save }
                &&& self == if plan.save is Some {
                    (ReviewUi { cooldowns: Cooldowns { save: None, ..updated.cooldowns }, ..updated })
                } else {
                    updated
                }
            }
        &&& plan.save is Some || stream is None ==> plan.read is None
        &&& plan.save is None && stream is Some ==> self.reads_next(plan.read, now)
    }

    /// One tick: the pace, the view, what came from the worker, and what it does next.
    pub fn tick(&mut self, stream: Option<&Stream>, incoming: Incoming, unix_ms: i64, now: u64) -> (plan: TickPlan)
        ensures
            final(self).ticked_from(*old(self), stream, incoming, unix_ms, now, plan),
    {
        let changed = self.turn_to(stream);
        let ghost turned = *self;
        let live = !self.mode.metadata_only && match stream {
            Some(stream) => is_recent(stream, unix_ms),
            None => false,
        };
        assert(turned.mode.metadata_only == old(self).mode.metadata_only);
        let period: u64 = if live { LIVE_REFRESH } else { IDLE_REFRESH };
        assert(period == old(self).pace(stream, unix_ms));
        self.set_pace(period);
        let ghost paced = *self;
        let moved = self.update(incoming, now);
        let ghost updated = *self;
        assert(turned.turned_from(*old(self), key_of(stream), stream is Some));
        assert(updated.updated_from(turned.paced(old(self).pace(stream, unix_ms)), incoming, now, moved));
        let save = if self.worker.running {
            None
        } else {
            self.cooldowns.save.take()
        };
        let read = if save.is_none() && stream.is_some() {
            self.next_action(now)
        } else {
            None
        };
        TickPlan { changed: changed || moved, save, read }
    }

    /// Whether this is what the worker does next.
    pub open spec fn reads_next(self, action: Option<Action>, now: u64) -> bool {
        self.acts(now, action)
    }
}

// ---------------------------------------------------------------- laws

/// A result of an earlier generation, of another view or of a cancelled read changes
/// nothing but that the worker rests.
pub proof fn obsolete_results_change_nothing(
    before: ReviewUi,
    after: ReviewUi,
    outcome: Outcome,
    now: u64,
    changed: bool,
)
    requires
        after.heard_from(before, outcome, now, changed),
        before.worker.cancelled || outcome.generation != before.worker.generation || outcome.key@ != before.key@,
    ensures
        !changed,
        after.review == before.review && after.playback == before.playback && after.selection == before.selection,
        after.notice == before.notice && after.cooldowns == before.cooldowns,
        after.mode.connected == before.mode.connected && after.mode.connection_checked == before.mode.connection_checked,
        !after.worker.running,
{
    reveal(ReviewUi::heard_from);
}

/// A refresh never moves the watched pull: as long as it is the same recording and the
/// pull keeps its bounds, its clock stays until the next navigation.
pub proof fn refresh_keeps_the_watched_clock(ui: ReviewUi, incoming: ReviewView)
    requires
        ui.review is Some,
        ui.selection.pull is Some,
        ui.review->0@.replay.broadcast_id == incoming.replay.broadcast_id,
        ui.review->0@.replay.video_id == incoming.replay.video_id,
        has_bounds(incoming.pulls, ui.selection.pull->0@),
    ensures
        alignment_of(ui.taken(incoming), ui.selection.pull->0@) == alignment_of(
            ui.review->0@,
            ui.selection.pull->0@,
        ),
        ui.review->0@.replay.start_ms == incoming.replay.start_ms ==> crate::raid::video_start(
            ui.taken(incoming),
            ui.selection.pull->0@,
        ) == crate::raid::video_start(ui.review->0@, ui.selection.pull->0@),
{
}

/// The events of one moment, in their order.
pub open spec fn at_moment(events: Seq<RaidEvent>, at_ms: i64) -> Seq<RaidEvent>
    decreases events.len(),
{
    if events.len() == 0 {
        Seq::empty()
    } else {
        let rest = at_moment(events.skip(1), at_ms);
        if events[0].at_ms == at_ms { seq![events[0]] + rest } else { rest }
    }
}

/// Sorting by time keeps every event as often as it was there, puts none before an earlier
/// one, and leaves the events of one moment in their order.
pub proof fn events_are_in_order(events: Seq<RaidEvent>, at_ms: i64)
    ensures
        by_time(events).to_multiset() == events.to_multiset(),
        forall|i: int, j: int|
            0 <= i < j < by_time(events).len() ==> (#[trigger] by_time(events)[i]).at_ms <= (
            #[trigger] by_time(events)[j]).at_ms,
        at_moment(by_time(events), at_ms) == at_moment(events, at_ms),
{
    lemma_same_events(events);
    lemma_sorted(events);
    lemma_same_moment(events, at_ms);
}

#[verifier::spinoff_prover]
proof fn lemma_same_events(events: Seq<RaidEvent>)
    ensures
        by_time(events).to_multiset() == events.to_multiset(),
    decreases events.len(),
{
    if events.len() > 0 {
        let rest = by_time(events.skip(1));
        lemma_same_events(events.skip(1));
        lemma_time_place(rest, events[0].at_ms);
        vstd::seq_lib::to_multiset_insert(rest, time_place(rest, events[0].at_ms), events[0]);
        vstd::seq_lib::to_multiset_insert(events.skip(1), 0, events[0]);
        assert(events.skip(1).insert(0, events[0]) =~= events);
    } else {
        assert(by_time(events) =~= events);
    }
}

#[verifier::spinoff_prover]
proof fn lemma_sorted(events: Seq<RaidEvent>)
    ensures
        forall|i: int, j: int|
            0 <= i < j < by_time(events).len() ==> (#[trigger] by_time(events)[i]).at_ms <= (
            #[trigger] by_time(events)[j]).at_ms,
    decreases events.len(),
{
    if events.len() > 0 {
        let rest = by_time(events.skip(1));
        let first = events[0];
        let place = time_place(rest, first.at_ms);
        lemma_sorted(events.skip(1));
        lemma_time_place(rest, first.at_ms);
        let all = by_time(events);
        assert(all =~= rest.insert(place, first));
        assert forall|i: int, j: int| 0 <= i < j < all.len() implies (#[trigger] all[i]).at_ms <= (
        #[trigger] all[j]).at_ms by {
            let a = if i < place { i } else { i - 1 };
            let b = if j < place { j } else { j - 1 };
            if i != place {
                assert(all[i] == rest[a]);
            }
            if j != place {
                assert(all[j] == rest[b]);
            }
            if i == place && place < rest.len() && b > place {
                assert(rest[place].at_ms <= rest[b].at_ms);
            }
        }
    }
}

#[verifier::spinoff_prover]
proof fn lemma_same_moment(events: Seq<RaidEvent>, at_ms: i64)
    ensures
        at_moment(by_time(events), at_ms) == at_moment(events, at_ms),
    decreases events.len(),
{
    if events.len() > 0 {
        let rest = by_time(events.skip(1));
        lemma_same_moment(events.skip(1), at_ms);
        lemma_time_place(rest, events[0].at_ms);
        lemma_moment_insert(rest, time_place(rest, events[0].at_ms), events[0], at_ms);
    } else {
        assert(by_time(events) =~= events);
    }
}

/// An event behind earlier ones comes first among those of its moment.
proof fn lemma_moment_insert(events: Seq<RaidEvent>, place: int, event: RaidEvent, at_ms: i64)
    requires
        0 <= place <= events.len(),
        forall|i: int| 0 <= i < place ==> (#[trigger] events[i]).at_ms < event.at_ms,
    ensures
        at_moment(events.insert(place, event), at_ms) == if event.at_ms == at_ms {
            seq![event] + at_moment(events, at_ms)
        } else {
            at_moment(events, at_ms)
        },
    decreases place,
{
    let all = events.insert(place, event);
    if place == 0 {
        assert(all.skip(1) =~= events);
    } else {
        let rest = events.skip(1);
        assert forall|i: int| 0 <= i < place - 1 implies (#[trigger] rest[i]).at_ms < event.at_ms by {
            assert(rest[i] == events[i + 1]);
        }
        lemma_moment_insert(rest, place - 1, event, at_ms);
        assert(all.skip(1) =~= rest.insert(place - 1, event));
        assert(all[0] == events[0]);
    }
}

/// Hiding or showing a group never asks for events and never drops any.
pub proof fn visibility_needs_no_events(cooldowns: Cooldowns, hidden: Seq<crate::raid::DefensiveGroup>)
    requires
        cooldowns.save is None,
    ensures
        !tracking_changes(cooldowns, (PreferencesView { hidden, ..cooldowns.current@ })),
{
}

/// A choice that is still to be saved is newer than what was read; the guild's catalogue is always
/// the one that was read. Without such a choice, all that was read holds.
pub proof fn unsaved_choices_win(cooldowns: Cooldowns, incoming: PreferencesView)
    ensures
        effective(cooldowns, incoming).catalog == incoming.catalog,
        cooldowns.save is None ==> effective(cooldowns, incoming) == incoming,
        cooldowns.save is Some ==> effective(cooldowns, incoming).overrides == cooldowns.current@.overrides && effective(
            cooldowns,
            incoming,
        ).hidden == cooldowns.current@.hidden,
        cooldowns.current@.catalog != incoming.catalog ==> tracking_changes(cooldowns, incoming),
        cooldowns.save is None && cooldowns.current@.overrides != incoming.overrides ==> tracking_changes(
            cooldowns,
            incoming,
        ),
        cooldowns.current@.catalog == incoming.catalog && (cooldowns.save is Some || cooldowns.current@.overrides
            == incoming.overrides) ==> !tracking_changes(cooldowns, incoming),
{
}

/// New preferences leave what the user is editing, and what is still to be saved, as it is, but
/// for the catalogue.
pub proof fn edits_survive_new_preferences(before: Cooldowns, after: Cooldowns, incoming: PreferencesView)
    requires
        after.accepted_from(before, incoming),
    ensures
        after.current@.catalog == incoming.catalog,
        before.save is None ==> after.current@ == incoming && after.save is None,
        before.save is Some ==> after.save is Some && after.current@.overrides == before.current@.overrides
            && after.save->0@.overrides == before.save->0@.overrides && after.save->0@.hidden == before.save->0@.hidden
            && after.save->0@.catalog == incoming.catalog,
        before.editor is Some <==> after.editor is Some,
        after.editor is Some ==> after.editor->0.draft@.overrides == before.editor->0.draft@.overrides
            && after.editor->0.draft@.hidden == before.editor->0.draft@.hidden && after.editor->0.draft@.catalog
            == incoming.catalog && after.editor->0.observed_names == before.editor->0.observed_names,
        after.notice == before.notice && after.filter == before.filter,
{
}

/// New preferences keep every death, and what was read of the deaths; cooldowns are read again
/// exactly where more of them are wanted.
pub proof fn retracking_keeps_what_is_known(
    before: PullEvents,
    after: PullEvents,
    current: PreferencesView,
    changed: bool,
    more: bool,
    now: u64,
)
    requires
        after.retracked_from(before, current, changed, more),
    ensures
        of_kind(after.events@, EventKind::Deaths) == of_kind(before.events@, EventKind::Deaths),
        after.misses(EventKind::Deaths, now) == before.misses(EventKind::Deaths, now),
        after.failures.deaths == before.failures.deaths && after.loaded.deaths == before.loaded.deaths
            && after.requested.deaths == before.requested.deaths,
        changed && more ==> after.misses(EventKind::Defensives, now) && after.failures.defensives is None,
        !(changed && more) ==> after.requested == before.requested && after.loaded == before.loaded && after.failures
            == before.failures,
        !changed ==> after == before,
{
    if changed {
        crate::cooldowns::deaths_survive_new_preferences(current, before.events@);
    }
}

/// New preferences touch neither playback nor the choice of pull, nor anything that was read of
/// the recording.
pub proof fn preferences_move_nothing(before: ReviewUi, after: ReviewUi, incoming: PreferencesView)
    requires
        after.prefs_from(before, incoming),
    ensures
        after.playback == before.playback && after.selection.pull == before.selection.pull && after.review
            == before.review && after.mode == before.mode && after.worker == before.worker && after.range == before.range,
        after.notice == before.notice && after.pending_focus == before.pending_focus && after.marker_cache
            == before.marker_cache,
        after.selection.selected_event == before.selection.selected_event && after.selection.scrub
            == before.selection.scrub,
        before.cooldowns.save is None ==> after.cooldowns.current@ == incoming,
        before.cooldowns.save is None && before.cooldowns.current@.overrides == incoming.overrides
            && before.cooldowns.current@.catalog == incoming.catalog ==> after.selection == before.selection,
        of_kind(after.selection.events.events@, EventKind::Deaths) == of_kind(
            before.selection.events.events@,
            EventKind::Deaths,
        ),
{
    reveal(ReviewUi::prefs_from);
    let changed = tracking_changes(before.cooldowns, incoming);
    let current = effective(before.cooldowns, incoming);
    retracking_keeps_what_is_known(
        before.selection.events,
        after.selection.events,
        current,
        changed,
        changed && tracks_more(before.cooldowns.current@, current),
        0,
    );
}

/// Merging clocks says nothing of a pull that is not in the recording.
proof fn lemma_merged_elsewhere(
    timing: Map<(Seq<char>, u64), Alignment>,
    cache: Map<MarkerKey, Alignment>,
    replay: ReplayView,
    pulls: Seq<PullView>,
    pull: PullView,
)
    requires
        forall|i: int| 0 <= i < pulls.len() ==> !((#[trigger] pulls[i]).report == pull.report && pulls[i].id == pull.id),
    ensures
        at_key(merged(timing, cache, replay, pulls).0, (pull.report, pull.id)) == at_key(timing, (pull.report, pull.id)),
        at_key(merged(timing, cache, replay, pulls).1, marker_key(replay, pull)) == at_key(cache, marker_key(replay, pull)),
    decreases pulls.len(),
{
    if pulls.len() > 0 {
        assert forall|i: int| 0 <= i < pulls.drop_last().len() implies !((#[trigger] pulls.drop_last()[i]).report
            == pull.report && pulls.drop_last()[i].id == pull.id) by {
            assert(pulls.drop_last()[i] == pulls[i]);
        }
        lemma_merged_elsewhere(timing, cache, replay, pulls.drop_last(), pull);
        assert(pulls.last() == pulls[pulls.len() - 1]);
    }
}

/// A recording and the clocks that were found share what they know of each of its pulls: a clock
/// that came with the recording is the newer one, one that was found before fills a gap, and
/// both then know the same.
pub proof fn clocks_are_shared(
    timing: Map<(Seq<char>, u64), Alignment>,
    cache: Map<MarkerKey, Alignment>,
    replay: ReplayView,
    pulls: Seq<PullView>,
    place: int,
)
    requires
        0 <= place < pulls.len(),
        forall|i: int, j: int|
            0 <= i < j < pulls.len() ==> !((#[trigger] pulls[i]).report == (#[trigger] pulls[j]).report && pulls[i].id
                == pulls[j].id),
    ensures
        ({
            let pull = pulls[place];
            let key = (pull.report, pull.id);
            let (known, found) = merged(timing, cache, replay, pulls);
            &&& timing.dom().contains(key) ==> at_key(known, key) == Some(timing[key])
            &&& !timing.dom().contains(key) ==> at_key(known, key) == at_key(cache, marker_key(replay, pull))
            &&& at_key(found, marker_key(replay, pull)) == at_key(known, key)
        }),
    decreases pulls.len(),
{
    let front = pulls.drop_last();
    let last = pulls.last();
    let pull = pulls[place];
    assert(last == pulls[pulls.len() - 1]);
    assert forall|i: int| 0 <= i < front.len() implies #[trigger] front[i] == pulls[i] by {}
    if place == pulls.len() - 1 {
        assert forall|i: int| 0 <= i < front.len() implies !((#[trigger] front[i]).report == pull.report && front[i].id
            == pull.id) by {
            assert(front[i] == pulls[i]);
        }
        lemma_merged_elsewhere(timing, cache, replay, front, pull);
    } else {
        assert(front[place] == pull);
        clocks_are_shared(timing, cache, replay, front, place);
        assert(!(pull.report == last.report && pull.id == last.id));
    }
}

/// While a pull is watched, the clocks of all other pulls are those that were read; so is its
/// own where the recording is another one.
pub proof fn only_the_watched_clock_waits(old: Option<ReviewView>, pull: PullView, next: ReviewView, key: (Seq<char>, u64))
    ensures
        key != (pull.report, pull.id) ==> at_key(unmoved(old, Some(pull), next), key) == at_key(next.timing, key),
        old is None ==> unmoved(old, Some(pull), next) == next.timing,
        unmoved(old, None, next) == next.timing,
        old is Some && (old->0.replay.broadcast_id != next.replay.broadcast_id || old->0.replay.video_id
            != next.replay.video_id) ==> unmoved(old, Some(pull), next) == next.timing,
        old is Some && !has_bounds(next.pulls, pull) ==> unmoved(old, Some(pull), next) == next.timing,
{
}

/// New metadata of the same broadcast never stops the video or moves it while its pull is there.
/// The pull takes its new bounds; other bounds have its events read again. Where the broadcast
/// is another one or the pull is gone, nothing plays and no pull is chosen.
pub proof fn refreshes_leave_playback_alone(before: ReviewUi, after: ReviewUi, review: ReviewView, now: u64)
    requires
        after.refreshed_from(before, review, now),
    ensures
        ({
            let other = before.playback is Some && before.playback->0.broadcast_id@ != review.replay.broadcast_id;
            let gone = before.selection.pull is Some && forall|i: int|
                0 <= i < review.pulls.len() ==> !((#[trigger] review.pulls[i]).report == before.selection.pull->0.report@
                    && review.pulls[i].id == before.selection.pull->0.id);
            &&& other || gone ==> after.playback is None && after.selection.pull is None
                && after.selection.events.events@.len() == 0 && !after.aligning && after.range.timeline_position is None
            &&& !other && !gone ==> {
                &&& after.playback == before.playback && after.aligning == before.aligning
                &&& after.selection.pull is Some == before.selection.pull is Some
                &&& after.selection.pull is Some ==> after.selection.pull->0.report@ == before.selection.pull->0.report@
                    && after.selection.pull->0.id == before.selection.pull->0.id && review.pulls.contains(
                    after.selection.pull->0@,
                )
                &&& after.selection.pull is Some && after.selection.pull->0.start_ms == before.selection.pull->0.start_ms
                    && after.selection.pull->0.end_ms == before.selection.pull->0.end_ms ==> after.selection.events
                    == before.selection.events && after.range == before.range && after.selection.selected_event
                    == before.selection.selected_event
                &&& after.selection.pull is Some && (after.selection.pull->0.start_ms
                    != before.selection.pull->0.start_ms || after.selection.pull->0.end_ms
                    != before.selection.pull->0.end_ms) ==> after.selection.events.cleared() && after.range.epoch == now
                    && !after.range.pause_sent
            }
            &&& gone ==> text_of(after.notice) == Some("This pull is no longer available."@)
            &&& !gone ==> after.notice is None
        }),
        after.review is Some && after.review->0@.pulls == review.pulls && after.review->0@.replay == review.replay,
        after.mode == before.mode && after.worker == before.worker && after.key == before.key && after.pending_focus
            == before.pending_focus,
        after.replay_coverage == coverage_of(review.replay),
{
    reveal(ReviewUi::refreshed_from);
    if before.selection.pull is Some {
        crate::raid::lemma_place(review.pulls, before.selection.pull->0@);
    }
}

/// A recording that was just opened starts with its first pull, once; with no pull yet, it waits
/// for one.
pub proof fn recordings_open_with_their_first_pull(before: ReviewUi, after: ReviewUi, review: ReviewView, now: u64)
    requires
        after.reviewed_from(before, review, now),
    ensures
        before.mode.open_first_pull && review.pulls.len() > 0 ==> {
            &&& after.selection.pull is Some && after.selection.pull->0@ == review.pulls[0]
            &&& !after.mode.open_first_pull
            &&& after.playback is Some && after.playback->0.autoplay && after.playback->0.broadcast_id@
                == review.replay.broadcast_id
            &&& after.range.epoch == now && after.selection.events.events@.len() == 0
        },
        !before.mode.open_first_pull || review.pulls.len() == 0 ==> after.mode.open_first_pull
            == before.mode.open_first_pull && after.refreshed_from(before, review, now),
        after.mode.active == before.mode.active,
{
    reveal(ReviewUi::reviewed_from);
    reveal(ReviewUi::refreshed_from);
    if before.opens_first(review) {
        let (middle, first) = choose|middle: ReviewUi, first: Pull|
            {
                &&& #[trigger] middle.refreshed_from(before, review, now)
                &&& first@ == review.pulls[0]
                &&& #[trigger] after.opened_from(middle, first, now)
            };
        assert((ReviewUi { mode: middle.mode, ..after }).selected_from(middle, first, now));
    }
}

/// Taking out one kind leaves every event of the other, in order, and none of its own.
pub proof fn only_one_kind_is_taken_out(events: Seq<RaidEvent>, kind: EventKind, other: EventKind)
    requires
        kind != other,
    ensures
        in_order(without_kind(events, kind), other) == in_order(events, other),
        in_order(without_kind(events, kind), kind) == Seq::<RaidEvent>::empty(),
        without_kind(events, kind) == in_order(events, other),
    decreases events.len(),
{
    if events.len() > 0 {
        only_one_kind_is_taken_out(events.skip(1), kind, other);
        let rest = without_kind(events.skip(1), kind);
        if events[0].kind != kind {
            let all = seq![events[0]] + rest;
            assert(all.skip(1) =~= rest);
            assert(all[0] == events[0]);
        }
    }
}

/// The events of one kind, from the first on.
pub open spec fn in_order(events: Seq<RaidEvent>, kind: EventKind) -> Seq<RaidEvent>
    decreases events.len(),
{
    if events.len() == 0 {
        Seq::empty()
    } else {
        let rest = in_order(events.skip(1), kind);
        if events[0].kind == kind { seq![events[0]] + rest } else { rest }
    }
}

/// The events that were read take the place of those of their kind, beside all of the other kind,
/// sorted by time. The kind then counts as loaded, without a failure; the other keeps its state,
/// and playback and the choice of pull stay.
pub proof fn read_events_replace_their_kind(
    before: ReviewUi,
    after: ReviewUi,
    key: Seq<char>,
    kind: EventKind,
    other: EventKind,
    events: Seq<RaidEvent>,
)
    requires
        after.events_from(before, key, kind, events),
        kind != other,
    ensures
        before.selection.pull is None || pull_key_text(before.selection.pull->0@) != key ==> after == before,
        before.selection.pull is Some && pull_key_text(before.selection.pull->0@) == key ==> {
            let shown = after.selection.events.events@;
            &&& shown.to_multiset() == (in_order(before.selection.events.events@, other) + events).to_multiset()
            &&& forall|i: int, j: int| 0 <= i < j < shown.len() ==> (#[trigger] shown[i]).at_ms <= (#[trigger] shown[j]).at_ms
            &&& after.selection.events.loaded.has(kind) && after.selection.events.failures.of(kind) is None
            &&& after.selection.events.loaded.has(other) == before.selection.events.loaded.has(other)
            &&& after.selection.events.failures.of(other) == before.selection.events.failures.of(other)
            &&& after.selection.events.requested == before.selection.events.requested
        },
        after.selection.pull == before.selection.pull && after.playback == before.playback && after.worker
            == before.worker && after.mode == before.mode && after.review == before.review,
        after.cooldowns.current == before.cooldowns.current && after.cooldowns.save == before.cooldowns.save,
        after.cooldowns.editor is Some <==> before.cooldowns.editor is Some,
        after.cooldowns.editor is Some ==> after.cooldowns.editor->0.draft == before.cooldowns.editor->0.draft,
{
    only_one_kind_is_taken_out(before.selection.events.events@, kind, other);
    let all = in_order(before.selection.events.events@, other) + events;
    events_are_in_order(all, 0);
}

/// A result is wanted exactly where it is of the present generation and view and its read was
/// not dropped.
pub proof fn wanted_results_are_current(ui: ReviewUi, generation: u64, key: Seq<char>)
    ensures
        ui.wants(generation, key) <==> generation == ui.worker.generation && key == ui.key@ && !ui.worker.cancelled,
        ui.worker.reading() ==> !ui.read_cancelled().wants(generation, key),
        !ui.rested().worker.running && ui.rested().worker.action is None && !ui.rested().mode.signing_in,
        ui.rested().worker.generation == ui.worker.generation && ui.rested().selection == ui.selection
            && ui.rested().playback == ui.playback && ui.rested().review == ui.review,
{
}

/// A wanted result tells whether the account is connected; a finished refresh counts from when it
/// came.
pub proof fn results_tell_of_the_account(ui: ReviewUi, connected: bool, now: u64)
    ensures
        ui.informed(connected, now).mode.connected == connected,
        ui.informed(connected, now).mode.connection_checked && !ui.informed(connected, now).mode.signing_in,
        !ui.informed(connected, now).worker.running && ui.informed(connected, now).worker.action is None,
        ui.worker.action == Some(Action::Refresh) ==> ui.informed(connected, now).worker.last_attempt == Some(now),
        ui.worker.action is None || !(ui.worker.action->0 is Refresh) ==> ui.informed(connected, now).worker.last_attempt
            == ui.worker.last_attempt,
        ui.informed(connected, now).selection == ui.selection && ui.informed(connected, now).playback == ui.playback
            && ui.informed(connected, now).review == ui.review && ui.informed(connected, now).mode.active
            == ui.mode.active,
{
}

/// An error is shown where it belongs: with the events that could not be read, where their pull is
/// still chosen, with the tracked spells that could not be saved, or with the review. Nothing
/// that was loaded before is lost, and playback goes on.
pub proof fn errors_are_shown_where_they_belong(
    before: ReviewUi,
    after: ReviewUi,
    action: Option<Action>,
    error: String,
    now: u64,
)
    requires
        after.error_from(before, action, error, now),
    ensures
        after.playback == before.playback && after.review == before.review && after.mode == before.mode && after.worker
            == before.worker && after.selection.pull == before.selection.pull && after.range == before.range,
        after.selection.events.events == before.selection.events.events && after.selection.events.loaded
            == before.selection.events.loaded,
        action is Some && action->0 is Events ==> {
            let (pull, kind) = (action->0->Events_0, action->0->Events_1);
            let chosen = before.selection.pull is Some && before.selection.pull->0.report@ == pull.report@
                && before.selection.pull->0.id == pull.id;
            &&& after.notice == before.notice && after.cooldowns == before.cooldowns
            &&& chosen ==> after.selection.events.failures.of(kind) is Some && after.selection.events.failures.of(
                kind,
            )->0.message == error
            &&& !chosen ==> after == before
        },
        action == Some(Action::SaveCooldowns) ==> after.cooldowns.notice == Some(error) && after.notice == before.notice
            && after.selection == before.selection && after.cooldowns.current == before.cooldowns.current
            && after.cooldowns.editor == before.cooldowns.editor,
        action is None || action == Some(Action::Refresh) || action == Some(Action::Connect) || action == Some(
            Action::Disconnect,
        ) ==> after.notice == Some(error) && after.selection == before.selection && after.cooldowns == before.cooldowns,
{
}

/// Signing in or out forgets everything that was read for the other account, and reads it anew.
pub proof fn accounts_are_kept_apart(before: ReviewUi, after: ReviewUi, now: u64)
    requires
        after.reauthenticated_from(before),
    ensures
        after.review is None && after.replay_coverage is None && after.selection.pull is None
            && after.selection.events.events@.len() == 0 && after.notice is None,
        after.marker_cache@ == Map::<MarkerKey, Alignment>::empty() && !after.marker.busy && after.marker.intent is None,
        after.refresh_due(now),
        after.mode == before.mode && after.key == before.key && after.cooldowns == before.cooldowns,
{
}

/// A result of an account that is not connected leaves nothing of the recording, but keeps the
/// view open; the player has to follow.
pub proof fn disconnected_accounts_show_nothing(
    before: ReviewUi,
    after: ReviewUi,
    outcome: Outcome,
    now: u64,
    changed: bool,
)
    requires
        after.heard_from(before, outcome, now, changed),
        before.wants(outcome.generation, outcome.key@),
        !outcome.connected,
    ensures
        changed,
        after.review is None && after.replay_coverage is None && after.playback is None && after.selection.pull is None,
        after.selection.events.events@.len() == 0,
{
    reveal(ReviewUi::heard_from);
}

/// A wanted result sets the worker at rest and says whether the account is connected; an error
/// leaves the recording and playback as they were, and preferences that were saved close their
/// editor.
pub proof fn wanted_results_are_taken(before: ReviewUi, after: ReviewUi, outcome: Outcome, now: u64, changed: bool)
    requires
        after.heard_from(before, outcome, now, changed),
        before.wants(outcome.generation, outcome.key@),
        outcome.connected,
        !(outcome.result is Ok && outcome.result->Ok_0 is Review),
    ensures
        !changed,
        !after.worker.running && after.worker.action is None && !after.mode.signing_in,
        after.mode.connected && after.mode.connection_checked,
        after.playback == before.playback && after.mode.active == before.mode.active && after.range == before.range,
        outcome.result is Err ==> after.review == before.review && after.selection.pull == before.selection.pull
            && after.selection.events.events == before.selection.events.events,
        outcome.result is Err && before.worker.action == Some(Action::Refresh) ==> after.notice == Some(
            outcome.result->Err_0,
        ),
        outcome.result is Ok && outcome.result->Ok_0 is Cooldowns ==> after.cooldowns.editor is None
            && after.cooldowns.notice is None && after.selection.pull == before.selection.pull && after.review
            == before.review,
        outcome.result is Ok && outcome.result->Ok_0 is Cooldowns && before.cooldowns.save is None
            ==> after.cooldowns.current@ == outcome.result->Ok_0->Cooldowns_0@,
        outcome.result is Ok && outcome.result->Ok_0 is Events ==> after.selection.pull == before.selection.pull
            && after.review == before.review && after.notice == before.notice,
        outcome.result is Ok && outcome.result->Ok_0 is Events && before.selection.pull is Some && pull_key_text(
            before.selection.pull->0@,
        ) == outcome.result->Ok_0->Events_0@ ==> after.selection.events.loaded.has(outcome.result->Ok_0->Events_1),
        outcome.result is Ok && outcome.result->Ok_0 is Authentication ==> after.review is None && after.selection.pull
            is None && after.worker.last_attempt is None,
{
    reveal(ReviewUi::heard_from);
    reveal(ReviewUi::data_from);
    reveal(ReviewUi::prefs_from);
}

/// A worker that stopped without a result leaves a word of it, with the events that it read or with
/// the review, and may be given work again; a dropped read leaves none.
pub proof fn stopped_workers_leave_a_word(before: ReviewUi, after: ReviewUi, now: u64)
    requires
        after.abandoned_from(before, now),
    ensures
        !after.worker.running && after.worker.action is None && !after.mode.signing_in,
        after.playback == before.playback && after.review == before.review && after.selection.pull
            == before.selection.pull && after.selection.events.events == before.selection.events.events,
        before.worker.cancelled ==> after.notice == before.notice && after.selection == before.selection
            && after.mode.connection_checked == before.mode.connection_checked,
        !before.worker.cancelled ==> after.mode.connection_checked,
        !before.worker.cancelled && (before.worker.action is None || !(before.worker.action->0 is Events)) ==> text_of(
            after.notice,
        ) == Some("Warcraft Logs stopped loading. Brick will retry shortly."@) && after.selection == before.selection,
        !before.worker.cancelled && before.worker.action is Some && before.worker.action->0 is Events ==> {
            let (pull, kind) = (before.worker.action->0->Events_0, before.worker.action->0->Events_1);
            &&& after.notice == before.notice
            &&& before.selection.selects(pull@) ==> after.selection.events.failures.of(kind) is Some
                && after.selection.events.failures.of(kind)->0.message@
                == "Warcraft Logs stopped loading. Brick will retry shortly."@
            &&& !before.selection.selects(pull@) ==> after.selection == before.selection
        },
{
    reveal(ReviewUi::abandoned_from);
}

/// A live stream, or a recording that ended in the last day, is read every fifteen seconds, unless
/// it is only compared; everything else every sixty.
pub proof fn live_raids_are_read_more_often(ui: ReviewUi, stream: Stream, unix_ms: i64)
    requires
        unix_ms >= 0,
    ensures
        ui.mode.metadata_only ==> ui.pace(Some(&stream), unix_ms) == 60_000_000,
        ui.pace(None, unix_ms) == 60_000_000,
        !ui.mode.metadata_only && stream.status == Status::Live ==> ui.pace(Some(&stream), unix_ms) == 15_000_000,
        !ui.mode.metadata_only && stream.status != Status::Live && stream.replay_start_ms is Some
            && stream.replay_end_ms is Some ==> ui.pace(Some(&stream), unix_ms) == if unix_ms - stream.replay_end_ms->0
            <= 86_400_000 { 15_000_000u64 } else { 60_000_000u64 },
        stream.status != Status::Live && (stream.replay_start_ms is None || stream.replay_end_ms is None) ==> ui.pace(
            Some(&stream),
            unix_ms,
        ) == 60_000_000,
{
}

/// Another view starts from nothing, is read at once, and keeps only the moment that it is to
/// show; no view at all closes the review. The same view changes nothing.
pub proof fn views_start_from_nothing(before: ReviewUi, after: ReviewUi, key: Seq<char>, present: bool, now: u64)
    requires
        after.turned_from(before, key, present),
    ensures
        before.key@ == key ==> after == before,
        after.key@ == key,
        before.key@ != key ==> {
            &&& after.review is None && after.replay_coverage is None && after.playback is None && after.notice is None
            &&& after.selection.pull is None && after.selection.events.events@.len() == 0
            &&& after.refresh_due(now) && !after.mode.popup_open && !after.marker.busy
            &&& present ==> after.pending_focus == before.pending_focus && after.mode.active == before.mode.active
                && after.mode.open_first_pull == before.mode.open_first_pull
            &&& !present ==> after.pending_focus is None && !after.mode.active && !after.mode.open_first_pull
            &&& before.worker.reading() ==> after.worker.cancelled && after.worker.generation
                != before.worker.generation
            &&& after.marker_cache == before.marker_cache && after.cooldowns == before.cooldowns && after.list
                == before.list && after.mode.connected == before.mode.connected
        },
{
}

/// Out of sight, no events are read; whatever else the worker does goes on.
pub proof fn hidden_reviews_read_no_events(ui: ReviewUi, period: u64)
    ensures
        ui.paced(period).refresh_period == period,
        !ui.mode.active && ui.worker.action is Some && ui.worker.action->0 is Events ==> ui.paced(period).worker.cancelled,
        ui.mode.active || ui.worker.action is None || !(ui.worker.action->0 is Events) ==> ui.paced(period).worker
            == ui.worker && ui.paced(period).selection == ui.selection,
        ui.paced(period).playback == ui.playback && ui.paced(period).review == ui.review && ui.paced(period).mode
            == ui.mode,
{
}

/// In a tick, a choice that is to be saved is handed out once, by an idle worker, before anything
/// is read; with no view, nothing is read. Where nothing came and the view is the same, the
/// player has nothing to follow.
pub proof fn ticks_save_before_they_read(
    before: ReviewUi,
    after: ReviewUi,
    stream: Option<&Stream>,
    incoming: Incoming,
    unix_ms: i64,
    now: u64,
    plan: TickPlan,
)
    requires
        after.ticked_from(before, stream, incoming, unix_ms, now, plan),
    ensures
        plan.save is Some ==> plan.read is None && after.cooldowns.save is None && !after.worker.running,
        plan.read is Some ==> plan.save is None && stream is Some && !after.worker.running,
        after.key@ == key_of(stream),
        before.key@ != key_of(stream) ==> plan.changed,
        incoming is Nothing || !before.worker.running ==> {
            &&& plan.changed == (before.key@ != key_of(stream))
            &&& !before.worker.running ==> plan.save == before.cooldowns.save
            &&& before.worker.running ==> plan.save is None && plan.read is None && after.cooldowns == before.cooldowns
            &&& before.key@ == key_of(stream) ==> after.playback == before.playback && after.review == before.review
                && after.selection.pull == before.selection.pull && after.notice == before.notice
            &&& after.refresh_period == before.pace(stream, unix_ms)
        },
        plan.read is Some && plan.read->0 is Refresh ==> after.refresh_due(now),
        plan.read is Some && plan.read->0 is Events ==> after.mode.active && after.selection.events.misses(
            plan.read->0->Events_1,
            now,
        ),
{
    let (turned, updated, moved) = choose|turned: ReviewUi, updated: ReviewUi, moved: bool|
        {
            &&& #[trigger] turned.turned_from(before, key_of(stream), stream is Some)
            &&& #[trigger] updated.updated_from(turned.paced(before.pace(stream, unix_ms)), incoming, now, moved)
            &&& plan.changed == (before.key@ != key_of(stream) || moved)
            &&& plan.save == if updated.worker.running { None } else { updated.cooldowns.save }
            &&& after == if plan.save is Some {
                (ReviewUi { cooldowns: Cooldowns { save: None, ..updated.cooldowns }, ..updated })
            } else {
                updated
            }
        };
    lemma_updates_keep_the_view(turned.paced(before.pace(stream, unix_ms)), updated, incoming, now, moved);
}

/// What the worker brings never changes which view is reviewed.
proof fn lemma_updates_keep_the_view(before: ReviewUi, after: ReviewUi, incoming: Incoming, now: u64, changed: bool)
    requires
        after.updated_from(before, incoming, now, changed),
    ensures
        after.key == before.key,
{
    reveal(ReviewUi::heard_from);
    reveal(ReviewUi::data_from);
    reveal(ReviewUi::prefs_from);
    reveal(ReviewUi::reviewed_from);
    reveal(ReviewUi::refreshed_from);
    reveal(ReviewUi::restored_from);
    reveal(ReviewUi::abandoned_from);
}

/// A recording that was read for a connected account is the one that is then reviewed, with the
/// spells that are tracked; the moment of another view is shown where one waits.
pub proof fn read_recordings_are_reviewed(before: ReviewUi, after: ReviewUi, outcome: Outcome, now: u64, changed: bool)
    requires
        after.heard_from(before, outcome, now, changed),
        before.wants(outcome.generation, outcome.key@),
        outcome.connected,
        outcome.result is Ok && outcome.result->Ok_0 is Review,
    ensures
        after.review is Some,
        after.review->0@.pulls == outcome.result->Ok_0->Review_0@.pulls,
        after.review->0@.replay == outcome.result->Ok_0->Review_0@.replay,
        after.replay_coverage == coverage_of(outcome.result->Ok_0->Review_0@.replay),
        before.cooldowns.save is None ==> after.cooldowns.current@ == outcome.result->Ok_0->Review_1@,
        after.mode.active == before.mode.active && after.mode.connected && after.mode.connection_checked,
        !after.worker.running,
        before.pending_focus is None && !before.mode.open_first_pull && !before.broadcast_changes(
            outcome.result->Ok_0->Review_0@,
        ) && !before.loses_pull(outcome.result->Ok_0->Review_0@) ==> !changed && after.playback == before.playback
            && after.notice is None,
        before.pending_focus is Some && !before.mode.open_first_pull ==> changed,
        before.broadcast_changes(outcome.result->Ok_0->Review_0@) || before.loses_pull(
            outcome.result->Ok_0->Review_0@,
        ) ==> changed,
{
    reveal(ReviewUi::heard_from);
    reveal(ReviewUi::data_from);
    reveal(ReviewUi::prefs_from);
    let review = outcome.result->Ok_0->Review_0@;
    let base = before.informed(true, now);
    let (first, second, restored) = choose|first: ReviewUi, second: ReviewUi, restored: bool|
        {
            &&& #[trigger] first.prefs_from(base, outcome.result->Ok_0->Review_1@)
            &&& #[trigger] second.reviewed_from(first, review, now)
            &&& #[trigger] after.restored_from(second, now, restored)
            &&& changed == (first.broadcast_changes(review) || first.loses_pull(review) || first.opens_first(review)
                || restored)
        };
    lemma_review_keeps_cooldowns(first, second, review, now);
    lemma_restore_keeps_cooldowns(second, after, now, restored);
    recordings_open_with_their_first_pull(first, second, review, now);
    lemma_reviewed_is_loaded(first, second, review, now);
    reveal(ReviewUi::reviewed_from);
    reveal(ReviewUi::refreshed_from);
    reveal(ReviewUi::restored_from);
}

proof fn lemma_reviewed_is_loaded(before: ReviewUi, after: ReviewUi, review: ReviewView, now: u64)
    requires
        after.reviewed_from(before, review, now),
    ensures
        after.review is Some && after.review->0@.pulls == review.pulls && after.review->0@.replay == review.replay,
        after.replay_coverage == coverage_of(review.replay),
        after.worker.running == before.worker.running && after.mode.connected == before.mode.connected
            && after.mode.connection_checked == before.mode.connection_checked,
        !before.opens_first(review) ==> after.pending_focus == before.pending_focus,
{
    reveal(ReviewUi::reviewed_from);
    reveal(ReviewUi::refreshed_from);
    if before.opens_first(review) {
        let (middle, first) = choose|middle: ReviewUi, first: Pull|
            {
                &&& #[trigger] middle.refreshed_from(before, review, now)
                &&& first@ == review.pulls[0]
                &&& #[trigger] after.opened_from(middle, first, now)
            };
        assert((ReviewUi { mode: middle.mode, ..after }).selected_from(middle, first, now));
    }
}

} // verus!
