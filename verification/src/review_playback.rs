//! Following the provider's player: which moment is shown, and when a pull ends.
use crate::clock::{elapsed, elapsed_since};
use crate::playback::{PlaybackCommand, PlaybackState, MAX_POSITION};
use crate::raid::{
    alignment_of, covers, encounter_moment, find_shown, is_same_selection, is_showing, moment_at, narrow,
    nearest_thousand, pull_view, recording_covers_moment, same_selection, shown_pull, shows_pull, to_i64,
    video_position, video_start, Pull, PullView, Review, Stream,
};
use crate::raid_text::{pov_key, pov_key_text, pull_length};
use crate::review::{focus_view, review_view};
use crate::review_state::{
    second_of, whole_second, Focus, MarkerSync, Observation, Playback, Range, ReviewUi, Selection,
};
use crate::text::{holds, same_text};
use vstd::prelude::*;

verus! {

/// Whether playback is meant to run: by the native action that still waits, by what was
/// last asked while the player is not settled, and by what it does otherwise.
pub open spec fn intended(state: PlaybackState, playback: Option<Playback>) -> bool {
    if state.playback_intent is Some {
        state.playback_intent->0
    } else if !state.ready || state.seeking is Some || state.blocked || state.buffering {
        playback is None || playback->0.autoplay
    } else {
        state.playing
    }
}

pub fn playback_intent(state: &PlaybackState, playback: &Option<Playback>) -> (playing: bool)
    ensures
        playing == intended(*state, *playback),
{
    if let Some(intent) = state.playback_intent {
        return intent;
    }
    if !state.ready || state.seeking.is_some() || state.blocked || state.buffering {
        match playback {
            Some(playback) => playback.autoplay,
            None => true,
        }
    } else {
        state.playing
    }
}

/// The moment that lies a time into a pull, to the nearest millisecond.
pub open spec fn moment_after(pull: PullView, elapsed: i64) -> i64 {
    to_i64(pull.start_ms + nearest_thousand(elapsed as int))
}

fn moment_into(pull: &Pull, elapsed: i64) -> (at_ms: i64)
    ensures
        at_ms == moment_after(pull@, elapsed),
{
    let micros: i128 = elapsed as i128;
    let millis: i128 = if micros >= 0 { (micros + 500) / 1000 } else { -((500 - micros) / 1000) };
    narrow(pull.start_ms as i128 + millis)
}

impl ReviewUi {
    // ------------------------------------------------------------ the position shown

    /// The position of a settled video that was seen after the last native command.
    pub open spec fn confirmed(self, state: PlaybackState, now: u64) -> Option<i64> {
        if state.ready && state.fresh_since(self.range.epoch, now) && state.seeking is None && !state.blocked
            && !state.buffering {
            Some(state.position)
        } else {
            None
        }
    }

    pub fn confirmed_video_position(&self, state: &PlaybackState, now: u64) -> (position: Option<i64>)
        ensures
            position == self.confirmed(*state, now),
    {
        if state.ready && state.is_fresh_since(self.range.epoch, now) && state.seeking.is_none() && !state.blocked
            && !state.buffering {
            Some(state.position)
        } else {
            None
        }
    }

    // ------------------------------------------------------------ comparison

    /// Whether this review can be compared: a pull of the loaded broadcast plays, and no
    /// other view's moment waits.
    pub open spec fn comparable(self) -> bool {
        &&& self.mode.active && self.pending_focus is None
        &&& self.review is Some && self.playback is Some && self.selection.pull is Some
        &&& self.playback->0.broadcast_id@ == self.review->0.replay.broadcast_id@
    }

    pub fn comparison_context(&self) -> (context: Option<(&Review, &Pull)>)
        ensures
            context is Some == self.comparable(),
            match context {
                Some((review, pull)) => *review == self.review->0 && *pull == self.selection.pull->0,
                None => true,
            },
    {
        if !self.mode.active || self.pending_focus.is_some() {
            return None;
        }
        match (&self.review, &self.playback, &self.selection.pull) {
            (Some(review), Some(playback), Some(pull)) => if same_text(
                &playback.broadcast_id,
                &review.replay.broadcast_id,
            ) {
                Some((review, pull))
            } else {
                None
            },
            _ => None,
        }
    }

    /// The position that stands for the video: where it was seen, where it is going, or
    /// where it was sent.
    pub open spec fn likely_position(self, state: PlaybackState, now: u64) -> i64 {
        if self.confirmed(state, now) is Some {
            self.confirmed(state, now)->0
        } else if state.fresh_since(self.range.epoch, now) && state.seeking is Some {
            state.seeking->0
        } else {
            self.playback->0.position
        }
    }

    /// The moment that a comparable review shows, and whether it plays.
    pub open spec fn compared(self, state: PlaybackState, now: u64) -> Option<(i64, bool)> {
        if !self.comparable() {
            None
        } else if self.marker.intent is Some {
            Some((moment_after(self.selection.pull->0@, self.marker.intent->0.elapsed), self.marker.intent->0.playing))
        } else {
            Some(
                (
                    moment_at(self.review->0@, self.selection.pull->0@, self.likely_position(state, now)),
                    intended(state, self.playback),
                ),
            )
        }
    }

    pub fn comparison_position(&self, state: &PlaybackState, now: u64) -> (position: Option<(i64, bool)>)
        ensures
            position == self.compared(*state, now),
    {
        let (review, pull) = match self.comparison_context() {
            Some(context) => context,
            None => {
                return None;
            },
        };
        if let Some(intent) = self.marker.intent {
            return Some((moment_into(pull, intent.elapsed), intent.playing));
        }
        let position: i64 = match self.confirmed_video_position(state, now) {
            Some(position) => position,
            None => {
                let target = if state.is_fresh_since(self.range.epoch, now) {
                    state.seeking
                } else {
                    None
                };
                match target {
                    Some(position) => position,
                    None => match &self.playback {
                        Some(playback) => playback.position,
                        None => 0,
                    },
                }
            },
        };
        Some((encounter_moment(review, pull, position), playback_intent(state, &self.playback)))
    }

    /// Lets the chosen pull follow the video. Another pull starts with nothing read of it.
    fn follow_pull(&mut self, target: Option<Pull>)
        ensures
            ({
                let same = same_selection(pull_view(old(self).selection.pull), pull_view(target));
                &&& same ==> *final(self) == (ReviewUi {
                    selection: Selection { selected_event: None, scrub: None, ..old(self).selection },
                    ..*old(self)
                })
                &&& !same ==> {
                    &&& final(self).selection.pull == target && final(self).selection.untouched()
                    &&& *final(self) == (ReviewUi {
                        worker: old(self).worker.dropped(),
                        marker: MarkerSync::idle(),
                        selection: final(self).selection,
                        ..*old(self)
                    })
                }
            }),
    {
        if is_same_selection(&self.selection.pull, &target) {
            self.selection.selected_event = None;
            self.selection.scrub = None;
        } else {
            self.worker.drop_read(&self.selection.pull);
            self.marker.reset();
            self.selection = Selection::of(target);
        }
    }

    /// Notes where playback is, without a command.
    fn place_playback(&mut self, position: i64, playing: bool)
        ensures
            *final(self) == (ReviewUi {
                playback: match old(self).playback {
                    Some(playback) => Some(
                        Playback { position, autoplay: playing, public_second: whole_second(position), ..playback },
                    ),
                    None => None,
                },
                ..*old(self)
            }),
    {
        if let Some(playback) = self.playback.take() {
            self.playback = Some(
                Playback {
                    position,
                    autoplay: playing,
                    broadcast_id: playback.broadcast_id,
                    public_second: second_of(position),
                },
            );
        }
    }

    /// Whether this is `before` after its peer moved it to a position, in this pull or another.
    pub open spec fn followed_from(self, before: ReviewUi, selected: Option<Pull>, position: i64, playing: bool) -> bool {
        if !before.mode.active || !before.mode.comparing {
            self == before
        } else {
            let same = same_selection(pull_view(before.selection.pull), pull_view(selected));
            &&& if same {
                &&& self.selection == (Selection { selected_event: None, scrub: None, ..before.selection })
                &&& self.worker == before.worker && self.marker == before.marker
            } else {
                &&& self.selection.pull == selected && self.selection.untouched()
                &&& self.worker == before.worker.dropped() && self.marker == MarkerSync::idle()
            }
            &&& self.playback == if before.review is Some && before.playback is Some {
                Some(
                    Playback {
                        position,
                        autoplay: playing,
                        public_second: whole_second(position),
                        ..before.playback->0
                    },
                )
            } else {
                before.playback
            }
            &&& self == (ReviewUi {
                worker: self.worker,
                marker: self.marker,
                selection: self.selection,
                playback: self.playback,
                range: Range { pause_sent: false, timeline_position: Some(position), ..before.range },
                ..before
            })
        }
    }

    /// The comparison has mapped a gesture at the other provider into this recording.
    pub fn follow_comparison_position(&mut self, selected: Option<Pull>, position: i64, playing: bool)
        ensures
            final(self).followed_from(*old(self), selected, position, playing),
    {
        if !self.mode.active || !self.mode.comparing {
            return;
        }
        self.follow_pull(selected);
        self.range = Range { pause_sent: false, timeline_position: Some(position), ..self.range };
        if self.review.is_some() {
            self.place_playback(position, playing);
        }
    }

    // ------------------------------------------------------------ other views

    /// Whether the loaded metadata is about this view.
    pub open spec fn knows_view(self, candidate: Stream) -> bool {
        &&& self.review is Some
        &&& self.review->0.replay.provider == candidate.provider
        &&& pov_key_text(candidate) == self.key@ || candidate.spec_video() == Some(self.review->0.replay.video_id@)
    }

    /// Whether a view shows a moment of a pull: by its clock where one is known for the
    /// pull, and otherwise by the times of its recording. What is not known is not assumed.
    pub open spec fn view_covers(self, candidate: Stream, pull: PullView, at_ms: i64) -> bool {
        if self.knows_view(candidate) && alignment_of(self.review->0@, pull) is Some {
            0 <= video_position(self.review->0@, pull, at_ms) < self.review->0.replay.available_seconds * 1_000_000
        } else {
            let range = if self.knows_view(candidate) && self.replay_coverage is Some {
                self.replay_coverage
            } else {
                candidate.spec_range()
            };
            range is Some && covers(range->0, pull.start_ms, at_ms)
        }
    }

    pub fn pov_covers_moment(&self, candidate: &Stream, pull: &Pull, at_ms: i64) -> (yes: bool)
        ensures
            yes == self.view_covers(*candidate, pull@, at_ms),
    {
        let mut range = candidate.replay_range();
        if let Some(review) = &self.review {
            let known = review.replay.provider == candidate.provider && (same_text(&pov_key(candidate), &self.key) || holds(
                &candidate.video_id(),
                &review.replay.video_id,
            ));
            if known {
                if review.marker_alignment(pull).is_some() {
                    let position: i128 = review.pull_video_start(pull) as i128 + (at_ms as i128 - pull.start_ms as i128)
                        * 1000;
                    return 0 <= position && position < review.replay.available_seconds as i128 * 1_000_000;
                }
                if self.replay_coverage.is_some() {
                    range = self.replay_coverage;
                }
            }
        }
        match range {
            Some(range) => recording_covers_moment(range, pull.start_ms, at_ms),
            None => false,
        }
    }

    /// The pull and moment that another view would have to show: what another view asked
    /// for, or what this one shows.
    pub open spec fn wanted_moment(self, state: PlaybackState, now: u64) -> Option<(Pull, i64)> {
        match self.pending_focus {
            Some(focus) => Some((focus.pull, focus.at_ms)),
            None => if self.comparable() {
                Some(
                    (
                        self.selection.pull->0,
                        if self.marker.intent is Some {
                            moment_after(self.selection.pull->0@, self.marker.intent->0.elapsed)
                        } else {
                            moment_at(self.review->0@, self.selection.pull->0@, self.likely_position(state, now))
                        },
                    ),
                )
            } else {
                None
            },
        }
    }

    pub fn pov_selection_context(&self, state: &PlaybackState, now: u64) -> (context: Option<(&Pull, i64)>)
        ensures
            match context {
                Some((pull, at_ms)) => self.wanted_moment(*state, now) == Some((*pull, at_ms)),
                None => self.wanted_moment(*state, now) is None,
            },
    {
        if let Some(focus) = &self.pending_focus {
            return Some((&focus.pull, focus.at_ms));
        }
        match (&self.selection.pull, self.comparison_position(state, now)) {
            (Some(pull), Some((at_ms, _))) => Some((pull, at_ms)),
            _ => None,
        }
    }

    /// The moment that the next view takes over.
    pub open spec fn handed_on(self, state: PlaybackState, now: u64) -> Option<(PullView, i64, bool)> {
        if self.playback is None || self.selection.pull is None {
            focus_view(self.pending_focus)
        } else if self.marker.intent is Some {
            Some(
                (
                    self.selection.pull->0@,
                    moment_after(self.selection.pull->0@, self.marker.intent->0.elapsed),
                    self.marker.intent->0.playing,
                ),
            )
        } else if self.review is None {
            focus_view(self.pending_focus)
        } else {
            let current = state.ready && state.fresh_since(self.range.epoch, now);
            let position = if !current {
                self.playback->0.position
            } else if state.seeking is Some {
                state.seeking->0
            } else {
                state.position
            };
            let playing = if state.playback_intent is Some {
                state.playback_intent->0
            } else if current {
                intended(state, self.playback)
            } else {
                self.playback->0.autoplay
            };
            Some((self.selection.pull->0@, moment_at(self.review->0@, self.selection.pull->0@, position), playing))
        }
    }

    /// Keeps the moment that is watched for another view. While a view loads or cannot show
    /// the moment, the one that was asked for stays; an old sample never replaces it.
    pub fn capture_pov_position(&mut self, state: &PlaybackState, now: u64)
        ensures
            focus_view(final(self).pending_focus) == old(self).handed_on(*state, now),
            *final(self) == (ReviewUi { pending_focus: final(self).pending_focus, ..*old(self) }),
    {
        let (position, autoplay): (i64, bool) = match &self.playback {
            Some(playback) => (playback.position, playback.autoplay),
            None => {
                return;
            },
        };
        let pull = match &self.selection.pull {
            Some(pull) => pull.clone(),
            None => {
                return;
            },
        };
        if let Some(intent) = self.marker.intent {
            let at_ms: i64 = moment_into(&pull, intent.elapsed);
            self.pending_focus = Some(Focus { pull, at_ms, autoplay: intent.playing });
            return;
        }
        let at_ms: i64 = match &self.review {
            Some(review) => {
                let current = state.ready && state.is_fresh_since(self.range.epoch, now);
                let shown: i64 = if !current {
                    position
                } else {
                    match state.seeking {
                        Some(target) => target,
                        None => state.position,
                    }
                };
                encounter_moment(review, &pull, shown)
            },
            None => {
                return;
            },
        };
        let playing = match state.playback_intent {
            Some(intent) => intent,
            None => if state.ready && state.is_fresh_since(self.range.epoch, now) {
                playback_intent(state, &self.playback)
            } else {
                autoplay
            },
        };
        self.pending_focus = Some(Focus { pull, at_ms, autoplay: playing });
    }

    // ------------------------------------------------------------ the span of a report

    /// The first and last moment of the report that is reviewed.
    pub open spec fn spanned(self) -> Option<(i64, i64)> {
        match self.review {
            None => match self.pending_focus {
                Some(focus) => Some((focus.pull.start_ms, focus.pull.end_ms)),
                None => None,
            },
            Some(review) => if self.selection.pull is Some {
                span_of(review@.pulls, self.selection.pull->0.report@)
            } else if review@.pulls.len() > 0 {
                span_of(review@.pulls, review@.pulls[0].report)
            } else {
                None
            },
        }
    }

    pub fn report_span(&self) -> (span: Option<(i64, i64)>)
        ensures
            span == self.spanned(),
    {
        let review = match &self.review {
            Some(review) => review,
            None => {
                return match &self.pending_focus {
                    Some(focus) => Some((focus.pull.start_ms, focus.pull.end_ms)),
                    None => None,
                };
            },
        };
        match &self.selection.pull {
            Some(pull) => find_span(&review.pulls, &pull.report),
            None => if review.pulls.len() > 0 {
                assert(review@.pulls[0] == review.pulls@[0]@);
                find_span(&review.pulls, &review.pulls[0].report)
            } else {
                None
            },
        }
    }

    // ------------------------------------------------------------ the provider's own controls

    /// Whether a sample of the provider counts: a newer one, after the last native command,
    /// of the broadcast that plays, while nothing else moves the video.
    pub open spec fn hears(self, state: PlaybackState, now: u64) -> bool {
        &&& self.mode.active && !self.mode.comparing && !self.aligning && !self.marker.busy
        &&& self.pending_focus is None
        &&& state.fresh_since(self.range.epoch, now)
        &&& 0 <= state.position <= MAX_POSITION
        &&& self.review is Some && self.playback is Some
        &&& self.review->0.replay.broadcast_id@ == self.playback->0.broadcast_id@
        &&& state.poll_finished_at is Some && state.polled_at->0 <= state.poll_finished_at->0
        &&& self.range.observation is Some ==> state.polled_at->0 > self.range.observation->0.at
    }

    fn is_hearing(&self, state: &PlaybackState, now: u64) -> (at: Option<u64>)
        ensures
            at == if self.hears(*state, now) { state.polled_at } else { None },
    {
        if !self.mode.active || self.mode.comparing || self.aligning || self.marker.busy || self.pending_focus.is_some()
            || !state.is_fresh_since(self.range.epoch, now) || state.position < 0 || state.position > MAX_POSITION {
            return None;
        }
        match (&self.review, &self.playback) {
            (Some(review), Some(playback)) => {
                if !same_text(&review.replay.broadcast_id, &playback.broadcast_id) {
                    return None;
                }
            },
            _ => {
                return None;
            },
        }
        match state.observation_window() {
            None => None,
            Some((at, _)) => {
                if let Some(previous) = self.range.observation {
                    if at <= previous.at {
                        return None;
                    }
                }
                Some(at)
            },
        }
    }
}

impl Range {
    /// A new baseline: native commands are under way, so nothing seen is a gesture.
    pub open spec fn rebased(self, state: PlaybackState) -> Range {
        Range {
            observation: None,
            seek_generation: state.provider_seek_generation,
            seek_pending: false,
            ..self
        }
    }

    /// Whether the video moved in a way that playing does not explain.
    pub open spec fn jumped(self, state: PlaybackState) -> bool {
        match self.observation {
            Some(previous) => state.position < previous.position - 1_000_000 || state.position > previous.position
                + elapsed_since(previous.at, state.polled_at->0) * 2 + 1_000_000,
            None => false,
        }
    }

    /// Whether the sample shows a jump made at the provider.
    pub open spec fn gesture(self, state: PlaybackState) -> bool {
        self.observation is Some && ((self.seek_generation is Some && state.provider_seek_generation is Some
            && self.seek_generation->0 != state.provider_seek_generation->0) || self.jumped(state)
            || state.media_seeking == Some(true))
    }

    pub open spec fn noticed(self, state: PlaybackState) -> Range {
        Range {
            seek_pending: self.seek_pending || self.gesture(state),
            seek_generation: state.provider_seek_generation,
            observation: Some(Observation { at: state.polled_at->0, position: state.position }),
            ..self
        }
    }

    /// Takes a sample that shows the provider's own doing.
    fn notice(&mut self, state: &PlaybackState, at: u64)
        requires
            state.polled_at == Some(at),
        ensures
            *final(self) == old(self).noticed(*state),
    {
        if let Some(previous) = self.observation {
            let generation_changed = match (self.seek_generation, state.provider_seek_generation) {
                (Some(before), Some(now)) => before != now,
                _ => false,
            };
            let position: i128 = state.position as i128;
            let low: i128 = previous.position as i128 - 1_000_000;
            let high: i128 = previous.position as i128 + elapsed(previous.at, at) as i128 * 2 + 1_000_000;
            let moving = match state.media_seeking {
                Some(moving) => moving,
                None => false,
            };
            if generation_changed || position < low || position > high || moving {
                self.seek_pending = true;
            }
        }
        self.seek_generation = state.provider_seek_generation;
        self.observation = Some(Observation { at, position: state.position });
    }
}

impl ReviewUi {
    /// The pull that a settled position belongs to: the chosen one where it shows it.
    pub open spec fn pull_at(self, position: i64) -> Option<PullView> {
        let review = self.review->0@;
        if self.selection.pull is Some && shows_pull(review, self.selection.pull->0@, position) {
            Some(self.selection.pull->0@)
        } else {
            match shown_pull(review, 0, position) {
                Some(i) => Some(review.pulls[i]),
                None => None,
            }
        }
    }

    /// Whether this is `before` once a jump at the provider has settled: the pull follows the
    /// video, and no command is made of it.
    pub open spec fn landed_from(self, before: ReviewUi, state: PlaybackState, range: Range) -> bool {
        let target = before.pull_at(state.position);
        let same = same_selection(pull_view(before.selection.pull), target);
        &&& if same {
            &&& self.selection == (Selection { selected_event: None, scrub: None, ..before.selection })
            &&& self.worker == before.worker && self.marker == before.marker
        } else {
            &&& pull_view(self.selection.pull) == target && self.selection.untouched()
            &&& self.worker == before.worker.dropped() && self.marker == MarkerSync::idle()
        }
        &&& self == (ReviewUi {
            worker: self.worker,
            marker: self.marker,
            selection: self.selection,
            playback: Some(
                Playback {
                    position: state.position,
                    autoplay: state.playing,
                    public_second: whole_second(state.position),
                    ..before.playback->0
                },
            ),
            range: Range { seek_pending: false, pause_sent: false, ..range },
            ..before
        })
    }

    /// Whether this is `before` after a sample of the provider.
    #[verifier::opaque]
    pub open spec fn observed_from(self, before: ReviewUi, state: PlaybackState, now: u64) -> bool {
        if !before.hears(state, now) {
            self == before
        } else if state.seeking is Some || state.playback_intent is Some || !state.ready {
            self == (ReviewUi { range: before.range.rebased(state), ..before })
        } else {
            let range = before.range.noticed(state);
            let settled = Range { timeline_position: Some(state.position), ..range };
            if state.blocked || state.buffering || state.media_seeking == Some(true) {
                self == (ReviewUi { range, ..before })
            } else if !range.seek_pending && before.selection.pull is Some {
                self == (ReviewUi {
                    range: settled,
                    playback: Some(
                        Playback { position: state.position, autoplay: state.playing, ..before.playback->0 },
                    ),
                    ..before
                })
            } else {
                self.landed_from(before, state, settled)
            }
        }
    }

    fn find_pull_at(&self, position: i64) -> (found: Option<Pull>)
        requires
            self.review is Some,
        ensures
            pull_view(found) == self.pull_at(position),
    {
        match &self.review {
            None => None,
            Some(review) => {
                if let Some(pull) = &self.selection.pull {
                    if is_showing(review, pull, position) {
                        return Some(pull.clone());
                    }
                }
                match find_shown(review, position) {
                    Some(i) => {
                        assert(review@.pulls[i as int] == review.pulls@[i as int]@);
                        Some(review.pulls[i].clone())
                    },
                    None => None,
                }
            },
        }
    }

    fn land(&mut self, state: &PlaybackState)
        requires
            old(self).review is Some,
            old(self).playback is Some,
        ensures
            final(self).landed_from(*old(self), *state, old(self).range),
    {
        let target = self.find_pull_at(state.position);
        self.follow_pull(target);
        self.range = Range { seek_pending: false, pause_sent: false, ..self.range };
        self.place_playback(state.position, state.playing);
    }

    /// Follows the provider's own controls. No command is ever made of them.
    #[verifier::rlimit(40)]
    pub fn observe_provider_playback(&mut self, state: &PlaybackState, now: u64)
        ensures
            final(self).observed_from(*old(self), *state, now),
    {
        proof {
            reveal(ReviewUi::observed_from);
        }
        let at: u64 = match self.is_hearing(state, now) {
            Some(at) => at,
            None => {
                return;
            },
        };
        if state.seeking.is_some() || state.playback_intent.is_some() || !state.ready {
            self.range = Range {
                observation: None,
                seek_generation: state.provider_seek_generation,
                seek_pending: false,
                ..self.range
            };
            return;
        }
        let mut range = self.range;
        range.notice(state, at);
        let moving = match state.media_seeking {
            Some(moving) => moving,
            None => false,
        };
        if state.blocked || state.buffering || moving {
            self.range = range;
            return;
        }
        range.timeline_position = Some(state.position);
        self.range = range;
        if !range.seek_pending && self.selection.pull.is_some() {
            if let Some(playback) = self.playback.take() {
                self.playback = Some(
                    Playback {
                        position: state.position,
                        autoplay: state.playing,
                        broadcast_id: playback.broadcast_id,
                        public_second: playback.public_second,
                    },
                );
            }
            return;
        }
        self.land(state);
    }

    // ------------------------------------------------------------ the end of a pull

    /// Whether the sample may end a pull: settled, after the last native command, while
    /// nothing else moves the video.
    pub open spec fn may_end(self, state: PlaybackState, now: u64) -> bool {
        &&& self.mode.active && !self.mode.comparing && !self.marker.busy && !self.range.seek_pending && !self.aligning
        &&& self.playback is Some && self.selection.pull is Some && self.review is Some
        &&& state.ready && state.fresh_since(self.range.epoch, now)
        &&& state.seeking is None && state.playback_intent is None && !state.blocked && !state.buffering
    }

    /// Where the chosen pull ends.
    pub open spec fn pull_end(self) -> int {
        video_start(self.review->0@, self.selection.pull->0@) + pull_length(self.selection.pull->0@)
    }

    /// Whether a pause at the pull's end counts as sent: a real return into the pull, not
    /// jitter at its end, makes another one possible.
    pub open spec fn pause_counts(self, state: PlaybackState) -> bool {
        self.range.pause_sent && state.position >= self.pull_end() - 1_000_000
    }

    /// Whether this is `before` after a sample that may pause the video, with the command made
    /// of it.
    pub open spec fn ended_from(
        self,
        before: ReviewUi,
        state: PlaybackState,
        now: u64,
        command: Option<PlaybackCommand>,
    ) -> bool {
        let pauses = before.may_end(state, now) && state.playing && state.position >= before.pull_end()
            && !before.pause_counts(state);
        &&& command == if pauses { Some(PlaybackCommand::Pause) } else { None }
        &&& self == if before.may_end(state, now) {
            (ReviewUi { range: Range { pause_sent: pauses || before.pause_counts(state), ..before.range }, ..before })
        } else {
            before
        }
    }

    /// Pauses a playing video at the end of its pull, once.
    pub fn pause_at_pull_end(&mut self, state: &PlaybackState, now: u64) -> (command: Option<PlaybackCommand>)
        ensures
            final(self).ended_from(*old(self), *state, now, command),
    {
        if self.mode.comparing || self.marker.busy || self.range.seek_pending || !self.mode.active || self.aligning
            || self.playback.is_none() || !state.ready || !state.is_fresh_since(self.range.epoch, now)
            || state.seeking.is_some() || state.blocked || state.buffering || state.playback_intent.is_some() {
            return None;
        }
        let end: i128 = match (&self.selection.pull, &self.review) {
            (Some(pull), Some(review)) => review.pull_video_start(pull) as i128 + (pull.end_ms as i128
                - pull.start_ms as i128) * 1000,
            _ => {
                return None;
            },
        };
        let position: i128 = state.position as i128;
        let counts = self.range.pause_sent && position >= end - 1_000_000;
        let pauses = state.playing && position >= end && !counts;
        self.range.pause_sent = pauses || counts;
        if pauses {
            Some(PlaybackCommand::Pause)
        } else {
            None
        }
    }
}

/// The first start and the last end of a report's pulls.
pub open spec fn span_of(pulls: Seq<PullView>, report: Seq<char>) -> Option<(i64, i64)>
    decreases pulls.len(),
{
    if pulls.len() == 0 {
        None
    } else {
        let rest = span_of(pulls.drop_last(), report);
        let pull = pulls.last();
        if pull.report != report {
            rest
        } else {
            match rest {
                None => Some((pull.start_ms, pull.end_ms)),
                Some((start, end)) => Some(
                    (
                        if pull.start_ms < start { pull.start_ms } else { start },
                        if pull.end_ms > end { pull.end_ms } else { end },
                    ),
                ),
            }
        }
    }
}

fn find_span(pulls: &Vec<Pull>, report: &str) -> (span: Option<(i64, i64)>)
    ensures
        span == span_of(crate::raid::pull_views(pulls@), report@),
{
    let ghost views = crate::raid::pull_views(pulls@);
    let mut span: Option<(i64, i64)> = None;
    let mut i: usize = 0;
    while i < pulls.len()
        invariant
            i <= pulls.len(),
            views == crate::raid::pull_views(pulls@),
            span == span_of(views.take(i as int), report@),
        decreases pulls.len() - i,
    {
        assert(views.take(i as int + 1).drop_last() =~= views.take(i as int));
        let pull = &pulls[i];
        if same_text(&pull.report, report) {
            span = match span {
                None => Some((pull.start_ms, pull.end_ms)),
                Some((start, end)) => Some(
                    (
                        if pull.start_ms < start { pull.start_ms } else { start },
                        if pull.end_ms > end { pull.end_ms } else { end },
                    ),
                ),
            };
        }
        i += 1;
    }
    assert(views.take(views.len() as int) =~= views);
    span
}

// ---------------------------------------------------------------- laws

/// The same sample is never taken twice, and an older one not at all.
pub proof fn samples_count_once(before: ReviewUi, after: ReviewUi, state: PlaybackState, now: u64, later: u64)
    requires
        after.observed_from(before, state, now),
        before.hears(state, now),
        state.ready && state.seeking is None && state.playback_intent is None,
    ensures
        !after.hears(state, later),
{
    reveal(ReviewUi::observed_from);
}

/// While a native jump or a native play or pause waits, the provider's samples never
/// change the chosen pull, what was read of it, or where playback goes.
pub proof fn native_commands_are_no_gestures(before: ReviewUi, after: ReviewUi, state: PlaybackState, now: u64)
    requires
        after.observed_from(before, state, now),
        state.seeking is Some || state.playback_intent is Some || !state.ready || !state.fresh_since(
            before.range.epoch,
            now,
        ),
    ensures
        after.selection == before.selection && after.playback == before.playback && after.review == before.review,
        !after.range.seek_pending || after.range.seek_pending == before.range.seek_pending,
{
    reveal(ReviewUi::observed_from);
}

/// After a pause at the end of a pull, no second one follows until the video has gone back
/// into the pull by more than a second.
pub proof fn one_pause_per_end(ui: ReviewUi, state: PlaybackState)
    requires
        ui.range.pause_sent,
        state.position >= ui.pull_end() - 1_000_000,
    ensures
        ui.pause_counts(state),
{
}

/// A view that is loading, or that cannot show the wanted moment, hands on the moment it
/// was given, unchanged.
pub proof fn missing_views_keep_the_moment(ui: ReviewUi, state: PlaybackState, now: u64)
    requires
        ui.playback is None,
    ensures
        ui.handed_on(state, now) == focus_view(ui.pending_focus),
{
}

/// A moment that was just jumped to is handed on exactly, before the player has confirmed it.
pub proof fn fresh_jumps_are_handed_on(
    before: ReviewUi,
    after: ReviewUi,
    at_ms: i64,
    autoplay: bool,
    jumped: u64,
    command: Option<PlaybackCommand>,
    state: PlaybackState,
    now: u64,
)
    requires
        after.sought_from(before, at_ms, autoplay, jumped, command),
        command is Some,
        before.marker.intent is None,
        state.playback_intent is None,
        !state.ready || state.polled_at is None || state.polled_at->0 < jumped,
    ensures
        after.handed_on(state, now) == Some((before.selection.pull->0@, at_ms, autoplay)),
{
    let review = before.clocked()->0;
    crate::raid::seek_preserves_the_millisecond(review, before.selection.pull->0@, at_ms);
    assert(review_view(after.review) == Some(review));
}

/// A sample counts only where it is of the reviewed broadcast, newer than the last one and than
/// the last native command, and less than two seconds old; nothing else may be moving the video.
pub proof fn heard_samples_are_news(ui: ReviewUi, state: PlaybackState, now: u64)
    requires
        ui.hears(state, now),
    ensures
        ui.mode.active && !ui.mode.comparing && !ui.aligning && !ui.marker.busy && ui.pending_focus is None,
        ui.review is Some && ui.playback is Some,
        ui.review->0.replay.broadcast_id@ == ui.playback->0.broadcast_id@,
        state.polled_at is Some && ui.range.epoch <= state.polled_at->0,
        now - state.polled_at->0 < 2_000_000,
        ui.range.observation is Some ==> ui.range.observation->0.at < state.polled_at->0,
        0 <= state.position <= 604_800_000_000,
{
}

/// Every such sample counts.
pub proof fn news_is_heard(ui: ReviewUi, state: PlaybackState, now: u64)
    requires
        ui.mode.active && !ui.mode.comparing && !ui.aligning && !ui.marker.busy && ui.pending_focus is None,
        ui.review is Some && ui.playback is Some,
        ui.review->0.replay.broadcast_id@ == ui.playback->0.broadcast_id@,
        state.polled_at is Some && ui.range.epoch <= state.polled_at->0 <= now,
        now - state.polled_at->0 < 2_000_000,
        state.poll_finished_at is Some && state.polled_at->0 <= state.poll_finished_at->0,
        ui.range.observation is Some ==> ui.range.observation->0.at < state.polled_at->0,
        0 <= state.position <= 604_800_000_000,
    ensures
        ui.hears(state, now),
{
}

/// A settled sample that counts is kept: whether it came by playing on or by a jump, the review
/// then stands where the video was seen, playing as the video does, in the same broadcast.
pub proof fn settled_samples_are_kept(before: ReviewUi, after: ReviewUi, state: PlaybackState, now: u64)
    requires
        after.observed_from(before, state, now),
        before.hears(state, now),
        state.ready && state.seeking is None && state.playback_intent is None,
        !state.blocked && !state.buffering && state.media_seeking != Some(true),
    ensures
        after.playback is Some,
        after.playback->0.position == state.position,
        after.playback->0.autoplay == state.playing,
        after.playback->0.broadcast_id == before.playback->0.broadcast_id,
        after.range.timeline_position == Some(state.position),
        after.range.observation is Some && after.range.observation->0.at == state.polled_at->0
            && after.range.observation->0.position == state.position,
        after.range.seek_generation == state.provider_seek_generation,
        !after.range.seek_pending,
        after.range.epoch == before.range.epoch,
        after.mode == before.mode && after.review == before.review && after.notice == before.notice
            && after.pending_focus == before.pending_focus,
{
    reveal(ReviewUi::observed_from);
}

/// Playing on, at up to twice the ordinary speed and within a second, is no jump: the chosen
/// pull stays, with all that was read of it.
pub proof fn playing_on_keeps_the_pull(before: ReviewUi, after: ReviewUi, state: PlaybackState, now: u64)
    requires
        after.observed_from(before, state, now),
        before.selection.pull is Some && !before.range.seek_pending,
        state.media_seeking != Some(true),
        before.range.seek_generation == state.provider_seek_generation,
        before.range.observation is Some ==> {
            let last = before.range.observation->0;
            &&& state.polled_at is Some && last.at <= state.polled_at->0
            &&& last.position - 1_000_000 <= state.position
            &&& state.position <= last.position + 2 * (state.polled_at->0 - last.at) + 1_000_000
        },
    ensures
        after.selection == before.selection && after.worker == before.worker && after.marker == before.marker,
        !after.range.seek_pending && after.range.pause_sent == before.range.pause_sent,
        after.playback is Some == before.playback is Some,
        after.playback is Some ==> after.playback->0.public_second == before.playback->0.public_second,
{
    reveal(ReviewUi::observed_from);
}

/// A settled jump at the provider moves the review to the pull that the video then shows. The
/// chosen one stays where it shows the position, with what was read of it; otherwise the first
/// pull that shows it is opened afresh, and none where none does.
pub proof fn jumps_at_the_provider_are_followed(before: ReviewUi, after: ReviewUi, state: PlaybackState, now: u64)
    requires
        after.observed_from(before, state, now),
        before.hears(state, now),
        state.ready && state.seeking is None && state.playback_intent is None,
        !state.blocked && !state.buffering && state.media_seeking != Some(true),
        before.range.seek_pending || before.selection.pull is None || (before.range.observation is Some && {
            let last = before.range.observation->0;
            ||| state.position < last.position - 1_000_000
            ||| state.position > last.position + 2 * (state.polled_at->0 - last.at) + 1_000_000
            ||| before.range.seek_generation is Some && state.provider_seek_generation is Some
                && before.range.seek_generation->0 != state.provider_seek_generation->0
        }),
    ensures
        after.selection.selected_event is None && after.selection.scrub is None,
        !after.range.pause_sent,
        after.playback->0.public_second == state.position / 1_000_000,
        before.selection.pull is Some && shows_pull(before.review->0@, before.selection.pull->0@, state.position) ==> {
            after.selection.pull == before.selection.pull && after.selection.events == before.selection.events
                && after.worker == before.worker
        },
        before.selection.pull is None || !shows_pull(before.review->0@, before.selection.pull->0@, state.position) ==> {
            match after.selection.pull {
                Some(pull) => shows_pull(before.review->0@, pull@, state.position) && before.review->0@.pulls.contains(
                    pull@,
                ) || before.selection.pull == Some(pull),
                None => forall|j: int|
                    0 <= j < before.review->0@.pulls.len() ==> !shows_pull(
                        before.review->0@,
                        #[trigger] before.review->0@.pulls[j],
                        state.position,
                    ),
            }
        },
{
    reveal(ReviewUi::observed_from);
    crate::raid::positions_belong_to_the_first_pull(before.review->0@, state.position);
}

/// While the video is stopped by the provider, still loading or still moving, a jump is only
/// noted: the review stays where it was and follows once the video has settled.
pub proof fn unsettled_jumps_are_noted(before: ReviewUi, after: ReviewUi, state: PlaybackState, now: u64)
    requires
        after.observed_from(before, state, now),
        state.blocked || state.buffering || state.media_seeking == Some(true),
    ensures
        after.playback == before.playback && after.selection == before.selection && after.worker == before.worker
            && after.marker == before.marker,
        after.range.timeline_position == before.range.timeline_position && after.range.pause_sent
            == before.range.pause_sent,
        before.hears(state, now) && state.ready && state.seeking is None && state.playback_intent is None ==> {
            &&& before.range.seek_pending ==> after.range.seek_pending
            &&& before.range.observation is Some && state.media_seeking == Some(true) ==> after.range.seek_pending
            &&& before.range.observation is Some && state.position < before.range.observation->0.position
                - 1_000_000 ==> after.range.seek_pending
        },
{
    reveal(ReviewUi::observed_from);
}

/// What the provider shows while a native command is under way is the baseline for what it does
/// after it: no earlier sample is compared with a later one.
pub proof fn native_commands_start_a_new_baseline(before: ReviewUi, after: ReviewUi, state: PlaybackState, now: u64)
    requires
        after.observed_from(before, state, now),
        before.hears(state, now),
        state.seeking is Some || state.playback_intent is Some || !state.ready,
    ensures
        after.range.observation is None && !after.range.seek_pending,
        after.range.seek_generation == state.provider_seek_generation,
        after.range.epoch == before.range.epoch && after.range.pause_sent == before.range.pause_sent
            && after.range.timeline_position == before.range.timeline_position,
{
    reveal(ReviewUi::observed_from);
}

/// A sample that does not count changes nothing.
pub proof fn unheard_samples_change_nothing(before: ReviewUi, after: ReviewUi, state: PlaybackState, now: u64)
    requires
        after.observed_from(before, state, now),
        !before.mode.active || before.mode.comparing || before.aligning || before.marker.busy || before.pending_focus
            is Some || before.playback is None || before.review is None || state.polled_at is None
            || state.polled_at->0 < before.range.epoch || now - state.polled_at->0 >= 2_000_000,
    ensures
        after == before,
{
    reveal(ReviewUi::observed_from);
}

/// A native play or pause that waits decides; a player that is not settled is meant to do what it
/// was last asked, to play where nothing was asked; a settled one does what it is meant to.
pub proof fn playing_is_meant_as_last_asked(state: PlaybackState, playback: Option<Playback>)
    ensures
        state.playback_intent is Some ==> Some(intended(state, playback)) == state.playback_intent,
        state.playback_intent is None && (!state.ready || state.seeking is Some || state.blocked || state.buffering)
            && playback is Some ==> intended(state, playback) == playback->0.autoplay,
        state.playback_intent is None && (!state.ready || state.seeking is Some || state.blocked || state.buffering)
            && playback is None ==> intended(state, playback),
        state.playback_intent is None && state.ready && state.seeking is None && !state.blocked && !state.buffering
            ==> intended(state, playback) == state.playing,
{
}

/// A position is confirmed exactly by a settled player, seen in the last two seconds and not
/// before the last native command; it is the position that was seen.
pub proof fn confirmed_positions_were_seen(ui: ReviewUi, state: PlaybackState, now: u64)
    ensures
        ui.confirmed(state, now) is Some ==> ui.confirmed(state, now) == Some(state.position) && state.ready
            && state.seeking is None && !state.blocked && !state.buffering && state.polled_at is Some && ui.range.epoch
            <= state.polled_at->0 && now - state.polled_at->0 < 2_000_000,
        state.ready && state.seeking is None && !state.blocked && !state.buffering && state.polled_at is Some
            && ui.range.epoch <= state.polled_at->0 && state.polled_at->0 <= now < state.polled_at->0 + 2_000_000
            ==> ui.confirmed(state, now) is Some,
{
}

/// What a compared review shows: the moment to which its marker search will go, the position
/// that was seen, the one the player is going to, or the one it was sent to, in that order.
pub proof fn compared_moments_are_the_best_known(ui: ReviewUi, state: PlaybackState, now: u64)
    ensures
        ui.compared(state, now) is Some <==> ui.mode.active && ui.pending_focus is None && ui.review is Some
            && ui.playback is Some && ui.selection.pull is Some && ui.playback->0.broadcast_id@
            == ui.review->0.replay.broadcast_id@,
        ui.compared(state, now) is Some && ui.marker.intent is Some ==> {
            let (at_ms, playing) = ui.compared(state, now)->0;
            &&& playing == ui.marker.intent->0.playing
            &&& i64::MIN < at_ms < i64::MAX ==> -500 <= (at_ms - ui.selection.pull->0.start_ms) * 1000
                - ui.marker.intent->0.elapsed <= 500
        },
        ui.compared(state, now) is Some && ui.marker.intent is None ==> {
            let (at_ms, playing) = ui.compared(state, now)->0;
            let seen = state.polled_at is Some && ui.range.epoch <= state.polled_at->0 && state.polled_at->0 <= now
                < state.polled_at->0 + 2_000_000;
            let old = state.polled_at is None || state.polled_at->0 < ui.range.epoch || now - state.polled_at->0
                >= 2_000_000;
            let moving = state.blocked || state.buffering;
            &&& seen && state.ready && state.seeking is None && !moving ==> at_ms == moment_at(
                ui.review->0@,
                ui.selection.pull->0@,
                state.position,
            )
            &&& seen && state.seeking is Some ==> at_ms == moment_at(
                ui.review->0@,
                ui.selection.pull->0@,
                state.seeking->0,
            )
            &&& old || state.seeking is None && (moving || !state.ready) ==> at_ms == moment_at(
                ui.review->0@,
                ui.selection.pull->0@,
                ui.playback->0.position,
            )
            &&& playing == intended(state, ui.playback)
        },
{
}

/// A peer that is compared goes where it is told, plays as it is told, and may pause at its
/// pull's end again. A pull that stays keeps what was read of it; another starts with nothing.
pub proof fn peers_go_where_they_are_told(
    before: ReviewUi,
    after: ReviewUi,
    selected: Option<Pull>,
    position: i64,
    playing: bool,
)
    requires
        after.followed_from(before, selected, position, playing),
    ensures
        !before.mode.active || !before.mode.comparing ==> after == before,
        before.mode.active && before.mode.comparing ==> {
            &&& after.range.timeline_position == Some(position) && !after.range.pause_sent
            &&& after.range.epoch == before.range.epoch && after.range.observation == before.range.observation
            &&& after.selection.pull is Some == selected is Some
            &&& selected is Some ==> after.selection.pull->0.report@ == selected->0.report@
                && after.selection.pull->0.id == selected->0.id
            &&& after.selection.selected_event is None && after.selection.scrub is None
            &&& before.review is Some && before.playback is Some ==> {
                &&& after.playback is Some && after.playback->0.position == position
                &&& after.playback->0.autoplay == playing && after.playback->0.public_second == if position > 0 {
                    position / 1_000_000
                } else {
                    0
                }
                &&& after.playback->0.broadcast_id == before.playback->0.broadcast_id
            }
            &&& before.playback is None ==> after.playback is None
            &&& before.selection.pull is Some && selected is Some && before.selection.pull->0.report@
                == selected->0.report@ && before.selection.pull->0.id == selected->0.id ==> after.selection.events
                == before.selection.events && after.worker == before.worker && after.marker == before.marker
            &&& before.selection.pull is Some && selected is Some && before.selection.pull->0.id != selected->0.id
                ==> after.selection.events.events@.len() == 0 && after.marker.intent is None && !after.marker.busy
        },
{
}

/// A view with a clock of its own for the pull shows exactly the moments that its recording
/// holds by that clock; a view without one those of its known times; a view of which nothing
/// is known shows none.
pub proof fn views_show_what_is_known(ui: ReviewUi, candidate: Stream, pull: PullView, at_ms: i64)
    ensures
        ui.review is None && candidate.replay_start_ms is None ==> !ui.view_covers(candidate, pull, at_ms),
        ui.review is None && candidate.replay_end_ms is None ==> !ui.view_covers(candidate, pull, at_ms),
        ui.review is None && candidate.replay_start_ms is Some && candidate.replay_end_ms is Some ==> ui.view_covers(
            candidate,
            pull,
            at_ms,
        ) == covers((candidate.replay_start_ms->0, candidate.replay_end_ms->0), pull.start_ms, at_ms),
        ui.knows_view(candidate) && ui.review->0@.timing.dom().contains((pull.report, pull.id)) ==> {
            let position = ui.review->0@.timing[(pull.report, pull.id)].video + (at_ms - pull.start_ms) * 1000;
            ui.view_covers(candidate, pull, at_ms) <==> 0 <= position && position
                < ui.review->0.replay.available_seconds * 1_000_000
        },
        ui.knows_view(candidate) && !ui.review->0@.timing.dom().contains((pull.report, pull.id)) && ui.replay_coverage
            is Some ==> ui.view_covers(candidate, pull, at_ms) == covers(ui.replay_coverage->0, pull.start_ms, at_ms),
        ui.knows_view(candidate) ==> ui.review->0.replay.provider == candidate.provider && (pov_key_text(candidate)
            == ui.key@ || candidate.spec_video() == Some(ui.review->0.replay.video_id@)),
{
}

/// The next view takes over the moment that is watched: by a sample of the last two seconds, made
/// after the last native command, where the video is or goes; otherwise where it was sent.
pub proof fn watched_moments_are_handed_on(ui: ReviewUi, state: PlaybackState, now: u64)
    requires
        ui.playback is Some && ui.review is Some && ui.selection.pull is Some,
    ensures
        ui.handed_on(state, now) is Some,
        ({
            let (pull, at_ms, playing) = ui.handed_on(state, now)->0;
            &&& pull == ui.selection.pull->0@
            &&& ui.marker.intent is Some ==> playing == ui.marker.intent->0.playing && at_ms == moment_after(
                pull,
                ui.marker.intent->0.elapsed,
            )
        }),
        ui.marker.intent is None ==> {
            let (pull, at_ms, playing) = ui.handed_on(state, now)->0;
            let seen = state.ready && state.polled_at is Some && ui.range.epoch <= state.polled_at->0
                && state.polled_at->0 <= now < state.polled_at->0 + 2_000_000;
            let old = !state.ready || state.polled_at is None || state.polled_at->0 < ui.range.epoch || now
                - state.polled_at->0 >= 2_000_000;
            &&& seen && state.seeking is None ==> at_ms == moment_at(ui.review->0@, pull, state.position)
            &&& seen && state.seeking is Some ==> at_ms == moment_at(ui.review->0@, pull, state.seeking->0)
            &&& old ==> at_ms == moment_at(ui.review->0@, pull, ui.playback->0.position)
            &&& state.playback_intent is Some ==> playing == state.playback_intent->0
            &&& state.playback_intent is None && old ==> playing == ui.playback->0.autoplay
            &&& state.playback_intent is None && seen ==> playing == intended(state, ui.playback)
        },
{
}

/// Another view has to show what was asked for before, or else what this one shows.
pub proof fn wanted_moments_come_first(ui: ReviewUi, state: PlaybackState, now: u64)
    ensures
        ui.pending_focus is Some ==> ui.wanted_moment(state, now) == Some(
            (ui.pending_focus->0.pull, ui.pending_focus->0.at_ms),
        ),
        ui.pending_focus is None ==> match ui.compared(state, now) {
            Some((at_ms, _)) => ui.wanted_moment(state, now) == Some((ui.selection.pull->0, at_ms)),
            None => ui.wanted_moment(state, now) is None,
        },
{
}

/// A report spans from the first start to the last end of its pulls: no pull of it lies
/// outside, both bounds are those of a pull of it, and a report without pulls has no span.
pub proof fn spans_hold_every_pull(pulls: Seq<PullView>, report: Seq<char>)
    ensures
        match span_of(pulls, report) {
            Some((start, end)) => {
                &&& forall|i: int|
                    0 <= i < pulls.len() && (#[trigger] pulls[i]).report == report ==> start <= pulls[i].start_ms
                        && pulls[i].end_ms <= end
                &&& exists|i: int| 0 <= i < pulls.len() && (#[trigger] pulls[i]).report == report && pulls[i].start_ms == start
                &&& exists|i: int| 0 <= i < pulls.len() && (#[trigger] pulls[i]).report == report && pulls[i].end_ms == end
            },
            None => forall|i: int| 0 <= i < pulls.len() ==> (#[trigger] pulls[i]).report != report,
        },
    decreases pulls.len(),
{
    if pulls.len() > 0 {
        let rest = pulls.drop_last();
        let last = pulls.len() - 1;
        spans_hold_every_pull(rest, report);
        assert forall|i: int| 0 <= i < last implies rest[i] == #[trigger] pulls[i] by {}
        assert forall|i: int| 0 <= i < last implies pulls[i] == #[trigger] rest[i] by {}
        match span_of(rest, report) {
            Some((start, end)) => {
                let i = choose|i: int| 0 <= i < rest.len() && (#[trigger] rest[i]).report == report && rest[i].start_ms == start;
                let j = choose|j: int| 0 <= j < rest.len() && (#[trigger] rest[j]).report == report && rest[j].end_ms == end;
                assert(pulls[i].start_ms == start && pulls[j].end_ms == end);
                assert(pulls[last] == pulls.last());
            },
            None => {
                assert(pulls[last] == pulls.last());
            },
        }
    }
}

/// The span is that of the chosen pull's report, of the first pull's where none is chosen, and
/// of the wanted pull alone while the recording is not loaded.
pub proof fn spans_are_of_the_watched_report(ui: ReviewUi)
    ensures
        ui.review is Some && ui.selection.pull is Some ==> ui.spanned() == span_of(
            ui.review->0@.pulls,
            ui.selection.pull->0.report@,
        ),
        ui.review is Some && ui.selection.pull is None && ui.review->0@.pulls.len() > 0 ==> ui.spanned() == span_of(
            ui.review->0@.pulls,
            ui.review->0@.pulls[0].report,
        ),
        ui.review is Some && ui.selection.pull is None && ui.review->0@.pulls.len() == 0 ==> ui.spanned() is None,
        ui.review is None && ui.pending_focus is Some ==> ui.spanned() == Some(
            (ui.pending_focus->0.pull.start_ms, ui.pending_focus->0.pull.end_ms),
        ),
        ui.review is None && ui.pending_focus is None ==> ui.spanned() is None,
{
}

/// The video is paused only while it plays, at or past the end of its pull, and never by a sample
/// older than the last native command or while something else moves it.
pub proof fn pauses_come_at_the_end(
    before: ReviewUi,
    after: ReviewUi,
    state: PlaybackState,
    now: u64,
    command: Option<PlaybackCommand>,
)
    requires
        after.ended_from(before, state, now, command),
        command is Some,
    ensures
        command == Some(PlaybackCommand::Pause),
        state.playing && state.ready && state.seeking is None && state.playback_intent is None && !state.blocked
            && !state.buffering,
        state.polled_at is Some && before.range.epoch <= state.polled_at->0 && now - state.polled_at->0 < 2_000_000,
        before.mode.active && !before.mode.comparing && !before.marker.busy && !before.aligning
            && !before.range.seek_pending,
        before.review is Some && before.selection.pull is Some && before.playback is Some,
        ({
            let pull = before.selection.pull->0;
            state.position - video_start(before.review->0@, pull@) >= (pull.end_ms - pull.start_ms) * 1000
        }),
        before.range.pause_sent ==> state.position < video_start(
            before.review->0@,
            before.selection.pull->0@,
        ) + (before.selection.pull->0.end_ms - before.selection.pull->0.start_ms) * 1000 - 1_000_000,
        after.range.pause_sent,
{
}

/// A settled video that plays past the end of its pull is paused, once: the next sample there
/// does not pause it again, and one more than a second before the end makes another possible.
pub proof fn ends_pause_once(
    before: ReviewUi,
    after: ReviewUi,
    state: PlaybackState,
    now: u64,
    command: Option<PlaybackCommand>,
)
    requires
        after.ended_from(before, state, now, command),
        before.mode.active && !before.mode.comparing && !before.marker.busy && !before.aligning
            && !before.range.seek_pending,
        before.review is Some && before.selection.pull is Some && before.playback is Some,
        state.ready && state.seeking is None && state.playback_intent is None && !state.blocked && !state.buffering,
        state.polled_at is Some && before.range.epoch <= state.polled_at->0 <= now,
        now - state.polled_at->0 < 2_000_000,
    ensures
        ({
            let pull = before.selection.pull->0;
            let past = state.position - video_start(before.review->0@, pull@) - (pull.end_ms - pull.start_ms) * 1000;
            &&& past >= 0 && state.playing && !before.range.pause_sent ==> command == Some(PlaybackCommand::Pause)
            &&& past >= 0 && before.range.pause_sent ==> command is None && after.range.pause_sent
            &&& past >= -1_000_000 && before.range.pause_sent ==> after.range.pause_sent
            &&& past < -1_000_000 ==> !after.range.pause_sent
            &&& past < 0 ==> command is None
        }),
        after.playback == before.playback && after.selection == before.selection,
{
}

} // verus!
