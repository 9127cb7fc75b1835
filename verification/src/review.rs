//! Moving through a review: choosing pulls and moments, and taking what the worker reads.
use crate::address::text_of;
use crate::playback::PlaybackCommand;
use crate::raid::{
    adopt_clock, adopted, find_position, position_of, pull_views, video_start, Pull, PullView, Review, ReviewView,
};
use crate::review_state::{
    second_of, Focus, MarkerSync, Mode, Playback, Range, ReviewUi, SelectedEvent, Selection, Worker,
};
use vstd::prelude::*;

verus! {

/// The content of an optional review.
pub open spec fn review_view(review: Option<Review>) -> Option<ReviewView> {
    match review {
        Some(review) => Some(review@),
        None => None,
    }
}

/// The content of an optional moment for another view.
pub open spec fn focus_view(focus: Option<Focus>) -> Option<(PullView, i64, bool)> {
    match focus {
        Some(focus) => Some((focus.pull@, focus.at_ms, focus.autoplay)),
        None => None,
    }
}

/// Where a pull begins to play: its start, or that of the recording where it is earlier.
pub open spec fn start_position(review: ReviewView, pull: PullView) -> i64 {
    if video_start(review, pull) < 0 { 0 } else { video_start(review, pull) }
}

impl ReviewUi {
    // ------------------------------------------------------------ choosing a pull

    /// Whether this is `before` with `pull` chosen: it plays from its start on the best
    /// clock known, nothing of the pull is known yet, and no other view's moment waits.
    pub open spec fn selected_from(self, before: ReviewUi, pull: Pull, now: u64) -> bool {
        let review = adopted(before.review->0@, before.marker_cache@, pull@);
        &&& before.review is Some
        &&& review_view(self.review) == Some(review)
        &&& self.playback is Some
        &&& self.playback->0.is_at(start_position(review, pull@), true, review.replay.broadcast_id)
        &&& self.selection.pull == Some(pull) && self.selection.untouched()
        &&& self == (ReviewUi {
            worker: before.worker.dropped(),
            review: self.review,
            playback: self.playback,
            selection: self.selection,
            pending_focus: None,
            aligning: false,
            range: Range::fresh(now),
            marker: MarkerSync::idle(),
            ..before
        })
    }

    /// Chooses a pull of the review.
    pub fn select(&mut self, pull: Pull, now: u64)
        ensures
            old(self).review is None ==> *final(self) == (ReviewUi { marker: MarkerSync::idle(), ..*old(self) }),
            old(self).review is Some ==> final(self).selected_from(*old(self), pull, now),
    {
        self.marker.reset();
        match self.review.take() {
            None => {},
            Some(review) => {
                let mut review = review;
                adopt_clock(&mut review, &self.marker_cache, &pull);
                let start: i64 = review.pull_video_start(&pull);
                let position: i64 = if start < 0 { 0 } else { start };
                self.playback = Some(
                    Playback {
                        position,
                        autoplay: true,
                        broadcast_id: review.replay.broadcast_id.clone(),
                        public_second: second_of(position),
                    },
                );
                self.review = Some(review);
                self.worker.drop_read(&self.selection.pull);
                self.pending_focus = None;
                self.aligning = false;
                self.selection = Selection::of(Some(pull));
                self.range = Range::start(now);
            },
        }
    }

    /// Whether this is `before` with `pull` chosen, where it has a recording, with the command
    /// made of it.
    pub open spec fn navigated_from(
        self,
        before: ReviewUi,
        pull: Pull,
        now: u64,
        command: Option<PlaybackCommand>,
    ) -> bool {
        &&& before.review is None ==> self == (ReviewUi { marker: MarkerSync::idle(), ..before })
        &&& before.review is Some ==> self.selected_from(before, pull, now)
        &&& command == match self.playback {
            Some(playback) => Some(PlaybackCommand::Seek(playback.position)),
            None => None,
        }
    }

    /// Chooses a pull and jumps to where it plays.
    pub fn navigate_pull(&mut self, pull: Pull, now: u64) -> (command: Option<PlaybackCommand>)
        ensures
            final(self).navigated_from(*old(self), pull, now, command),
    {
        self.select(pull, now);
        match &self.playback {
            Some(playback) => Some(PlaybackCommand::Seek(playback.position)),
            None => None,
        }
    }

    /// Whether this is `before` with the review open at `first`.
    pub open spec fn begun_from(self, before: ReviewUi, first: Pull, now: u64) -> bool {
        &&& (ReviewUi { mode: before.mode, ..self }).selected_from(before, first, now)
        &&& self.mode == (Mode { active: true, ..before.mode })
    }

    /// Opens the review at its first pull, where it has one.
    pub fn open_first(&mut self, now: u64) -> (opened: bool)
        ensures
            opened == (old(self).review is Some && old(self).review->0.pulls@.len() > 0),
            !opened ==> *final(self) == *old(self),
            opened ==> exists|first: Pull|
                {
                    &&& first@ == old(self).review->0@.pulls[0]
                    &&& #[trigger] final(self).begun_from(*old(self), first, now)
                },
    {
        let first = match &self.review {
            Some(review) => if review.pulls.len() > 0 {
                Some(review.pulls[0].clone())
            } else {
                None
            },
            None => None,
        };
        match first {
            Some(pull) => {
                assert(pull@ == old(self).review->0@.pulls[0]);
                self.select(pull, now);
                self.mode.active = true;
                assert(self.begun_from(*old(self), pull, now));
                true
            },
            None => false,
        }
    }

    /// Whether two views are shown side by side.
    pub fn set_comparing(&mut self, comparing: bool)
        ensures
            *final(self) == (ReviewUi { mode: Mode { comparing, ..old(self).mode }, ..*old(self) }),
    {
        self.mode.comparing = comparing;
    }

    // ------------------------------------------------------------ choosing a moment

    /// The review with the best clock for the chosen pull.
    pub open spec fn clocked(self) -> Option<ReviewView> {
        if self.review is Some && self.selection.pull is Some {
            Some(adopted(self.review->0@, self.marker_cache@, self.selection.pull->0@))
        } else {
            review_view(self.review)
        }
    }

    /// The position of a moment of the chosen pull, where it can be played.
    pub open spec fn target(self, at_ms: i64) -> Option<i64> {
        if self.review is Some && self.selection.pull is Some && self.playback is Some {
            position_of(self.clocked()->0, self.selection.pull->0@, at_ms)
        } else {
            None
        }
    }

    /// Whether this is `before` after a jump to a moment of the chosen pull. A moment that
    /// the recording does not hold moves nothing.
    pub open spec fn sought_from(
        self,
        before: ReviewUi,
        at_ms: i64,
        autoplay: bool,
        now: u64,
        command: Option<PlaybackCommand>,
    ) -> bool {
        &&& review_view(self.review) == before.clocked()
        &&& match before.target(at_ms) {
            Some(position) => {
                &&& command == Some(
                    if autoplay { PlaybackCommand::Seek(position) } else { PlaybackCommand::SeekPaused(position) },
                )
                &&& self.playback is Some
                &&& self.playback->0.is_at(position, autoplay, before.playback->0.broadcast_id@)
                &&& self == (ReviewUi {
                    review: self.review,
                    playback: self.playback,
                    range: Range::fresh(now),
                    ..before
                })
            },
            None => command is None && self == (ReviewUi { review: self.review, ..before }),
        }
    }

    /// Jumps to a moment of the chosen pull, playing or paused.
    pub fn seek_absolute_with_playback(&mut self, at_ms: i64, autoplay: bool, now: u64) -> (command: Option<
        PlaybackCommand,
    >)
        ensures
            final(self).sought_from(*old(self), at_ms, autoplay, now, command),
    {
        let mut review = match self.review.take() {
            Some(review) => review,
            None => {
                return None;
            },
        };
        let position = match &self.selection.pull {
            Some(pull) => {
                adopt_clock(&mut review, &self.marker_cache, pull);
                find_position(&review, pull, at_ms)
            },
            None => None,
        };
        self.review = Some(review);
        let position: i64 = match position {
            Some(position) => position,
            None => {
                return None;
            },
        };
        match self.playback.take() {
            None => None,
            Some(playback) => {
                self.playback = Some(
                    Playback {
                        position,
                        autoplay,
                        broadcast_id: playback.broadcast_id,
                        public_second: second_of(position),
                    },
                );
                self.range = Range::start(now);
                if autoplay {
                    Some(PlaybackCommand::Seek(position))
                } else {
                    Some(PlaybackCommand::SeekPaused(position))
                }
            },
        }
    }

    /// Jumps to a moment of the chosen pull and plays.
    pub fn seek_absolute(&mut self, at_ms: i64, now: u64) -> (command: Option<PlaybackCommand>)
        ensures
            final(self).sought_from(*old(self), at_ms, true, now, command),
    {
        self.seek_absolute_with_playback(at_ms, true, now)
    }

    /// Whether this is `before` with an event watched, with the command made of it.
    pub open spec fn watched_from(
        self,
        before: ReviewUi,
        at_ms: i64,
        actor: String,
        now: u64,
        command: Option<PlaybackCommand>,
    ) -> bool {
        &&& (ReviewUi { selection: before.selection, ..self }).sought_from(before, at_ms, true, now, command)
        &&& self.selection == if command is Some {
            (Selection { selected_event: Some(SelectedEvent { at_ms, actor }), ..before.selection })
        } else {
            before.selection
        }
    }

    /// Jumps to an event, exactly, and highlights it.
    pub fn watch_event(&mut self, at_ms: i64, actor: String, now: u64) -> (command: Option<PlaybackCommand>)
        ensures
            final(self).watched_from(*old(self), at_ms, actor, now, command),
    {
        let command = self.seek_absolute(at_ms, now);
        if command.is_some() {
            self.selection.selected_event = Some(SelectedEvent { at_ms, actor });
        }
        command
    }

    // ------------------------------------------------------------ opening and leaving

    /// Whether this is `before` with the review of a recording opened.
    pub open spec fn entered_from(self, before: ReviewUi) -> bool {
        &&& self.selection.forgotten(before.read_cancelled().selection)
        &&& self == (ReviewUi {
            worker: Worker { last_attempt: None, ..before.worker.dropped() },
            mode: Mode { active: true, open_first_pull: true, popup_open: false, ..before.mode },
            notice: None,
            review: None,
            replay_coverage: None,
            playback: None,
            selection: self.selection,
            pending_focus: None,
            aligning: false,
            ..before
        })
    }

    /// Opens the review of a recording: its first pull plays once it is known.
    pub fn open_recording(&mut self)
        ensures
            final(self).entered_from(*old(self)),
    {
        self.cancel_read();
        self.worker.last_attempt = None;
        self.mode = Mode { active: true, open_first_pull: true, popup_open: false, ..self.mode };
        self.notice = None;
        self.review = None;
        self.replay_coverage = None;
        self.playback = None;
        self.selection.forget();
        self.pending_focus = None;
        self.aligning = false;
    }

    /// Whether this is `before` with the review left. What was read of the recording stays.
    pub open spec fn closed_from(self, before: ReviewUi) -> bool {
        &&& self.selection.forgotten(before.read_cancelled().selection)
        &&& self == (ReviewUi {
            worker: before.worker.dropped(),
            mode: Mode { active: false, open_first_pull: false, popup_open: false, ..before.mode },
            playback: None,
            selection: self.selection,
            pending_focus: None,
            ..before
        })
    }

    /// Leaves the review.
    pub fn close_review(&mut self)
        ensures
            final(self).closed_from(*old(self)),
    {
        self.cancel_read();
        self.mode = Mode { active: false, open_first_pull: false, popup_open: false, ..self.mode };
        self.playback = None;
        self.selection.forget();
        self.pending_focus = None;
    }

    /// Whether this is `before` with its view left for another: nothing of the recording
    /// stays, and the moment that the other view is to show does.
    pub open spec fn departed_from(self, before: ReviewUi) -> bool {
        &&& self.selection.forgotten(before.read_cancelled().selection)
        &&& self == (ReviewUi {
            worker: before.worker.dropped(),
            mode: Mode { open_first_pull: false, ..before.mode },
            review: None,
            replay_coverage: None,
            playback: None,
            selection: self.selection,
            ..before
        })
    }

    /// Leaves this view for another.
    pub fn leave_view(&mut self)
        ensures
            final(self).departed_from(*old(self)),
    {
        self.cancel_read();
        self.mode = Mode { open_first_pull: false, ..self.mode };
        self.review = None;
        self.replay_coverage = None;
        self.playback = None;
        self.selection.forget();
    }

    // ------------------------------------------------------------ another view of the same moment

    /// Whether this is `before` with the moment that another view asked for restored, or
    /// with the moment kept for the next view where this one does not have it.
    #[verifier::opaque]
    pub open spec fn restored_from(self, before: ReviewUi, now: u64, changed: bool) -> bool {
        match before.pending_focus {
            None => !changed && self == before,
            Some(wanted) => {
                let found = match before.review {
                    Some(review) => counterpart(review@.pulls, wanted.pull@),
                    None => None,
                };
                &&& changed
                &&& match found {
                    None => {
                        &&& text_of(self.notice) == Some("This POV does not contain the selected pull."@)
                        &&& focus_view(self.pending_focus) == focus_view(before.pending_focus)
                        &&& self == (ReviewUi {
                            notice: self.notice,
                            pending_focus: self.pending_focus,
                            ..before
                        })
                    },
                    Some(place) => exists|chosen: Pull, middle: ReviewUi, sought: ReviewUi, command: Option<
                        PlaybackCommand,
                    >|
                        {
                            &&& chosen@ == before.review->0@.pulls[place]
                            &&& #[trigger] middle.selected_from(before, chosen, now)
                            &&& #[trigger] sought.sought_from(middle, wanted.at_ms, wanted.autoplay, now, command)
                            &&& self.settled_from(sought, before, command is Some)
                        },
                }
            },
        }
    }

    /// The end of a restored moment: the video is there, or the moment waits for another view.
    pub open spec fn settled_from(self, sought: ReviewUi, before: ReviewUi, found: bool) -> bool {
        if found {
            self == (ReviewUi { notice: None, ..sought })
        } else {
            &&& text_of(self.notice) == Some("This POV does not contain the selected moment."@)
            &&& focus_view(self.pending_focus) == focus_view(before.pending_focus)
            &&& self == (ReviewUi {
                playback: None,
                notice: self.notice,
                pending_focus: self.pending_focus,
                ..sought
            })
        }
    }

    /// Shows the moment that another view asked for, where this one has it.
    pub fn restore_pov_position(&mut self, now: u64) -> (changed: bool)
        ensures
            final(self).restored_from(*old(self), now, changed),
    {
        proof {
            reveal(ReviewUi::restored_from);
        }
        let (wanted, at_ms, autoplay) = match &self.pending_focus {
            Some(focus) => (focus.pull.clone(), focus.at_ms, focus.autoplay),
            None => {
                return false;
            },
        };
        let found = match &self.review {
            Some(review) => match find_counterpart(&review.pulls, &wanted) {
                Some(i) => Some(review.pulls[i].clone()),
                None => None,
            },
            None => None,
        };
        match found {
            Some(pull) => {
                self.select(pull, now);
                let ghost middle = *self;
                let command = self.seek_absolute_with_playback(at_ms, autoplay, now);
                let ghost sought = *self;
                assert(middle.selected_from(*old(self), pull, now));
                assert(sought.sought_from(middle, at_ms, autoplay, now, command));
                if command.is_some() {
                    self.notice = None;
                    assert(self.settled_from(sought, *old(self), true));
                    return true;
                }
                self.playback = None;
                self.notice = Some(String::from_str("This POV does not contain the selected moment."));
                self.pending_focus = Some(Focus { pull: wanted, at_ms, autoplay });
                assert(self.settled_from(sought, *old(self), false));
            },
            None => {
                self.notice = Some(String::from_str("This POV does not contain the selected pull."));
                self.pending_focus = Some(Focus { pull: wanted, at_ms, autoplay });
            },
        }
        true
    }
}

/// The first pull that is the same attempt seen by another log: the same encounter and
/// difficulty, begun within three seconds.
pub open spec fn counterpart(pulls: Seq<PullView>, wanted: PullView) -> Option<int>
    decreases pulls.len(),
{
    if pulls.len() == 0 {
        None
    } else if same_attempt(pulls[0], wanted) {
        Some(0)
    } else {
        match counterpart(pulls.skip(1), wanted) {
            Some(i) => Some(i + 1),
            None => None,
        }
    }
}

pub open spec fn same_attempt(a: PullView, b: PullView) -> bool {
    a.encounter == b.encounter && a.difficulty == b.difficulty && -3000 < a.start_ms - b.start_ms < 3000
}

fn is_same_attempt(a: &Pull, b: &Pull) -> (same: bool)
    ensures
        same == same_attempt(a@, b@),
{
    let apart: i128 = a.start_ms as i128 - b.start_ms as i128;
    a.encounter == b.encounter && a.difficulty == b.difficulty && -3000 < apart && apart < 3000
}

pub fn find_counterpart(pulls: &Vec<Pull>, wanted: &Pull) -> (place: Option<usize>)
    ensures
        match place {
            Some(i) => i < pulls@.len() && counterpart(pull_views(pulls@), wanted@) == Some(i as int),
            None => counterpart(pull_views(pulls@), wanted@) is None,
        },
{
    let ghost views = pull_views(pulls@);
    let mut i: usize = 0;
    assert(views.skip(0) =~= views);
    while i < pulls.len()
        invariant
            i <= pulls.len(),
            views == pull_views(pulls@),
            counterpart(views, wanted@) == match counterpart(views.skip(i as int), wanted@) {
                Some(k) => Some(k + i),
                None => None,
            },
        decreases pulls.len() - i,
    {
        if is_same_attempt(&pulls[i], wanted) {
            return Some(i);
        }
        assert(views.skip(i as int).skip(1) =~= views.skip(i as int + 1));
        i += 1;
    }
    None
}

// ---------------------------------------------------------------- laws

/// Choosing a pull forgets the moment of any other view, starts with nothing read, and
/// plays from the pull's start.
pub proof fn choosing_starts_afresh(before: ReviewUi, after: ReviewUi, pull: Pull, now: u64)
    requires
        after.selected_from(before, pull, now),
    ensures
        after.pending_focus is None,
        after.selection.events.cleared(),
        after.playback is Some && after.playback->0.autoplay,
        after.playback->0.position == start_position(after.review->0@, pull@),
{
}

/// A jump to a moment shows exactly that moment, to the millisecond.
pub proof fn jumps_are_exact(
    before: ReviewUi,
    after: ReviewUi,
    at_ms: i64,
    autoplay: bool,
    now: u64,
    command: Option<PlaybackCommand>,
)
    requires
        after.sought_from(before, at_ms, autoplay, now, command),
        command is Some,
    ensures
        crate::raid::moment_at(after.review->0@, after.selection.pull->0@, after.playback->0.position) == at_ms,
        after.playback->0.autoplay == autoplay,
        crate::playback::plays(command->0) == autoplay,
{
    crate::raid::seek_preserves_the_millisecond(before.clocked()->0, before.selection.pull->0@, at_ms);
}

/// A moment that the recording does not hold moves nothing.
pub proof fn missing_moments_move_nothing(
    before: ReviewUi,
    after: ReviewUi,
    at_ms: i64,
    autoplay: bool,
    now: u64,
    command: Option<PlaybackCommand>,
)
    requires
        after.sought_from(before, at_ms, autoplay, now, command),
        before.target(at_ms) is None,
    ensures
        command is None,
        after.playback == before.playback && after.selection == before.selection && after.range == before.range,
{
}

/// A moment for another view is never lost: it is shown exactly, or it waits on.
pub proof fn moments_survive_switching(before: ReviewUi, after: ReviewUi, now: u64, changed: bool)
    requires
        after.restored_from(before, now, changed),
        before.pending_focus is Some,
    ensures
        focus_view(after.pending_focus) == focus_view(before.pending_focus) || {
            &&& after.pending_focus is None && after.notice is None
            &&& after.playback is Some && after.playback->0.autoplay == before.pending_focus->0.autoplay
            &&& crate::raid::moment_at(
                after.review->0@,
                after.selection.pull->0@,
                after.playback->0.position,
            ) == before.pending_focus->0.at_ms
        },
{
    reveal(ReviewUi::restored_from);
    let wanted = before.pending_focus->0;
    let found = match before.review {
        Some(review) => counterpart(review@.pulls, wanted.pull@),
        None => None,
    };
    if found is Some {
        let (chosen, middle, sought, command) = choose|
            chosen: Pull,
            middle: ReviewUi,
            sought: ReviewUi,
            command: Option<PlaybackCommand>,
        |
            {
                &&& chosen@ == before.review->0@.pulls[found->0]
                &&& #[trigger] middle.selected_from(before, chosen, now)
                &&& #[trigger] sought.sought_from(middle, wanted.at_ms, wanted.autoplay, now, command)
                &&& after.settled_from(sought, before, command is Some)
            };
        if command is Some {
            jumps_are_exact(middle, sought, wanted.at_ms, wanted.autoplay, now, command);
        }
    }
}

/// The pull of another view that takes the wanted one's place is of the same encounter and
/// difficulty and began less than three seconds from it; it is the first such pull, and none is
/// found only where there is none.
pub proof fn the_same_attempt_is_found(pulls: Seq<PullView>, wanted: PullView)
    ensures
        match counterpart(pulls, wanted) {
            Some(i) => {
                &&& 0 <= i < pulls.len()
                &&& pulls[i].encounter == wanted.encounter && pulls[i].difficulty == wanted.difficulty
                &&& pulls[i].start_ms - wanted.start_ms < 3000 && wanted.start_ms - pulls[i].start_ms < 3000
                &&& forall|j: int|
                    0 <= j < i && (#[trigger] pulls[j]).encounter == wanted.encounter && pulls[j].difficulty
                        == wanted.difficulty ==> pulls[j].start_ms - wanted.start_ms >= 3000 || wanted.start_ms
                        - pulls[j].start_ms >= 3000
            },
            None => forall|j: int|
                0 <= j < pulls.len() && (#[trigger] pulls[j]).encounter == wanted.encounter && pulls[j].difficulty
                    == wanted.difficulty ==> pulls[j].start_ms - wanted.start_ms >= 3000 || wanted.start_ms
                    - pulls[j].start_ms >= 3000,
        },
    decreases pulls.len(),
{
    if pulls.len() > 0 && !same_attempt(pulls[0], wanted) {
        let rest = pulls.skip(1);
        the_same_attempt_is_found(rest, wanted);
        assert forall|j: int| 1 <= j < pulls.len() implies rest[j - 1] == #[trigger] pulls[j] by {}
        let bound = match counterpart(pulls, wanted) {
            Some(i) => i,
            None => pulls.len() as int,
        };
        assert forall|j: int|
            0 <= j < bound && (#[trigger] pulls[j]).encounter == wanted.encounter && pulls[j].difficulty
                == wanted.difficulty implies pulls[j].start_ms - wanted.start_ms >= 3000 || wanted.start_ms
            - pulls[j].start_ms >= 3000 by {
            if j > 0 {
                assert(rest[j - 1] == pulls[j]);
            }
        }
    }
}

/// A view that takes over the wanted moment shows the same attempt: the pull that it opens is of
/// the same encounter and difficulty and began less than three seconds apart.
pub proof fn switching_opens_the_same_attempt(before: ReviewUi, after: ReviewUi, now: u64, changed: bool)
    requires
        after.restored_from(before, now, changed),
        before.pending_focus is Some,
        after.playback is Some,
        before.playback is None,
    ensures
        after.selection.pull is Some,
        after.selection.pull->0.encounter == before.pending_focus->0.pull.encounter,
        after.selection.pull->0.difficulty == before.pending_focus->0.pull.difficulty,
        after.selection.pull->0.start_ms - before.pending_focus->0.pull.start_ms < 3000,
        before.pending_focus->0.pull.start_ms - after.selection.pull->0.start_ms < 3000,
        after.playback->0.position - video_start(after.review->0@, after.selection.pull->0@) == (
        before.pending_focus->0.at_ms - after.selection.pull->0.start_ms) * 1000,
        after.playback->0.autoplay == before.pending_focus->0.autoplay,
{
    reveal(ReviewUi::restored_from);
    let wanted = before.pending_focus->0;
    let found = match before.review {
        Some(review) => counterpart(review@.pulls, wanted.pull@),
        None => None,
    };
    if before.review is Some {
        the_same_attempt_is_found(before.review->0@.pulls, wanted.pull@);
    }
    if found is Some {
        let (chosen, middle, sought, command) = choose|
            chosen: Pull,
            middle: ReviewUi,
            sought: ReviewUi,
            command: Option<PlaybackCommand>,
        |
            {
                &&& chosen@ == before.review->0@.pulls[found->0]
                &&& #[trigger] middle.selected_from(before, chosen, now)
                &&& #[trigger] sought.sought_from(middle, wanted.at_ms, wanted.autoplay, now, command)
                &&& after.settled_from(sought, before, command is Some)
            };
        assert(command is Some);
        jumps_go_where_they_are_sent(middle, sought, wanted.at_ms, wanted.autoplay, now, command);
    }
}

/// A jump sends the player as far past the pull's start in the video as the moment lies past it
/// in the encounter, and plays or pauses as asked; nothing else of the review changes but the
/// clock that is used and what was seen of the provider.
pub proof fn jumps_go_where_they_are_sent(
    before: ReviewUi,
    after: ReviewUi,
    at_ms: i64,
    autoplay: bool,
    now: u64,
    command: Option<PlaybackCommand>,
)
    requires
        after.sought_from(before, at_ms, autoplay, now, command),
    ensures
        after.selection == before.selection && after.worker == before.worker && after.mode == before.mode,
        after.pending_focus == before.pending_focus && after.notice == before.notice && after.marker == before.marker,
        command is None ==> after.playback == before.playback && after.range == before.range,
        command is Some ==> {
            let position = after.playback->0.position;
            &&& after.playback is Some && after.review is Some && after.selection.pull is Some
            &&& command->0 == if autoplay { PlaybackCommand::Seek(position) } else { PlaybackCommand::SeekPaused(position) }
            &&& after.playback->0.autoplay == autoplay
            &&& after.playback->0.broadcast_id@ == before.playback->0.broadcast_id@
            &&& position - video_start(after.review->0@, after.selection.pull->0@) == (at_ms
                - after.selection.pull->0.start_ms) * 1000
            &&& 0 <= position < after.review->0.replay.available_seconds * 1_000_000
            &&& after.playback->0.public_second == position / 1_000_000
            &&& after.range.epoch == now && !after.range.pause_sent && after.range.observation is None
                && !after.range.seek_pending && after.range.timeline_position is None
        },
{
}

/// A jump to a moment that the recording holds is always made.
pub proof fn held_moments_can_be_jumped_to(
    before: ReviewUi,
    after: ReviewUi,
    at_ms: i64,
    autoplay: bool,
    now: u64,
    command: Option<PlaybackCommand>,
)
    requires
        after.sought_from(before, at_ms, autoplay, now, command),
        before.playback is Some && before.review is Some && before.selection.pull is Some,
        ({
            let start = video_start(after.review->0@, before.selection.pull->0@);
            let position = start + (at_ms - before.selection.pull->0.start_ms) * 1000;
            0 <= position < before.review->0.replay.available_seconds * 1_000_000 && position <= i64::MAX
        }),
    ensures
        command is Some,
{
}

/// Choosing a pull plays it from its start, or from the recording's where the pull began before
/// it, in the recording that is loaded; what was read of another pull is forgotten, and what
/// the provider was seen to do before does not count.
pub proof fn chosen_pulls_play_from_their_start(before: ReviewUi, after: ReviewUi, pull: Pull, now: u64)
    requires
        after.selected_from(before, pull, now),
    ensures
        after.selection.pull == Some(pull),
        after.playback is Some && after.review is Some,
        ({
            let start = video_start(after.review->0@, pull@);
            after.playback->0.position == if start >= 0 { start } else { 0 }
        }),
        after.playback->0.autoplay,
        after.playback->0.broadcast_id@ == before.review->0.replay.broadcast_id@,
        after.selection.events.events@.len() == 0 && after.selection.selected_event is None && after.selection.scrub
            is None,
        after.range.epoch == now && !after.range.pause_sent && after.range.observation is None
            && !after.range.seek_pending,
        !after.marker.busy && after.marker.intent is None,
        after.mode == before.mode && after.notice == before.notice && after.cooldowns == before.cooldowns && after.list
            == before.list && after.key == before.key,
        after.review->0@.pulls == before.review->0@.pulls && after.review->0@.replay == before.review->0@.replay,
{
}

/// Leaving a review stops it and forgets its pull, but not what was read of the recording;
/// leaving a view for another forgets the recording and keeps the review open, with the moment
/// that waits.
pub proof fn leaving_keeps_the_right_things(before: ReviewUi, closed: ReviewUi, departed: ReviewUi)
    requires
        closed.closed_from(before),
        departed.departed_from(before),
    ensures
        !closed.mode.active && closed.playback is None && closed.selection.pull is None && closed.pending_focus is None,
        closed.review == before.review && closed.replay_coverage == before.replay_coverage && closed.marker_cache
            == before.marker_cache,
        departed.mode.active == before.mode.active && departed.playback is None && departed.selection.pull is None,
        departed.review is None && departed.replay_coverage is None && departed.pending_focus == before.pending_focus,
        closed.selection.events.events@.len() == 0 && departed.selection.events.events@.len() == 0,
        !closed.mode.open_first_pull && !departed.mode.open_first_pull,
{
}

/// A moment that this view cannot show waits for another one, with a word of why; nothing plays
/// meanwhile but what played before.
pub proof fn moments_that_cannot_be_shown_wait(before: ReviewUi, after: ReviewUi, now: u64, changed: bool)
    requires
        after.restored_from(before, now, changed),
        before.pending_focus is Some,
    ensures
        changed,
        before.review is None || counterpart(before.review->0@.pulls, before.pending_focus->0.pull@) is None ==> {
            &&& text_of(after.notice) == Some("This POV does not contain the selected pull."@)
            &&& focus_view(after.pending_focus) == focus_view(before.pending_focus)
            &&& after.playback == before.playback && after.selection == before.selection && after.worker == before.worker
        },
        before.review is Some && counterpart(before.review->0@.pulls, before.pending_focus->0.pull@) is Some ==> {
            ||| after.playback is Some && after.pending_focus is None && after.notice is None
            ||| {
                &&& after.playback is None
                &&& text_of(after.notice) == Some("This POV does not contain the selected moment."@)
                &&& focus_view(after.pending_focus) == focus_view(before.pending_focus)
            }
        },
        before.review is Some && counterpart(before.review->0@.pulls, before.pending_focus->0.pull@) is Some ==> {
            let pull = before.review->0@.pulls[counterpart(before.review->0@.pulls, before.pending_focus->0.pull@)->0];
            let start = video_start(after.review->0@, pull);
            let position = start + (before.pending_focus->0.at_ms - pull.start_ms) * 1000;
            &&& after.selection.pull is Some && after.selection.pull->0@ == pull
            &&& (after.playback is Some <==> 0 <= position && position < before.review->0.replay.available_seconds
                * 1_000_000 && position <= i64::MAX)
        },
{
    reveal(ReviewUi::restored_from);
    let wanted = before.pending_focus->0;
    let found = match before.review {
        Some(review) => counterpart(review@.pulls, wanted.pull@),
        None => None,
    };
    if found is Some {
        let (chosen, middle, sought, command) = choose|
            chosen: Pull,
            middle: ReviewUi,
            sought: ReviewUi,
            command: Option<PlaybackCommand>,
        |
            {
                &&& chosen@ == before.review->0@.pulls[found->0]
                &&& #[trigger] middle.selected_from(before, chosen, now)
                &&& #[trigger] sought.sought_from(middle, wanted.at_ms, wanted.autoplay, now, command)
                &&& after.settled_from(sought, before, command is Some)
            };
        jumps_go_where_they_are_sent(middle, sought, wanted.at_ms, wanted.autoplay, now, command);
    }
}

/// A clock that was found for the very pull in the very recording is used from the next choice of
/// the pull or jump in it.
pub proof fn found_clocks_count_from_the_next_move(
    before: ReviewUi,
    chosen: ReviewUi,
    sought: ReviewUi,
    pull: Pull,
    at_ms: i64,
    autoplay: bool,
    now: u64,
    command: Option<PlaybackCommand>,
)
    requires
        chosen.selected_from(before, pull, now),
        sought.sought_from(chosen, at_ms, autoplay, now, command),
    ensures
        ({
            let key = crate::raid::marker_key(before.review->0@.replay, pull@);
            let clocks = before.marker_cache@;
            &&& clocks.dom().contains(key) ==> video_start(chosen.review->0@, pull@) == clocks[key].video && video_start(
                sought.review->0@,
                pull@,
            ) == clocks[key].video
            &&& !clocks.dom().contains(key) ==> video_start(chosen.review->0@, pull@) == video_start(
                before.review->0@,
                pull@,
            )
        }),
{
}

/// The player is sent to the start of the pull that was navigated to; with no recording nothing is
/// chosen.
pub proof fn navigation_sends_the_player(
    before: ReviewUi,
    after: ReviewUi,
    pull: Pull,
    now: u64,
    command: Option<PlaybackCommand>,
)
    requires
        after.navigated_from(before, pull, now, command),
    ensures
        before.review is Some ==> {
            &&& after.selection.pull == Some(pull) && after.playback is Some && command == Some(
                PlaybackCommand::Seek(after.playback->0.position),
            )
            &&& video_start(after.review->0@, pull@) >= 0 ==> command == Some(
                PlaybackCommand::Seek(video_start(after.review->0@, pull@)),
            )
        },
        before.review is None ==> after.selection == before.selection && after.playback == before.playback
            && after.worker == before.worker,
{
}

/// An event is highlighted exactly where the video goes to its moment.
pub proof fn watched_events_are_highlighted(
    before: ReviewUi,
    after: ReviewUi,
    at_ms: i64,
    actor: String,
    now: u64,
    command: Option<PlaybackCommand>,
)
    requires
        after.watched_from(before, at_ms, actor, now, command),
    ensures
        command is Some ==> {
            &&& after.selection.selected_event is Some && after.selection.selected_event->0.at_ms == at_ms
                && after.selection.selected_event->0.actor == actor
            &&& command == Some(PlaybackCommand::Seek(after.playback->0.position))
            &&& after.playback->0.position - video_start(after.review->0@, before.selection.pull->0@) == (at_ms
                - before.selection.pull->0.start_ms) * 1000
        },
        command is None ==> after.selection == before.selection && after.playback == before.playback,
        after.selection.pull == before.selection.pull && after.selection.events == before.selection.events,
{
}

/// A recording that is opened is read at once, with its first pull to come; what was read, chosen
/// or waited for before is forgotten.
pub proof fn opened_recordings_start_afresh(before: ReviewUi, after: ReviewUi, now: u64)
    requires
        after.entered_from(before),
    ensures
        after.mode.active && after.mode.open_first_pull && !after.mode.popup_open,
        after.mode.connected == before.mode.connected && after.mode.comparing == before.mode.comparing,
        after.refresh_due(now),
        after.review is None && after.playback is None && after.selection.pull is None && after.pending_focus is None
            && after.notice is None && after.replay_coverage is None && !after.aligning,
        after.selection.events.events@.len() == 0,
        before.worker.reading() ==> after.worker.cancelled && after.worker.generation != before.worker.generation,
        after.key == before.key && after.cooldowns == before.cooldowns && after.marker_cache == before.marker_cache,
{
}

/// A review that is opened at its first pull plays it and is shown.
pub proof fn reviews_begin_with_their_first_pull(before: ReviewUi, after: ReviewUi, first: Pull, now: u64)
    requires
        after.begun_from(before, first, now),
    ensures
        after.mode.active && after.selection.pull == Some(first) && after.playback is Some && after.playback->0.autoplay,
        after.mode.comparing == before.mode.comparing && after.mode.connected == before.mode.connected,
{
}

} // verus!
