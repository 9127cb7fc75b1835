//! One frame of the workspace: the pull that is chosen, the views that can be, and what is
//! left behind. And the words beside the pictures.
use crate::address::text_of;
use crate::cooldowns::Preferences;
use crate::playback::{PlaybackCommand, PlaybackState};
use crate::raid::{find_pull, lemma_place, narrow, to_i64, EventKind, Pull, RaidEvent, Stream};
use crate::raid_text::{clock, clock_text, description, event_description, relative_clock, relative_text};
use crate::review_menus::{pull_step, step_place};
use crate::review_state::{Cooldowns, PullEvents, ReviewUi, Selection};
use crate::review_timeline::{highlights, is_highlighted, Timeline};
use crate::text::{begins, decimal, decimal_text};
use vstd::prelude::*;

verus! {

// ---------------------------------------------------------------- pulls

impl ReviewUi {
    /// Where the chosen pull stands among those of the recording.
    pub open spec fn current_place(self) -> Option<int> {
        if self.review is Some { self.chosen_place(self.review->0@) } else { None }
    }

    pub fn current_pull(&self) -> (place: Option<usize>)
        ensures
            match place {
                Some(i) => self.current_place() == Some(i as int) && i < self.pull_count(),
                None => self.current_place() is None,
            },
    {
        match (&self.selection.pull, &self.review) {
            (Some(pull), Some(review)) => find_pull(&review.pulls, pull),
            _ => None,
        }
    }

    pub open spec fn pull_count(self) -> nat {
        if self.review is Some { self.review->0.pulls@.len() } else { 0 }
    }

    /// The pull that a step or a choice of this frame leads to.
    pub open spec fn step_target(self, previous: bool, next: bool, chosen: Option<usize>) -> Option<usize> {
        let current = match self.current_place() {
            Some(place) => Some(place as usize),
            None => None,
        };
        step_place(current, self.pull_count(), previous, next, chosen)
    }

    /// Whether this is `before` with the pull at `place` chosen, and `command` takes the
    /// player there.
    pub open spec fn stepped_from(self, before: ReviewUi, place: usize, now: u64, command: Option<PlaybackCommand>) -> bool {
        exists|pull: Pull|
            {
                &&& pull@ == before.review->0.pulls@[place as int]@
                &&& #[trigger] self.selected_from(before, pull, now)
                &&& command == match self.playback {
                    Some(playback) => Some(PlaybackCommand::Seek(playback.position)),
                    None => None,
                }
            }
    }

    /// Whether this is `before` after a step or a choice, with the command made of it.
    pub open spec fn moved_from(
        self,
        before: ReviewUi,
        previous: bool,
        next: bool,
        chosen: Option<usize>,
        now: u64,
        command: Option<PlaybackCommand>,
    ) -> bool {
        match before.step_target(previous, next, chosen) {
            Some(place) => self.stepped_from(before, place, now, command),
            None => command is None && self == before,
        }
    }

    /// Goes to a neighbouring pull, or to one chosen in the menu. The present one is not
    /// opened again.
    pub fn step_pull(&mut self, previous: bool, next: bool, chosen: Option<usize>, now: u64) -> (command: Option<
        PlaybackCommand,
    >)
        ensures
            final(self).moved_from(*old(self), previous, next, chosen, now, command),
    {
        let current = self.current_pull();
        let pull = match &self.review {
            Some(review) => match pull_step(current, review.pulls.len(), previous, next, chosen) {
                Some(place) => review.pulls[place].clone(),
                None => {
                    return None;
                },
            },
            None => {
                return None;
            },
        };
        let command = self.navigate_pull(pull, now);
        assert(self.selected_from(*old(self), pull, now));
        command
    }

    // ------------------------------------------------------------ views

    /// The moment that a view must show to be offered: where this frame gave no command, a
    /// comparison's own position counts before this view's.
    pub open spec fn moment_to_cover(
        self,
        state: PlaybackState,
        now: u64,
        commanded: bool,
        peer: Option<i64>,
    ) -> Option<(Pull, i64)> {
        match self.wanted_moment(state, now) {
            Some((pull, at_ms)) => Some((pull, if !commanded && peer is Some { peer->0 } else { at_ms })),
            None => None,
        }
    }

    pub open spec fn offers_view(self, candidate: Stream, moment: Option<(Pull, i64)>) -> bool {
        moment is Some && self.view_covers(candidate, (moment->0).0@, (moment->0).1)
    }

    /// Which views can show the moment. None can where no moment is known.
    pub fn covered_views(
        &self,
        povs: &Vec<Stream>,
        state: &PlaybackState,
        now: u64,
        commanded: bool,
        peer: Option<i64>,
    ) -> (covered: Vec<bool>)
        ensures
            covered@.len() == povs@.len(),
            forall|i: int|
                0 <= i < povs@.len() ==> #[trigger] covered@[i] == self.offers_view(
                    povs@[i],
                    self.moment_to_cover(*state, now, commanded, peer),
                ),
    {
        let context = self.pov_selection_context(state, now);
        let ghost moment = self.moment_to_cover(*state, now, commanded, peer);
        let mut covered: Vec<bool> = Vec::new();
        let mut i: usize = 0;
        while i < povs.len()
            invariant
                i <= povs@.len(),
                covered@.len() == i,
                match context {
                    Some((pull, at_ms)) => moment == Some(
                        (*pull, if !commanded && peer is Some { peer->0 } else { at_ms }),
                    ),
                    None => moment is None,
                },
                forall|j: int| 0 <= j < i ==> #[trigger] covered@[j] == self.offers_view(povs@[j], moment),
            decreases povs.len() - i,
        {
            let shown = match context {
                Some((pull, own)) => {
                    let at_ms: i64 = match peer {
                        Some(at) => if commanded {
                            own
                        } else {
                            at
                        },
                        None => own,
                    };
                    self.pov_covers_moment(&povs[i], pull, at_ms)
                },
                None => false,
            };
            covered.push(shown);
            i += 1;
        }
        covered
    }

    // ------------------------------------------------------------ the end of a frame

    /// What can be saved now.
    pub open spec fn save_due(self) -> Option<Preferences> {
        if self.worker.running { None } else { self.cooldowns.save }
    }

    /// The review once that was handed out.
    pub open spec fn save_taken(self) -> ReviewUi {
        if self.worker.running {
            self
        } else {
            ReviewUi { cooldowns: Cooldowns { save: None, ..self.cooldowns }, ..self }
        }
    }

    /// Hands out the preferences to save, as soon as the worker rests.
    pub fn take_save(&mut self) -> (save: Option<Preferences>)
        ensures
            save == old(self).save_due(),
            *final(self) == old(self).save_taken(),
    {
        if self.worker.running {
            None
        } else {
            self.cooldowns.save.take()
        }
    }

    pub open spec fn view_kept_or_left(self, before: ReviewUi, switched: bool) -> bool {
        if switched { self.departed_from(before) } else { self == before }
    }

    pub open spec fn kept_or_closed(self, before: ReviewUi, left: bool) -> bool {
        if left { self.closed_from(before) } else { self == before }
    }

    /// Whether this is `before` after a frame in which another view was chosen, the review
    /// was left, or a command was given.
    pub open spec fn framed_from(
        self,
        before: ReviewUi,
        switched: bool,
        left: bool,
        command: Option<PlaybackCommand>,
    ) -> bool {
        exists|departed: ReviewUi, closed: ReviewUi|
            {
                &&& #[trigger] departed.view_kept_or_left(before, switched)
                &&& #[trigger] closed.kept_or_closed(departed, left)
                &&& self == match command {
                    Some(command) => closed.commanded(command),
                    None => closed,
                }
            }
    }

    /// Ends a frame. Leaving, and signing out of the logs, close the review; whether they did.
    pub fn end_frame(&mut self, switched: bool, leave: bool, disconnect: bool, command: Option<PlaybackCommand>) -> (left:
        bool)
        ensures
            left == (leave || disconnect),
            final(self).framed_from(*old(self), switched, left, command),
    {
        if switched {
            self.leave_view();
        }
        let ghost departed = *self;
        let left = leave || disconnect;
        if left {
            self.close_review();
        }
        let ghost closed = *self;
        if let Some(command) = command {
            self.command_given(command);
        }
        assert(departed.view_kept_or_left(*old(self), switched));
        assert(closed.kept_or_closed(departed, left));
        left
    }

    pub open spec fn unscrolled(self) -> ReviewUi {
        ReviewUi { selection: Selection { scroll_to_event: false, ..self.selection }, ..self }
    }

    /// Whether this is the row to bring into view, where one has to be.
    pub open spec fn scrolls_to(self, rows: Seq<usize>, row: Option<usize>) -> bool {
        match row {
            Some(i) => {
                &&& self.selection.scroll_to_event && i < rows.len()
                &&& self.row_highlighted(rows, i as int)
                &&& forall|j: int| 0 <= j < i ==> !#[trigger] self.row_highlighted(rows, j)
            },
            None => self.selection.scroll_to_event ==> forall|j: int|
                0 <= j < rows.len() ==> !#[trigger] self.row_highlighted(rows, j),
        }
    }

    /// Whether the chosen event has to be brought into view, and its row in the list. It is
    /// asked once.
    pub fn take_scroll(&mut self, rows: &Vec<usize>) -> (row: Option<usize>)
        requires
            forall|i: int| 0 <= i < rows@.len() ==> #[trigger] rows@[i] < old(self).selection.events.events@.len(),
        ensures
            *final(self) == old(self).unscrolled(),
            old(self).scrolls_to(rows@, row),
    {
        let asked = self.selection.scroll_to_event;
        self.selection.scroll_to_event = false;
        if !asked {
            return None;
        }
        let mut i: usize = 0;
        while i < rows.len()
            invariant
                i <= rows@.len(),
                old(self).selection.scroll_to_event,
                *self == (ReviewUi {
                    selection: Selection { scroll_to_event: false, ..old(self).selection },
                    ..*old(self)
                }),
                forall|k: int| 0 <= k < rows@.len() ==> #[trigger] rows@[k] < self.selection.events.events@.len(),
                forall|j: int| 0 <= j < i ==> !#[trigger] old(self).row_highlighted(rows@, j),
            decreases rows.len() - i,
        {
            if is_highlighted(&self.selection.selected_event, &self.selection.events.events[rows[i]]) {
                return Some(i);
            }
            i += 1;
        }
        None
    }

    pub open spec fn row_highlighted(self, rows: Seq<usize>, i: int) -> bool {
        highlights(self.selection.selected_event, self.selection.events.events@[rows[i] as int])
    }
}

// ---------------------------------------------------------------- words

/// Where leaving the review leads.
pub fn back_label(stream: &Stream) -> (label: &'static str)
    ensures
        label@ == if stream.recording_id is Some { "Back to VODs"@ } else { "Back to streams"@ },
{
    if stream.recording_id.is_some() { "Back to VODs" } else { "Back to streams" }
}

/// The button that opens the review.
pub fn review_label(count: usize) -> (label: String)
    ensures
        label@ == "Review raid · "@ + decimal(count as nat) + " pulls"@,
{
    String::from_str("Review raid · ").concat(&decimal_text(count as u64)).concat(" pulls")
}

impl Timeline {
    /// The words on the transport's button.
    pub open spec fn button_text(self) -> Seq<char> {
        if self.replay { "Replay"@ } else if self.playing { "Pause"@ } else { "Play"@ }
    }

    /// The words on the transport's button.
    pub fn button(&self) -> (label: &'static str)
        ensures
            label@ == self.button_text(),
    {
        if self.replay {
            "Replay"
        } else if self.playing {
            "Pause"
        } else {
            "Play"
        }
    }

    /// How far into the pull the video is, of how long; a held handle counts first.
    pub fn position_label(&self, scrub: Option<i64>) -> (label: String)
        ensures
            label@ == (match scrub {
                Some(elapsed) => relative_text(elapsed),
                None => if self.display is Some { relative_text(self.elapsed) } else { "–:––"@ },
            }) + " / "@ + clock_text(self.duration as int),
    {
        let position = match scrub {
            Some(elapsed) => relative_clock(elapsed),
            None => if self.display.is_some() {
                relative_clock(self.elapsed)
            } else {
                String::from_str("–:––")
            },
        };
        position.concat(" / ").concat(&clock(self.duration))
    }
}

/// How far into the pull an event happened, in microseconds; at its start where no pull is
/// chosen.
pub open spec fn offset_of(event: RaidEvent, pull: Option<Pull>) -> i64 {
    match pull {
        Some(pull) => to_i64((event.at_ms - pull.start_ms) * 1000),
        None => 0,
    }
}

pub fn event_offset(event: &RaidEvent, pull: &Option<Pull>) -> (offset: i64)
    ensures
        offset == offset_of(*event, *pull),
{
    match pull {
        Some(pull) => narrow((event.at_ms as i128 - pull.start_ms as i128) * 1000),
        None => 0,
    }
}

/// What a screen reader says of a row of the list.
pub fn event_row_label(event: &RaidEvent, pull: &Option<Pull>) -> (label: String)
    ensures
        label@ == description(*event) + " at "@ + clock_text(offset_of(*event, *pull) as int) + ". Watch this moment"@,
{
    event_description(event).concat(" at ").concat(&clock(event_offset(event, pull))).concat(". Watch this moment")
}

/// What a row of the list says when pointed at.
pub fn event_row_hint(event: &RaidEvent, pull: &Option<Pull>) -> (hint: String)
    ensures
        hint@ == clock_text(offset_of(*event, *pull) as int) + " · "@ + description(*event)
            + "\nClick to watch this moment"@,
{
    clock(event_offset(event, pull)).concat(" · ").concat(&event_description(event)).concat(
        "\nClick to watch this moment",
    )
}

/// What a screen reader says of a marker for this many events.
pub fn marker_label(event: &RaidEvent, pull: &Option<Pull>, count: usize) -> (label: String)
    ensures
        label@ == description(*event) + " at "@ + clock_text(offset_of(*event, *pull) as int) + ". "@ + decimal(count as nat)
            + " events. Watch this moment"@,
{
    event_description(event).concat(" at ").concat(&clock(event_offset(event, pull))).concat(". ").concat(
        &decimal_text(count as u64),
    ).concat(" events. Watch this moment")
}

/// One line of what a marker says when pointed at.
pub fn marker_line(event: &RaidEvent, pull: &Option<Pull>) -> (line: String)
    ensures
        line@ == clock_text(offset_of(*event, *pull) as int) + "  "@ + description(*event),
{
    clock(event_offset(event, pull)).concat("  ").concat(&event_description(event))
}

/// How many events a marker lists one by one.
pub const LISTED_EVENTS: usize = 12;

/// What a marker says of the events that it does not list.
pub open spec fn more_text(count: nat) -> Option<Seq<char>> {
    if count > LISTED_EVENTS {
        Some(decimal((count - LISTED_EVENTS) as nat) + " more events"@)
    } else {
        None
    }
}

/// What a marker says of the events that it does not list.
pub fn more_events(count: usize) -> (text: Option<String>)
    ensures
        text_of(text) == more_text(count as nat),
{
    if count > LISTED_EVENTS {
        Some(decimal_text((count - LISTED_EVENTS) as u64).concat(" more events"))
    } else {
        None
    }
}

/// What the list says of the events of a kind, besides its rows.
#[derive(Clone, Copy, Debug, PartialEq, Eq, Structural)]
pub struct ListNotice {
    /// They could not be read; the failure has the words.
    pub failed: bool,
    pub loading: bool,
    pub no_matches: bool,
}

impl PullEvents {
    /// What the list of one kind says besides this many rows.
    pub open spec fn noticed(self, kind: EventKind, rows: nat) -> ListNotice {
        ListNotice {
            failed: self.failures.of(kind) is Some,
            loading: self.failures.of(kind) is None && !self.loaded.has(kind),
            no_matches: self.loaded.has(kind) && rows == 0,
        }
    }

    /// What is being read is not missing: only events that were read can match or not.
    pub fn list_notice(&self, kind: EventKind, rows: usize) -> (notice: ListNotice)
        ensures
            notice == self.noticed(kind, rows as nat),
    {
        let failed = self.failures.get(kind).is_some();
        let loaded = self.loaded.contains(kind);
        ListNotice { failed, loading: !failed && !loaded, no_matches: loaded && rows == 0 }
    }

    pub open spec fn lane_empty(self, deaths: bool, markers: nat) -> bool {
        markers == 0 && self.loaded.has(if deaths { EventKind::Deaths } else { EventKind::Defensives })
    }

    /// Whether a lane without markers says that nothing was recorded.
    pub fn lane_is_empty(&self, deaths: bool, markers: usize) -> (empty: bool)
        ensures
            empty == self.lane_empty(deaths, markers as nat),
    {
        markers == 0 && self.loaded.contains(if deaths { EventKind::Deaths } else { EventKind::Defensives })
    }
}

// ---------------------------------------------------------------- laws

/// Choosing the present pull again, or stepping past an end, does nothing: every other
/// choice leads inside the recording and away from the present pull.
pub proof fn steps_lead_to_other_pulls(ui: ReviewUi, previous: bool, next: bool, chosen: Option<usize>)
    ensures
        match ui.step_target(previous, next, chosen) {
            Some(place) => place < ui.pull_count() && ui.current_place() != Some(place as int),
            None => true,
        },
        chosen is Some && ui.current_place() == Some(chosen->0 as int) && !next ==> ui.step_target(
            previous,
            next,
            chosen,
        ) is None,
{
    if ui.current_place() is Some {
        lemma_place(ui.review->0@.pulls, ui.selection.pull->0@);
    }
}

/// Leaving the review, whatever else the frame did, leaves no pull, no playback and no moment
/// for another view behind.
pub proof fn leaving_forgets_the_pull(
    before: ReviewUi,
    after: ReviewUi,
    switched: bool,
    command: Option<PlaybackCommand>,
)
    requires
        after.framed_from(before, switched, true, command),
    ensures
        after.selection.pull is None,
        after.playback is None,
        after.pending_focus is None,
        !after.mode.active,
{
}

/// A step that leads to a pull chooses it and sends the player to its start; any other changes
/// nothing. Forward and backward lead to the neighbours.
pub proof fn steps_open_the_neighbour(
    before: ReviewUi,
    after: ReviewUi,
    previous: bool,
    next: bool,
    chosen: Option<usize>,
    now: u64,
    command: Option<PlaybackCommand>,
    place: int,
)
    requires
        after.moved_from(before, previous, next, chosen, now, command),
        before.review is Some && before.selection.pull is Some,
        before.current_place() == Some(place),
    ensures
        next && place + 1 < before.pull_count() ==> after.selection.pull is Some && after.selection.pull->0@
            == before.review->0@.pulls[place + 1] && command is Some,
        previous && !next && chosen is None && place > 0 ==> after.selection.pull is Some && after.selection.pull->0@
            == before.review->0@.pulls[place - 1] && command is Some,
        !previous && !next && chosen is None ==> command is None && after == before,
        !next && chosen is Some && chosen->0 < before.pull_count() && chosen->0 != place ==> after.selection.pull is Some
            && after.selection.pull->0@ == before.review->0@.pulls[chosen->0 as int] && command is Some,
        command is Some ==> after.playback is Some && command == Some(PlaybackCommand::Seek(after.playback->0.position))
            && after.playback->0.autoplay && after.range.epoch == now,
        command is None ==> after == before,
{
    lemma_place(before.review->0@.pulls, before.selection.pull->0@);
    assert(before.review->0.pulls.len() == before.review->0.pulls@.len());
    if before.step_target(previous, next, chosen) is Some {
        let target = before.step_target(previous, next, chosen)->0;
        assert(target < before.pull_count());
        assert(before.review->0@.pulls[target as int] == before.review->0.pulls@[target as int]@);
    }
}

/// A view is offered exactly where it covers the moment that is wanted: a comparison's own where no
/// command was given, and otherwise this view's. With no moment none is offered.
pub proof fn offered_views_cover_the_moment(
    ui: ReviewUi,
    candidate: Stream,
    state: PlaybackState,
    now: u64,
    commanded: bool,
    peer: Option<i64>,
)
    ensures
        match ui.wanted_moment(state, now) {
            None => !ui.offers_view(candidate, ui.moment_to_cover(state, now, commanded, peer)),
            Some((pull, at_ms)) => {
                &&& commanded || peer is None ==> ui.offers_view(
                    candidate,
                    ui.moment_to_cover(state, now, commanded, peer),
                ) == ui.view_covers(candidate, pull@, at_ms)
                &&& !commanded && peer is Some ==> ui.offers_view(
                    candidate,
                    ui.moment_to_cover(state, now, commanded, peer),
                ) == ui.view_covers(candidate, pull@, peer->0)
            },
        },
{
}

/// Preferences to save are handed out once, as soon as the worker rests.
pub proof fn saves_are_handed_out_once(ui: ReviewUi)
    ensures
        ui.worker.running ==> ui.save_due() is None && ui.save_taken() == ui,
        !ui.worker.running ==> ui.save_due() == ui.cooldowns.save && ui.save_taken().save_due() is None
            && ui.save_taken().cooldowns.save is None,
        ui.save_taken().cooldowns.current == ui.cooldowns.current && ui.save_taken().cooldowns.editor
            == ui.cooldowns.editor && ui.save_taken().playback == ui.playback,
{
}

/// A frame in which another view was chosen leaves nothing of the recording; one with only a command
/// keeps everything but whether to play; one with nothing changes nothing.
pub proof fn frames_end_as_they_should(
    before: ReviewUi,
    after: ReviewUi,
    switched: bool,
    left: bool,
    command: Option<PlaybackCommand>,
)
    requires
        after.framed_from(before, switched, left, command),
    ensures
        !switched && !left && command is None ==> after == before,
        !switched && !left && command is Some ==> after.selection == before.selection && after.review == before.review
            && after.mode == before.mode && after.pending_focus == before.pending_focus,
        !switched && !left && before.playback is Some && command is Some ==> after.playback is Some
            && after.playback->0.autoplay == crate::playback::plays(command->0) && after.playback->0.position
            == before.playback->0.position,
        switched ==> after.review is None && after.playback is None && after.selection.pull is None,
        switched && !left ==> after.mode.active == before.mode.active && after.pending_focus == before.pending_focus,
        left && !switched ==> after.review == before.review,
        left ==> !after.mode.active && after.playback is None,
{
}

/// The list of a kind says that it failed, that it loads, or that it was read; only where it was
/// read can nothing match, and only then is an empty lane said to be empty.
pub proof fn lists_say_what_is_known(events: PullEvents, kind: EventKind, rows: nat)
    ensures
        events.noticed(kind, rows).failed <==> events.failures.of(kind) is Some,
        events.noticed(kind, rows).loading ==> !events.noticed(kind, rows).failed && !events.noticed(kind, rows).no_matches,
        !events.noticed(kind, rows).failed && !events.noticed(kind, rows).loading ==> events.loaded.has(kind),
        events.noticed(kind, rows).no_matches <==> events.loaded.has(kind) && rows == 0,
        events.lane_empty(true, rows) <==> events.loaded.deaths && rows == 0,
        events.lane_empty(false, rows) <==> events.loaded.defensives && rows == 0,
{
}

/// An event is as far into its pull as it happened after the pull's start.
pub proof fn events_are_offset_from_the_start(event: RaidEvent, pull: Pull)
    requires
        i64::MIN <= (event.at_ms - pull.start_ms) * 1000 <= i64::MAX,
    ensures
        offset_of(event, Some(pull)) == (event.at_ms - pull.start_ms) * 1000,
        event.at_ms == pull.start_ms ==> offset_of(event, Some(pull)) == 0,
        offset_of(event, None) == 0,
{
}

/// Up to twelve events are listed one by one; of more, the number of the others is told.
pub proof fn twelve_events_are_listed(count: nat)
    ensures
        more_text(count) is Some <==> count > 12,
        count > 12 ==> begins(more_text(count)->0, decimal((count - 12) as nat)),
{
    if count > 12 {
        let front = decimal((count - 12) as nat);
        assert(more_text(count)->0.take(front.len() as int) =~= front);
    }
}

/// The button tells what it does: it plays again, pauses or plays.
pub proof fn buttons_tell_what_they_do(
    before: ReviewUi,
    after: ReviewUi,
    timeline: Timeline,
    now: u64,
    command: Option<PlaybackCommand>,
)
    requires
        after.pressed_from(before, timeline, now, command),
        before.selection.pull is Some,
    ensures
        timeline.button_text() == "Pause"@ ==> command == Some(PlaybackCommand::Pause),
        timeline.button_text() == "Play"@ ==> command == Some(PlaybackCommand::Play),
        timeline.button_text() == "Replay"@ <==> timeline.replay,
{
    reveal_strlit("Replay");
    reveal_strlit("Pause");
    reveal_strlit("Play");
    assert("Replay"@.len() == 6 && "Pause"@.len() == 5 && "Play"@.len() == 4);
}

/// The first row of the highlighted event is brought into view, once, and only where that was asked.
pub proof fn highlighted_rows_come_into_view(ui: ReviewUi, rows: Seq<usize>, row: Option<usize>, again: Option<usize>, i: int)
    requires
        ui.scrolls_to(rows, row),
        ui.unscrolled().scrolls_to(rows, again),
        0 <= i < rows.len(),
    ensures
        again is None,
        row is Some ==> ui.selection.scroll_to_event && highlights(
            ui.selection.selected_event,
            ui.selection.events.events@[rows[row->0 as int] as int],
        ),
        ui.selection.scroll_to_event && highlights(
            ui.selection.selected_event,
            ui.selection.events.events@[rows[i] as int],
        ) ==> row is Some && row->0 <= i,
        ui.unscrolled().selection.selected_event == ui.selection.selected_event && ui.unscrolled().selection.events
            == ui.selection.events,
{
    assert(ui.row_highlighted(rows, i) == highlights(
        ui.selection.selected_event,
        ui.selection.events.events@[rows[i] as int],
    ));
}

} // verus!
