//! The buttons and words around the video, and the choices about tracked spells.
use crate::address::text_of;
use crate::cooldown_editor::{indexed, CooldownEditor};
use crate::cooldowns::hidden_with;
use crate::playback::{plays, PlaybackCommand};
use crate::raid::{alignment_of, pull_view, Alignment, DefensiveGroup, EventKind, Pull, PullView, Status, Stream};
use crate::raid_text::{pov_key, pov_key_text};
use crate::review_state::{Action, Cooldowns, MarkerSync, Playback, PullEvents, Range, ReviewUi, Selection};
use crate::text::same_text;
use vstd::prelude::*;

verus! {

/// What the control of the log service's account shows.
#[derive(Clone, Copy, Debug, PartialEq, Eq, Structural)]
pub enum ConnectionControl {
    SigningIn,
    Loading,
    /// A button to connect, and whether it can be pressed.
    Connect(bool),
    Connected,
}

/// What the search for a marker is asked.
#[derive(Clone, Copy, Debug, PartialEq, Eq, Structural)]
pub struct MarkerRequest {
    pub estimate: i64,
    pub elapsed: i128,
    pub autoplay: bool,
    pub aligned: bool,
}

impl ReviewUi {
    // ------------------------------------------------------------ words

    /// What stands where the video will be.
    pub open spec fn placeholder_text(self) -> Seq<char> {
        if self.playback is Some {
            "Opening replay…"@
        } else if self.pending_focus is Some && self.review is Some {
            "This POV does not contain the selected moment"@
        } else if self.pending_focus is Some {
            "Finding this view…"@
        } else if self.review is Some && self.review->0.pulls@.len() == 0 {
            "No raid pulls are available for this view"@
        } else if self.worker.running {
            "Finding raid pulls…"@
        } else {
            "Choose a pull to watch"@
        }
    }

    pub fn placeholder(&self) -> (text: &'static str)
        ensures
            text@ == self.placeholder_text(),
    {
        if self.playback.is_some() {
            return "Opening replay…";
        }
        if self.pending_focus.is_some() {
            return if self.review.is_some() {
                "This POV does not contain the selected moment"
            } else {
                "Finding this view…"
            };
        }
        let empty = match &self.review {
            Some(review) => review.pulls.len() == 0,
            None => false,
        };
        if empty {
            "No raid pulls are available for this view"
        } else if self.worker.running {
            "Finding raid pulls…"
        } else {
            "Choose a pull to watch"
        }
    }

    /// The words for a pull that another view asked for and this one does not show yet.
    pub open spec fn pending_text(self) -> Option<Seq<char>> {
        match self.pending_focus {
            Some(focus) => Some(
                focus.pull.name@ + " · "@ + if self.review is Some { "Not in this POV"@ } else { "Opening POV…"@ },
            ),
            None => None,
        }
    }

    /// The words for a pull that another view asked for and this one does not show yet.
    pub fn pending_label(&self) -> (label: Option<String>)
        ensures
            text_of(label) == self.pending_text(),
    {
        match &self.pending_focus {
            Some(focus) => {
                let state = if self.review.is_some() { "Not in this POV" } else { "Opening POV…" };
                Some(focus.pull.name.clone().concat(" · ").concat(state))
            },
            None => None,
        }
    }

    /// What the account's control shows.
    pub open spec fn connection(self) -> ConnectionControl {
        if self.mode.connected {
            ConnectionControl::Connected
        } else if self.mode.signing_in {
            ConnectionControl::SigningIn
        } else if !self.mode.connection_checked {
            ConnectionControl::Loading
        } else {
            ConnectionControl::Connect(!self.worker.running)
        }
    }

    /// An account that was never looked up is loading, not missing.
    pub fn connection_control(&self) -> (control: ConnectionControl)
        ensures
            control == self.connection(),
    {
        if self.mode.connected {
            ConnectionControl::Connected
        } else if self.mode.signing_in {
            ConnectionControl::SigningIn
        } else if !self.mode.connection_checked {
            ConnectionControl::Loading
        } else {
            ConnectionControl::Connect(!self.worker.running)
        }
    }

    /// Whether some other view can be compared with this one: it covers the moment and can
    /// be played.
    pub open spec fn can_compare(self, povs: Seq<Stream>, covered: Seq<bool>, current: Stream) -> bool {
        !self.mode.comparing && self.comparable() && exists|i: int| #[trigger] peer_at(povs, covered, current, i)
    }

    pub fn offers_comparison(&self, povs: &Vec<Stream>, covered: &Vec<bool>, current: &Stream) -> (yes: bool)
        requires
            covered@.len() == povs@.len(),
        ensures
            yes == self.can_compare(povs@, covered@, *current),
    {
        if self.mode.comparing || self.comparison_context().is_none() {
            return false;
        }
        let watched = pov_key(current);
        let mut i: usize = 0;
        while i < povs.len()
            invariant
                i <= povs@.len(),
                covered@.len() == povs@.len(),
                !self.mode.comparing && self.comparable(),
                watched@ == pov_key_text(*current),
                forall|j: int| 0 <= j < i ==> !#[trigger] peer_at(povs@, covered@, *current, j),
            decreases povs.len() - i,
        {
            let playable = povs[i].recording_id.is_some() || povs[i].status == Status::Live;
            if covered[i] && playable && !same_text(&pov_key(&povs[i]), &watched) {
                assert(peer_at(povs@, covered@, *current, i as int));
                return true;
            }
            assert(!peer_at(povs@, covered@, *current, i as int));
            i += 1;
        }
        false
    }

    // ------------------------------------------------------------ commands

    /// A command was given: a marker search is over, and playback goes on as commanded.
    pub open spec fn commanded(self, command: PlaybackCommand) -> ReviewUi {
        ReviewUi {
            marker: MarkerSync::idle(),
            playback: match self.playback {
                Some(playback) => Some(Playback { autoplay: plays(command), ..playback }),
                None => None,
            },
            ..self
        }
    }

    pub fn command_given(&mut self, command: PlaybackCommand)
        ensures
            *final(self) == old(self).commanded(command),
    {
        self.marker.reset();
        let playing = match command {
            PlaybackCommand::Play | PlaybackCommand::Seek(_) => true,
            _ => false,
        };
        if let Some(playback) = self.playback.take() {
            self.playback = Some(
                Playback {
                    position: playback.position,
                    autoplay: playing,
                    broadcast_id: playback.broadcast_id,
                    public_second: playback.public_second,
                },
            );
        }
    }

    // ------------------------------------------------------------ markers

    /// Whether a marker may be searched for: nothing covers the video, and no other view's
    /// moment waits.
    pub open spec fn may_search(self) -> bool {
        !self.mode.popup_open && self.pending_focus is None && (self.mode.metadata_only || self.mode.active)
    }

    /// The pull that a marker is searched for: the one that a comparison selected, or the
    /// chosen one.
    pub open spec fn searched(self, selected: Option<&Pull>) -> Option<PullView> {
        match selected {
            Some(pull) => Some(pull@),
            None => pull_view(self.selection.pull),
        }
    }

    fn searched_pull<'a>(&'a self, selected: Option<&'a Pull>) -> (pull: Option<&'a Pull>)
        ensures
            match pull {
                Some(pull) => self.searched(selected) == Some(pull@),
                None => self.searched(selected) is None,
            },
    {
        match selected {
            Some(pull) => Some(pull),
            None => match &self.selection.pull {
                Some(pull) => Some(pull),
                None => None,
            },
        }
    }

    /// What the search for a marker is asked, where it may begin.
    pub open spec fn marker_asked(self, selected: Option<&Pull>, desired: Option<(i64, bool)>) -> Option<MarkerRequest> {
        if self.may_search() && self.searched(selected) is Some && self.review is Some {
            let review = self.review->0@;
            let pull = self.searched(selected)->0;
            let estimate = crate::raid::video_start(review, pull);
            Some(
                MarkerRequest {
                    estimate,
                    elapsed: match desired {
                        Some((at_ms, _)) => ((at_ms - pull.start_ms) * 1000) as i128,
                        None => match self.playback {
                            Some(playback) => (playback.position - estimate) as i128,
                            None => 0,
                        },
                    },
                    autoplay: match desired {
                        Some((_, playing)) => playing,
                        None => match self.playback {
                            Some(playback) => playback.autoplay,
                            None => true,
                        },
                    },
                    aligned: alignment_of(review, pull) is Some,
                },
            )
        } else {
            None
        }
    }

    /// What the search for a marker is asked: where the pull should start, and the time into
    /// it to go back to.
    pub fn marker_request(&self, selected: Option<&Pull>, desired: Option<(i64, bool)>) -> (request: Option<
        MarkerRequest,
    >)
        ensures
            request == self.marker_asked(selected, desired),
    {
        if self.mode.popup_open || self.pending_focus.is_some() || (!self.mode.metadata_only && !self.mode.active) {
            return None;
        }
        match (self.searched_pull(selected), &self.review) {
            (Some(pull), Some(review)) => {
                let estimate: i64 = review.pull_video_start(pull);
                let (elapsed, autoplay): (i128, bool) = match desired {
                    Some((at_ms, playing)) => ((at_ms as i128 - pull.start_ms as i128) * 1000, playing),
                    None => match &self.playback {
                        Some(playback) => (playback.position as i128 - estimate as i128, playback.autoplay),
                        None => (0, true),
                    },
                };
                Some(
                    MarkerRequest { estimate, elapsed, autoplay, aligned: review.marker_alignment(pull).is_some() },
                )
            },
            _ => None,
        }
    }

    /// Whether this is `before` with a clock kept for the searched pull.
    pub open spec fn marker_kept_from(self, before: ReviewUi, selected: Option<&Pull>, alignment: Alignment) -> bool {
        &&& self.marker_cache@ == if before.searched(selected) is Some && before.review is Some {
            before.marker_cache@.insert(
                crate::raid::marker_key(before.review->0@.replay, before.searched(selected)->0),
                alignment,
            )
        } else {
            before.marker_cache@
        }
        &&& self == (ReviewUi { marker_cache: self.marker_cache, ..before })
    }

    /// A clock was found for the searched pull: it is kept for the next navigation, and the
    /// clock in use does not change.
    pub fn keep_marker(&mut self, selected: Option<&Pull>, alignment: Alignment)
        ensures
            final(self).marker_kept_from(*old(self), selected, alignment),
    {
        let pull: &Pull = match selected {
            Some(pull) => pull,
            None => match &self.selection.pull {
                Some(pull) => pull,
                None => {
                    return;
                },
            },
        };
        if let Some(review) = &self.review {
            self.marker_cache.insert(&review.replay, pull, alignment);
        }
    }

    /// The review once the search gave a command.
    pub open spec fn marker_commanded(self, command: PlaybackCommand, now: u64) -> ReviewUi {
        let target = match command {
            PlaybackCommand::Seek(position) => Some(position),
            PlaybackCommand::SeekPaused(position) => Some(position),
            _ => None,
        };
        if target is Some && !self.marker.busy {
            ReviewUi {
                playback: match self.playback {
                    Some(playback) => Some(
                        Playback {
                            position: target->0,
                            public_second: crate::review_state::whole_second(target->0),
                            ..playback
                        },
                    ),
                    None => None,
                },
                range: Range::fresh(now),
                ..self
            }
        } else {
            self
        }
    }

    /// The search gave a command. Only the jump back to the watched moment, once the search
    /// is over, becomes where playback goes.
    pub fn marker_command(&mut self, command: PlaybackCommand, now: u64)
        ensures
            *final(self) == old(self).marker_commanded(command, now),
    {
        let position: i64 = match command {
            PlaybackCommand::Seek(position) => position,
            PlaybackCommand::SeekPaused(position) => position,
            _ => {
                return;
            },
        };
        if self.marker.busy {
            return;
        }
        if let Some(playback) = self.playback.take() {
            self.playback = Some(
                Playback {
                    position,
                    autoplay: playback.autoplay,
                    broadcast_id: playback.broadcast_id,
                    public_second: crate::review_state::second_of(position),
                },
            );
        }
        self.range = Range::start(now);
    }

    // ------------------------------------------------------------ tracked spells

    pub open spec fn saving(self) -> bool {
        self.worker.action is Some && self.worker.action->0 is SaveCooldowns
    }

    fn is_saving(&self) -> (saving: bool)
        ensures
            saving == self.saving(),
    {
        match &self.worker.action {
            Some(Action::SaveCooldowns) => true,
            _ => false,
        }
    }

    /// Whether the editor has to wait: a save is asked for, or under way.
    pub open spec fn editor_waits(self) -> bool {
        self.cooldowns.save is Some || self.saving()
    }

    pub fn editor_busy(&self) -> (busy: bool)
        ensures
            busy == self.editor_waits(),
    {
        self.cooldowns.save.is_some() || self.is_saving()
    }

    /// Whether this is `before` with its chosen group shown or hidden, where that could be done.
    pub open spec fn group_shown_from(self, before: ReviewUi, visible: bool, changed: bool) -> bool {
        &&& changed == (!before.saving() && before.cooldowns.editor is None)
        &&& !changed ==> self == before
        &&& changed ==> {
            let group = before.cooldowns.filter;
            let is = self.cooldowns;
            &&& is.current@.hidden == hidden_with(before.cooldowns.current@.hidden, group, visible)
            &&& is.current@.visible(group) == visible
            &&& forall|other: DefensiveGroup| other != group ==> #[trigger] is.current@.visible(other)
                == before.cooldowns.current@.visible(other)
            &&& is.current@.overrides == before.cooldowns.current@.overrides
            &&& is.current@.catalog == before.cooldowns.current@.catalog
            &&& is.save is Some && is.save->0@ == is.current@
            &&& self == (ReviewUi {
                cooldowns: Cooldowns { current: is.current, save: is.save, notice: None, ..before.cooldowns },
                ..before
            })
        }
    }

    /// Shows or hides the chosen group in the timeline, and asks to save that. While a save
    /// runs or the editor is open, nothing changes.
    pub fn show_group(&mut self, visible: bool) -> (changed: bool)
        ensures
            final(self).group_shown_from(*old(self), visible, changed),
    {
        if self.is_saving() || self.cooldowns.editor.is_some() {
            return false;
        }
        let group = self.cooldowns.filter;
        self.cooldowns.current.set_visible(group, visible);
        self.cooldowns.save = Some(self.cooldowns.current.duplicate());
        self.cooldowns.notice = None;
        true
    }

    /// Whether this is `before` with its preferences to be saved again.
    pub open spec fn saved_again_from(self, before: ReviewUi) -> bool {
        &&& self.cooldowns.save is Some && self.cooldowns.save->0@ == before.cooldowns.current@
        &&& self == (ReviewUi {
            cooldowns: Cooldowns { save: self.cooldowns.save, notice: None, ..before.cooldowns },
            ..before
        })
    }

    /// Asks to save the preferences again, after an error.
    pub fn retry_save(&mut self)
        ensures
            final(self).saved_again_from(*old(self)),
    {
        self.cooldowns.save = Some(self.cooldowns.current.duplicate());
        self.cooldowns.notice = None;
    }

    /// Whether this is `before` with its editor open, where it could be opened.
    pub open spec fn editor_opened_from(self, before: ReviewUi, opened: bool) -> bool {
        &&& opened == ((before.selection.events.loaded.deaths || before.selection.events.loaded.defensives)
            && !before.saving())
        &&& !opened ==> self == before
        &&& opened ==> {
            let editor = self.cooldowns.editor->0;
            &&& self.cooldowns.editor is Some
            &&& editor.draft@ == before.cooldowns.current@
            &&& editor.group == before.cooldowns.filter
            &&& indexed(editor.observed_names@, before.selection.events.events@)
            &&& editor.error is None && editor.search@.len() == 0 && editor.new_id@.len() == 0
            &&& !editor.advanced
            &&& editor.remembered_groups@ == Map::<u64, DefensiveGroup>::empty()
            &&& self == (ReviewUi {
                cooldowns: Cooldowns { editor: self.cooldowns.editor, notice: None, ..before.cooldowns },
                ..before
            })
        }
    }

    /// Opens the editor on the chosen group, once events are there and no save runs.
    pub fn open_editor(&mut self) -> (opened: bool)
        ensures
            final(self).editor_opened_from(*old(self), opened),
    {
        if self.is_saving() || !(self.selection.events.loaded.deaths || self.selection.events.loaded.defensives) {
            return false;
        }
        let editor = CooldownEditor::new(
            self.cooldowns.current.duplicate(),
            &self.selection.events.events,
            self.cooldowns.filter,
        );
        self.cooldowns.editor = Some(editor);
        self.cooldowns.notice = None;
        true
    }

    /// Whether this is `before` with its draft to be saved, or with the reason why not.
    pub open spec fn draft_saved_from(self, before: ReviewUi, validated: Result<(), String>) -> bool {
        match validated {
            Ok(_) => {
                &&& self.cooldowns.save is Some
                &&& self.cooldowns.save->0@ == before.cooldowns.editor->0.draft@
                &&& self == (ReviewUi {
                    cooldowns: Cooldowns { save: self.cooldowns.save, notice: None, ..before.cooldowns },
                    ..before
                })
            },
            Err(message) => self == (ReviewUi {
                cooldowns: Cooldowns {
                    editor: Some(CooldownEditor { error: Some(message), ..before.cooldowns.editor->0 }),
                    ..before.cooldowns
                },
                ..before
            }),
        }
    }

    /// Asks to save the editor's draft, once it was found valid; otherwise says why not. The
    /// preferences in use do not change before the save.
    pub fn save_editor(&mut self, validated: Result<(), String>)
        requires
            old(self).cooldowns.editor is Some,
        ensures
            final(self).draft_saved_from(*old(self), validated),
    {
        match validated {
            Ok(_) => {
                let draft = match &self.cooldowns.editor {
                    Some(editor) => Some(editor.draft.duplicate()),
                    None => None,
                };
                self.cooldowns.save = draft;
                self.cooldowns.notice = None;
            },
            Err(message) => {
                if let Some(editor) = self.cooldowns.editor.take() {
                    let mut editor = editor;
                    editor.error = Some(message);
                    self.cooldowns.editor = Some(editor);
                }
            },
        }
    }

    /// The review with its editor closed, unless that has to wait.
    pub open spec fn editor_closed(self) -> ReviewUi {
        if self.editor_waits() {
            self
        } else {
            ReviewUi { cooldowns: Cooldowns { editor: None, notice: None, ..self.cooldowns }, ..self }
        }
    }

    /// Closes the editor and drops its draft, unless a save has to end first.
    pub fn close_editor(&mut self) -> (closed: bool)
        ensures
            closed == !old(self).editor_waits(),
            *final(self) == old(self).editor_closed(),
    {
        if self.editor_busy() {
            return false;
        }
        self.cooldowns.editor = None;
        self.cooldowns.notice = None;
        true
    }

    /// The review with the listed kind to be asked for again, where its worker rests.
    pub open spec fn events_retried(self) -> ReviewUi {
        if self.worker.running {
            self
        } else {
            ReviewUi {
                selection: Selection { events: self.selection.events.forgotten(self.list.kind), ..self.selection },
                ..self
            }
        }
    }

    /// Asks again for the listed kind of events, after an error.
    pub fn retry_events(&mut self) -> (asked: bool)
        ensures
            asked == !old(self).worker.running,
            *final(self) == old(self).events_retried(),
    {
        if self.worker.running {
            return false;
        }
        let kind = self.list.kind;
        self.selection.events.forget_failure(kind);
        true
    }
}

impl PullEvents {
    pub open spec fn forgotten(self, kind: EventKind) -> PullEvents {
        PullEvents { failures: self.failures.with(kind, None), ..self.unrequested(kind) }
    }

    /// Forgets that one kind was asked for, and that it failed.
    pub fn forget_failure(&mut self, kind: EventKind)
        ensures
            *final(self) == old(self).forgotten(kind),
    {
        self.requested.set(kind, false);
        self.failures.set(kind, None);
    }
}

/// Whether view `i` covers the moment, can be played and is another one than `current`.
pub open spec fn peer_at(povs: Seq<Stream>, covered: Seq<bool>, current: Stream, i: int) -> bool {
    &&& 0 <= i < povs.len() && i < covered.len()
    &&& covered[i]
    &&& pov_key_text(povs[i]) != pov_key_text(current)
    &&& povs[i].recording_id is Some || povs[i].status == Status::Live
}

// ---------------------------------------------------------------- laws

/// A connected account shows as such; one that is signing in waits; one that was never looked up
/// is loading; only a missing one can be connected, while the worker rests.
pub proof fn accounts_show_their_state(ui: ReviewUi)
    ensures
        ui.connection() == ConnectionControl::Connected <==> ui.mode.connected,
        ui.connection() == ConnectionControl::SigningIn <==> ui.mode.signing_in && !ui.mode.connected,
        ui.connection() == ConnectionControl::Loading <==> !ui.mode.connection_checked && !ui.mode.connected
            && !ui.mode.signing_in,
        ui.connection() == ConnectionControl::Connect(true) <==> ui.mode.connection_checked && !ui.mode.connected
            && !ui.mode.signing_in && !ui.worker.running,
        ui.connection() == ConnectionControl::Connect(false) ==> ui.worker.running,
{
}

/// A comparison is offered only beside a view that is played, with another one that covers the
/// moment and can be played; wherever there is one, it is offered.
pub proof fn comparisons_need_another_view(ui: ReviewUi, povs: Seq<Stream>, covered: Seq<bool>, current: Stream, i: int)
    requires
        covered.len() == povs.len(),
    ensures
        ui.mode.comparing || !ui.mode.active || ui.pending_focus is Some || ui.playback is None || ui.review is None
            || ui.selection.pull is None ==> !ui.can_compare(povs, covered, current),
        (forall|j: int| 0 <= j < covered.len() ==> !#[trigger] covered[j]) ==> !ui.can_compare(povs, covered, current),
        !ui.mode.comparing && ui.mode.active && ui.pending_focus is None && ui.playback is Some && ui.review is Some
            && ui.selection.pull is Some && ui.playback->0.broadcast_id@ == ui.review->0.replay.broadcast_id@ && 0 <= i
            < povs.len() && covered[i] && pov_key_text(povs[i]) != pov_key_text(current) && (povs[i].recording_id is Some
            || povs[i].status == Status::Live) ==> ui.can_compare(povs, covered, current),
        povs.len() == 0 ==> !ui.can_compare(povs, covered, current),
        (forall|j: int| 0 <= j < povs.len() ==> pov_key_text(#[trigger] povs[j]) == pov_key_text(current))
            ==> !ui.can_compare(povs, covered, current),
        (forall|j: int|
            0 <= j < povs.len() ==> (#[trigger] povs[j]).recording_id is None && povs[j].status != Status::Live)
            ==> !ui.can_compare(povs, covered, current),
{
    if 0 <= i < povs.len() && covered[i] && pov_key_text(povs[i]) != pov_key_text(current) && (povs[i].recording_id
        is Some || povs[i].status == Status::Live) {
        assert(peer_at(povs, covered, current, i));
    }
    if ui.can_compare(povs, covered, current) {
        let j = choose|j: int| #[trigger] peer_at(povs, covered, current, j);
        assert(covered[j]);
        assert(povs[j].recording_id is Some || povs[j].status == Status::Live);
    }
}

/// After a command, playback is meant to play exactly where the command plays; it stays where it
/// was sent, and a marker search is over.
pub proof fn commands_say_whether_to_play(ui: ReviewUi, position: i64)
    ensures
        ui.playback is Some ==> {
            &&& ui.commanded(PlaybackCommand::Play).playback->0.autoplay
            &&& ui.commanded(PlaybackCommand::Seek(position)).playback->0.autoplay
            &&& !ui.commanded(PlaybackCommand::Pause).playback->0.autoplay
            &&& !ui.commanded(PlaybackCommand::SeekPaused(position)).playback->0.autoplay
            &&& ui.commanded(PlaybackCommand::Seek(position)).playback->0.position == ui.playback->0.position
            &&& ui.commanded(PlaybackCommand::Play).playback is Some
            &&& ui.commanded(PlaybackCommand::Play).playback->0.broadcast_id == ui.playback->0.broadcast_id
            &&& ui.commanded(PlaybackCommand::Play).playback->0.public_second == ui.playback->0.public_second
        },
        ui.playback is None ==> ui.commanded(PlaybackCommand::Play).playback is None,
        !ui.commanded(PlaybackCommand::Pause).marker.busy && ui.commanded(PlaybackCommand::Pause).marker.intent is None,
        ui.commanded(PlaybackCommand::Pause).selection == ui.selection && ui.commanded(PlaybackCommand::Pause).range
            == ui.range && ui.commanded(PlaybackCommand::Pause).worker == ui.worker,
{
}

/// A marker is searched for only where the video is not covered and no other view's moment waits,
/// in the pull that a comparison selected or else in the chosen one. The search starts where the
/// pull does and goes back as far into it as was asked, or as the video was.
pub proof fn markers_are_searched_in_the_open(ui: ReviewUi, selected: Option<&Pull>, desired: Option<(i64, bool)>)
    ensures
        ui.mode.popup_open || ui.pending_focus is Some || ui.review is None || (!ui.mode.active
            && !ui.mode.metadata_only) || (selected is None && ui.selection.pull is None) ==> ui.marker_asked(
            selected,
            desired,
        ) is None,
        !ui.mode.popup_open && ui.pending_focus is None && ui.review is Some && (ui.mode.active || ui.mode.metadata_only)
            && (selected is Some || ui.selection.pull is Some) ==> {
            let asked = ui.marker_asked(selected, desired);
            let pull = if selected is Some { *selected->0 } else { ui.selection.pull->0 };
            let start = crate::raid::video_start(ui.review->0@, pull@);
            &&& asked is Some && asked->0.estimate == start
            &&& desired is Some ==> asked->0.elapsed == ((desired->0).0 - pull.start_ms) * 1000 && asked->0.autoplay
                == (desired->0).1
            &&& desired is None && ui.playback is Some ==> asked->0.elapsed == ui.playback->0.position - start
                && asked->0.autoplay == ui.playback->0.autoplay
            &&& desired is None && ui.playback is None ==> asked->0.elapsed == 0 && asked->0.autoplay
            &&& asked->0.aligned <==> ui.review->0@.timing.dom().contains((pull.report@, pull.id))
        },
{
}

/// A clock that was found is kept for exactly its pull, and what plays is not moved by it.
pub proof fn found_clocks_wait(
    before: ReviewUi,
    after: ReviewUi,
    selected: Option<&Pull>,
    alignment: Alignment,
    key: crate::raid::MarkerKey,
)
    requires
        after.marker_kept_from(before, selected, alignment),
    ensures
        after.review == before.review && after.playback == before.playback && after.selection == before.selection
            && after.range == before.range && after.marker == before.marker,
        before.review is Some && selected is Some ==> {
            let kept = crate::raid::marker_key(before.review->0@.replay, selected->0@);
            &&& after.marker_cache@.dom().contains(kept) && after.marker_cache@[kept] == alignment
            &&& key != kept ==> (after.marker_cache@.dom().contains(key) <==> before.marker_cache@.dom().contains(key))
            &&& key != kept && before.marker_cache@.dom().contains(key) ==> after.marker_cache@[key]
                == before.marker_cache@[key]
        },
        before.review is Some && selected is None && before.selection.pull is Some ==> {
            let kept = crate::raid::marker_key(before.review->0@.replay, before.selection.pull->0@);
            after.marker_cache@.dom().contains(kept) && after.marker_cache@[kept] == alignment
        },
        before.review is None ==> after.marker_cache@ == before.marker_cache@,
{
}

/// Where a search sends the video counts only once the search is over; whether to play is not
/// its to say.
pub proof fn searches_do_not_move_playback(ui: ReviewUi, position: i64, now: u64)
    ensures
        ui.marker.busy ==> ui.marker_commanded(PlaybackCommand::Seek(position), now) == ui && ui.marker_commanded(
            PlaybackCommand::SeekPaused(position),
            now,
        ) == ui,
        ui.marker_commanded(PlaybackCommand::Play, now) == ui && ui.marker_commanded(PlaybackCommand::Pause, now) == ui,
        !ui.marker.busy ==> {
            let after = ui.marker_commanded(PlaybackCommand::Seek(position), now);
            &&& after == ui.marker_commanded(PlaybackCommand::SeekPaused(position), now)
            &&& after.range.epoch == now && after.range.observation is None && !after.range.pause_sent
            &&& ui.playback is Some ==> after.playback is Some && after.playback->0.position == position
                && after.playback->0.autoplay == ui.playback->0.autoplay && after.playback->0.broadcast_id
                == ui.playback->0.broadcast_id
            &&& after.selection == ui.selection && after.worker == ui.worker && after.marker == ui.marker
        },
{
}

/// Showing or hiding a group changes no other group and no tracked spell; it is to be saved as it
/// is then shown. While a save runs or the editor is open it is refused.
pub proof fn groups_are_shown_one_by_one(
    before: ReviewUi,
    after: ReviewUi,
    visible: bool,
    changed: bool,
    other: DefensiveGroup,
)
    requires
        after.group_shown_from(before, visible, changed),
    ensures
        before.cooldowns.editor is Some || before.worker.action == Some(Action::SaveCooldowns) ==> !changed && after
            == before,
        before.cooldowns.editor is None && (before.worker.action is None || !(before.worker.action->0 is SaveCooldowns))
            ==> changed,
        changed ==> {
            &&& after.cooldowns.current@.hidden.contains(before.cooldowns.filter) == !visible
            &&& other != before.cooldowns.filter ==> after.cooldowns.current@.visible(other)
                == before.cooldowns.current@.visible(other)
            &&& after.cooldowns.current@.overrides == before.cooldowns.current@.overrides
            &&& after.cooldowns.save is Some && after.cooldowns.save->0@ == after.cooldowns.current@
            &&& after.selection == before.selection && after.playback == before.playback && after.cooldowns.notice is None
        },
{
}

/// What is saved from the editor is its draft; until then the tracked spells do not change. A draft
/// that was found wrong stays open with the reason, and is not saved.
pub proof fn drafts_are_saved_whole(before: ReviewUi, after: ReviewUi, validated: Result<(), String>)
    requires
        before.cooldowns.editor is Some,
        after.draft_saved_from(before, validated),
    ensures
        after.cooldowns.current == before.cooldowns.current && after.selection == before.selection,
        after.cooldowns.editor is Some && after.cooldowns.editor->0.draft == before.cooldowns.editor->0.draft,
        validated is Ok ==> after.cooldowns.save is Some && after.cooldowns.save->0@
            == before.cooldowns.editor->0.draft@ && after.editor_waits() && after.cooldowns.notice is None,
        validated is Err ==> after.cooldowns.save == before.cooldowns.save && after.cooldowns.editor->0.error == Some(
            validated->Err_0,
        ),
{
}

/// The editor opens on what is tracked and on the chosen group, once events are there and no save
/// runs; it closes only where no save has to end first.
pub proof fn editors_open_on_what_is_tracked(before: ReviewUi, after: ReviewUi, opened: bool)
    requires
        after.editor_opened_from(before, opened),
    ensures
        opened <==> (before.selection.events.loaded.has(EventKind::Deaths) || before.selection.events.loaded.has(
            EventKind::Defensives,
        )) && !(before.worker.action is Some && before.worker.action->0 is SaveCooldowns),
        opened ==> after.cooldowns.editor is Some && after.cooldowns.editor->0.draft@ == before.cooldowns.current@
            && after.cooldowns.editor->0.group == before.cooldowns.filter && after.cooldowns.current
            == before.cooldowns.current && after.cooldowns.save == before.cooldowns.save,
        !opened ==> after == before,
        after.cooldowns.save is Some ==> after.editor_closed() == after,
        after.cooldowns.save is None && after.worker.action is None ==> after.editor_closed().cooldowns.editor is None
            && after.editor_closed().cooldowns.current == after.cooldowns.current,
{
}

/// A save that failed is asked for again with what is tracked at present.
pub proof fn saves_are_asked_for_again(before: ReviewUi, after: ReviewUi)
    requires
        after.saved_again_from(before),
    ensures
        after.cooldowns.save is Some && after.cooldowns.save->0@ == before.cooldowns.current@,
        after.cooldowns.current == before.cooldowns.current && after.cooldowns.editor == before.cooldowns.editor
            && after.cooldowns.notice is None && after.selection == before.selection,
        after.editor_waits(),
{
}

/// Events that are asked for again count as never asked, without their failure, once the worker
/// rests; the other kind, and what was read of it, stay.
pub proof fn failed_events_are_asked_for_again(ui: ReviewUi, now: u64)
    ensures
        ui.worker.running ==> ui.events_retried() == ui,
        !ui.worker.running && !ui.selection.events.loaded.has(ui.list.kind) ==> ui.events_retried().selection.events.misses(
            ui.list.kind,
            now,
        ),
        !ui.worker.running ==> ui.events_retried().selection.events.failures.of(ui.list.kind) is None,
        ui.events_retried().selection.events.events == ui.selection.events.events
            && ui.events_retried().selection.events.loaded == ui.selection.events.loaded,
        ui.list.kind == EventKind::Deaths ==> ui.events_retried().selection.events.misses(EventKind::Defensives, now)
            == ui.selection.events.misses(EventKind::Defensives, now),
        ui.list.kind == EventKind::Defensives ==> ui.events_retried().selection.events.misses(EventKind::Deaths, now)
            == ui.selection.events.misses(EventKind::Deaths, now),
        ui.events_retried().playback == ui.playback && ui.events_retried().selection.pull == ui.selection.pull,
{
}

/// In the place of the video stands that it opens; that the view cannot show, or is still being found
/// for, the moment that waits; that it has no pulls; that they are being read; or that one can be
/// chosen. In that order.
pub proof fn placeholders_say_what_is_missing(ui: ReviewUi)
    ensures
        ui.playback is Some ==> ui.placeholder_text() == "Opening replay…"@,
        ui.playback is None && ui.pending_focus is Some && ui.review is Some ==> ui.placeholder_text()
            == "This POV does not contain the selected moment"@,
        ui.playback is None && ui.pending_focus is Some && ui.review is None ==> ui.placeholder_text()
            == "Finding this view…"@,
        ui.playback is None && ui.pending_focus is None && ui.review is Some && ui.review->0.pulls@.len() == 0
            ==> ui.placeholder_text() == "No raid pulls are available for this view"@,
        ui.playback is None && ui.pending_focus is None && (ui.review is None || ui.review->0.pulls@.len() > 0)
            ==> ui.placeholder_text() == if ui.worker.running { "Finding raid pulls…"@ } else { "Choose a pull to watch"@ },
        ui.pending_text() is Some <==> ui.pending_focus is Some,
        ui.pending_focus is Some ==> crate::text::begins(ui.pending_text()->0, ui.pending_focus->0.pull.name@),
{
    if ui.pending_focus is Some {
        let name = ui.pending_focus->0.pull.name@;
        assert(ui.pending_text()->0.take(name.len() as int) =~= name);
    }
}

} // verus!
