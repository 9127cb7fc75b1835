use brick::cooldown_editor::{mentions_spell, CooldownEditor};
use brick::cooldowns::{same_overrides, Catalog, Observation, Preferences, Rule, Spell};
use brick::playback::{PlaybackCommand, PlaybackState};
use brick::provider::Provider;
use brick::raid::{
    encounter_moment, recording_covers_moment, Alignment, DefensiveGroup, EventKind, Pull, RaidEvent, Replay, Review,
    Status, Stream, Timings,
};
use brick::raid_text::{
    class_color, clock, event_description, event_detail, pov_detail, pov_display_label, pov_key, pov_unavailable,
    pull_key, pull_outcome, relative_clock, remaining_label, RecordingLabel,
};
use brick::raid::MarkerCache;
use brick::review_controls::ConnectionControl;
use brick::review_outcome::{Data, Incoming, Outcome};
use brick::review_state::{Action, Focus, Kinds, MarkerIntent, PeerMetadataPermit, ReviewUi, SelectedEvent};
use brick::review_state::EventList;
use brick::review_timeline::{clusters, lane_events, lane_label, mentions};
use brick::review_workspace::{
    back_label, event_offset, event_row_hint, event_row_label, marker_label, marker_line, more_events, review_label,
};

const NOW: u64 = 1_000_000_000_000;

fn spell(id: u64, name: &str, group: DefensiveGroup, default_enabled: bool) -> Spell {
    Spell { id, name: name.to_string(), group, default_enabled }
}

fn catalog() -> Catalog {
    Catalog {
        spells: vec![
            spell(642, "Divine Shield", DefensiveGroup::Personal, true),
            spell(33206, "Pain Suppression", DefensiveGroup::External, true),
            spell(200183, "Apotheosis", DefensiveGroup::Healing, true),
            spell(120517, "Halo", DefensiveGroup::Healing, false),
            spell(62618, "Power Word: Barrier", DefensiveGroup::DamageReduction, true),
            spell(197908, "Mana Tea", DefensiveGroup::Utility, false),
        ],
    }
}

fn new_ui() -> ReviewUi {
    ReviewUi::new(catalog(), NOW)
}

fn copy_pull(pull: &Pull) -> Pull {
    pull.clone()
}

fn fixture() -> (Review, Pull, Stream) {
    let replay = Replay::new(
        Provider::Youtube,
        "abcDEF_12-3".to_string(),
        "abcDEF_12-3".to_string(),
        "2026-09-01T12:00:00Z",
        25_000,
    );
    let origin = replay.start_ms.unwrap();
    let start = origin + 19_800_375;
    let pull = Pull {
        report: "abcdefghABCDEFGH".to_string(),
        id: 1,
        encounter: 1,
        difficulty: 5,
        report_start_ms: start - 50_000,
        remaining: Some(758),
        last_phase: Some(2),
        last_phase_is_intermission: false,
        name: "A very long encounter name".to_string(),
        kill: false,
        start_ms: start,
        end_ms: start + 210_000,
        seconds: 19_800,
    };
    let stream = Stream {
        replay_start_ms: Some(origin),
        replay_end_ms: Some(origin + 25_000_000),
        recording_id: None,
        user_id: "101".to_string(),
        role_order: 0,
        name: "A guildmate with a long character name".to_string(),
        provider: Provider::Youtube,
        channel_id: replay.video_id.clone(),
        url: String::new(),
        status: Status::Live,
        broadcast_state: None,
    };
    (Review { replay, pulls: vec![copy_pull(&pull)], marker_timing: Timings::new() }, pull, stream)
}

fn copy_stream(stream: &Stream) -> Stream {
    Stream {
        replay_start_ms: stream.replay_start_ms,
        replay_end_ms: stream.replay_end_ms,
        recording_id: stream.recording_id.clone(),
        user_id: stream.user_id.clone(),
        role_order: stream.role_order,
        name: stream.name.clone(),
        provider: stream.provider,
        channel_id: stream.channel_id.clone(),
        url: stream.url.clone(),
        status: stream.status,
        broadcast_state: stream.broadcast_state.clone(),
    }
}

fn event(at_ms: i64, actor: &str, ability_id: u64, kind: EventKind, group: Option<DefensiveGroup>) -> RaidEvent {
    RaidEvent {
        at_ms,
        actor_id: 1,
        observed_buff: false,
        actor: actor.to_string(),
        class: "Priest".to_string(),
        ability: "Apotheosis".to_string(),
        ability_id,
        target: None,
        target_actor_id: None,
        kind,
        group,
    }
}

fn at_seconds(seconds: i64) -> i64 {
    seconds * 1_000_000
}

const BOTH: Kinds = Kinds { deaths: true, defensives: true };

fn align(video: i64, pull: &Pull) -> Alignment {
    Alignment { unix_seconds: pull.start_ms / 1000, video, uncertainty: 100_000 }
}

fn outcome(ui: &ReviewUi, key: &str, result: Result<Data, String>, connected: bool) -> Incoming {
    Incoming::Finished(Outcome { generation: ui.worker.generation, key: key.to_string(), result, connected })
}

#[test]
fn current_pulls_schedule_a_wakeup_without_pointer_or_video_activity() {
    let (_, _, stream) = fixture();
    let mut review = new_ui();
    review.key = pov_key(&stream);
    review.worker.last_attempt = Some(NOW);
    let plan = review.tick(Some(&stream), Incoming::Nothing, 0, NOW + 1_000);
    assert!(plan.read.is_none() && !plan.changed);
    let delay = review.wake(NOW + 1_000);
    assert!(delay > 1_000_000 && delay <= 15_000_000);
    assert!(!review.worker.running);
    assert!(matches!(review.next_action(NOW + 16_000_000), Some(Action::Refresh)));
    review.notice = Some("Rate limited".to_string());
    assert!(review.next_action(NOW + 16_000_000).is_none(), "Errors must back off");
    review.notice = None;
    let mut archive = copy_stream(&stream);
    archive.status = Status::Offline;
    let long_after = archive.replay_end_ms.unwrap() + 2 * 86_400_000;
    review.tick(Some(&archive), Incoming::Nothing, long_after, NOW);
    assert_eq!(review.refresh_interval(), 60_000_000);
    assert!(review.next_action(NOW + 16_000_000).is_none());
    // A recording that ended within a day is still read often.
    review.tick(Some(&archive), Incoming::Nothing, archive.replay_end_ms.unwrap() + 86_400_000, NOW);
    assert_eq!(review.refresh_interval(), 15_000_000);
}

#[test]
fn recording_coverage_excludes_later_povs_from_earlier_pulls_and_checks_current_moment() {
    let (review, pull, _) = fixture();
    let start = review.replay.start_ms.unwrap();
    let end = start + 25_000_000;
    assert!(recording_covers_moment((start, end), pull.start_ms, pull.start_ms + 121_867));
    let later = pull.end_ms + 5 * 240_000;
    assert!(!recording_covers_moment((later, end), pull.start_ms, pull.start_ms + 121_867));
    assert!(recording_covers_moment((later, end), later + 60_000, later + 121_867));
    let short_end = pull.start_ms + 120_000;
    assert!(recording_covers_moment((start, short_end), pull.start_ms, pull.start_ms + 100_000));
    assert!(!recording_covers_moment((start, short_end), pull.start_ms, pull.start_ms + 121_867));
}

#[test]
fn recording_coverage_preserves_milliseconds_without_an_offset() {
    let start = 1_700_000_000_000;
    let end = start + 240_000;
    assert!(recording_covers_moment((start, end), start, start));
    assert!(recording_covers_moment((start, end), start, end - 1));
    assert!(!recording_covers_moment((start, end), start, start - 1));
    assert!(!recording_covers_moment((start, end), start, end));
    for range in [(start, start), (end, start), (-1, end), (0, i64::MAX)] {
        assert!(!recording_covers_moment(range, start, start));
    }
}

#[test]
fn pov_coverage_uses_loaded_current_metadata_and_never_assumes_unknown_candidates() {
    let (review, pull, mut current) = fixture();
    let origin = review.replay.start_ms;
    let mut ui = new_ui();
    ui.key = pov_key(&current);
    ui.accept_review(review, NOW);
    current.replay_start_ms = None;
    current.replay_end_ms = None;
    assert!(ui.pov_covers_moment(&current, &pull, pull.start_ms + 121_867));
    let mut other = copy_stream(&current);
    other.channel_id = "otherVID123".to_string();
    other.user_id = "102".to_string();
    assert!(!ui.pov_covers_moment(&other, &pull, pull.start_ms + 121_867));
    other.replay_start_ms = Some(pull.end_ms + 5 * 240_000);
    other.replay_end_ms = Some(pull.end_ms + 20 * 240_000);
    assert!(!ui.pov_covers_moment(&other, &pull, pull.start_ms + 121_867));
    other.replay_start_ms = origin;
    other.replay_end_ms = Some(pull.end_ms);
    assert!(ui.pov_covers_moment(&other, &pull, pull.end_ms - 1));
    assert!(!ui.pov_covers_moment(&other, &pull, pull.end_ms));
}

#[test]
fn raid_marker_alignment_is_per_pull_and_preserves_event_milliseconds() {
    let (mut review, pull, _) = fixture();
    review.marker_timing.insert(&pull.report, pull.id, align(123_456_000, &pull));
    assert_eq!(review.pull_video_start(&pull), 123_456_000);
    let mut other = copy_pull(&pull);
    other.id += 1;
    assert_ne!(review.pull_video_start(&other), 123_456_000);
    let at_ms = pull.start_ms + 137_625;
    let mut ui = new_ui();
    ui.review = Some(review);
    ui.select(copy_pull(&pull), NOW);
    let command = ui.seek_absolute_with_playback(at_ms, false, NOW).unwrap();
    assert_eq!(command, PlaybackCommand::SeekPaused(261_081_000));
    assert_eq!(encounter_moment(ui.review.as_ref().unwrap(), &pull, 261_081_000), at_ms);
    assert!(!ui.playback.as_ref().unwrap().autoplay);
}

#[test]
fn discovering_a_timestamp_does_not_move_the_watched_pull_until_navigation() {
    let (review, pull, _) = fixture();
    let mut ui = new_ui();
    ui.accept_review(review.duplicate(), NOW);
    ui.select(copy_pull(&pull), NOW);
    let original = ui.review.as_ref().unwrap().pull_video_start(&pull);
    ui.marker_cache.insert(&review.replay, &pull, align(original + 3_500_000, &pull));
    ui.accept_review(review, NOW);
    assert_eq!(ui.review.as_ref().unwrap().pull_video_start(&pull), original);
    assert_eq!(ui.playback.as_ref().unwrap().position, original);
    ui.select(copy_pull(&pull), NOW);
    assert_eq!(ui.review.as_ref().unwrap().pull_video_start(&pull), original + 3_500_000);
    assert_eq!(ui.playback.as_ref().unwrap().position, original + 3_500_000);
}

#[test]
fn refreshed_metadata_reuses_only_calibration_for_identical_pull_bounds() {
    let (review, pull, _) = fixture();
    let mut ui = new_ui();
    ui.marker_cache.insert(&review.replay, &pull, align(123_456_000, &pull));
    ui.accept_review(review.duplicate(), NOW);
    assert_eq!(ui.review.as_ref().unwrap().pull_video_start(&pull), 123_456_000);
    let mut changed = review;
    changed.pulls[0].start_ms += 1;
    let changed_pull = copy_pull(&changed.pulls[0]);
    ui.accept_review(changed, NOW);
    assert!(ui.review.as_ref().unwrap().marker_alignment(&changed_pull).is_none());
}

#[test]
fn event_click_preserves_the_log_millisecond_without_a_lead_in() {
    let (review, pull, _) = fixture();
    let mut ui = new_ui();
    ui.review = Some(review.duplicate());
    ui.select(copy_pull(&pull), NOW);
    for offset in [375, 121_867] {
        let at_ms = pull.start_ms + offset;
        let Some(PlaybackCommand::Seek(position)) = ui.watch_event(at_ms, "Player".to_string(), NOW) else {
            panic!("An event click must seek and play");
        };
        assert_eq!(encounter_moment(&review, &pull, position), at_ms);
        let selected = ui.selection.selected_event.as_ref().unwrap();
        assert_eq!((selected.at_ms, selected.actor.as_str()), (at_ms, "Player"));
    }
}

#[test]
fn timeline_position_waits_for_current_settled_video_after_a_seek() {
    let (review, pull, _) = fixture();
    let mut ui = new_ui();
    ui.review = Some(review);
    ui.select(copy_pull(&pull), NOW);
    let mut state = PlaybackState::default();
    state.ready = true;
    state.position = ui.playback().unwrap().position;
    state.mark_polled_at(NOW + 1);
    assert_eq!(ui.confirmed_video_position(&state, NOW + 1), Some(state.position));
    ui.seek_absolute(pull.start_ms + 121_867, NOW + 2).unwrap();
    // The old frame belongs to the same POV, but predates the click.
    assert_eq!(ui.confirmed_video_position(&state, NOW + 2), None);
    state.mark_polled_at(NOW + 3);
    state.position = ui.playback().unwrap().position;
    state.seeking = Some(state.position);
    assert_eq!(ui.confirmed_video_position(&state, NOW + 3), None);
    state.seeking = None;
    state.buffering = true;
    assert_eq!(ui.confirmed_video_position(&state, NOW + 3), None);
    state.buffering = false;
    assert_eq!(ui.confirmed_video_position(&state, NOW + 3), Some(state.position));
}

#[test]
fn pov_switch_preserves_encounter_millisecond_across_different_starts_and_alignment() {
    let (source, pull, _) = fixture();
    let moment = encounter_moment(&source, &pull, source.pull_video_start(&pull) + 137_625_000);
    assert_eq!(moment, pull.start_ms + 137_625);
    let mut other = source.duplicate();
    other.replay = Replay::new(
        Provider::Youtube,
        "xyzDEF_12-3".to_string(),
        "abcDEF_12-3".to_string(),
        "2026-09-01T17:00:00Z",
        25_000,
    );
    let shifted = other.pull_video_start(&pull) - 3_000_000;
    other.marker_timing.insert(&pull.report, pull.id, align(shifted, &pull));
    let mut ui = new_ui();
    ui.review = Some(other.duplicate());
    ui.select(copy_pull(&pull), NOW);
    let Some(PlaybackCommand::SeekPaused(position)) = ui.seek_absolute_with_playback(moment, false, NOW) else {
        panic!("A paused POV switch must stay paused");
    };
    assert_eq!(position, at_seconds(1935));
    assert_eq!(encounter_moment(&other, &pull, position), moment);
    assert!(!ui.playback().unwrap().autoplay);
    // Repeated swaps cannot accumulate whole-second rounding errors.
    ui.review = Some(source.duplicate());
    ui.select(copy_pull(&pull), NOW);
    ui.seek_absolute_with_playback(moment, true, NOW).unwrap();
    assert_eq!(encounter_moment(&source, &pull, ui.playback().unwrap().position), moment);
}

#[test]
fn recording_review_opens_first_pull_once_and_uses_a_distinct_request_identity() {
    let (review, pull, live) = fixture();
    let mut saved = copy_stream(&live);
    saved.status = Status::Offline;
    saved.recording_id = Some(saved.channel_id.clone());
    assert_ne!(pov_key(&live), pov_key(&saved));
    assert!(pov_unavailable(&saved, &live).is_none());
    let mut ui = new_ui();
    ui.open_recording();
    assert!(ui.active());
    assert!(ui.playback().is_none());
    assert!(ui.accept_review(review.duplicate(), NOW));
    assert_eq!(ui.selection.pull.as_ref().unwrap().id, pull.id);
    ui.seek_absolute_with_playback(pull.start_ms + 120_000, false, NOW).unwrap();
    let position = ui.playback().unwrap().position;
    ui.accept_review(review, NOW);
    assert_eq!(ui.playback().unwrap().position, position);
    assert!(!ui.playback().unwrap().autoplay);
    assert_eq!(ui.report_span(), Some((pull.start_ms, pull.end_ms)));
}

#[test]
fn initial_saved_connection_check_shows_static_loading_then_the_review() {
    let (mut review, _, mut stream) = fixture();
    stream.status = Status::Offline;
    stream.recording_id = Some(review.replay.video_id.clone());
    review.pulls.clear();
    let mut ui = new_ui();
    ui.key = pov_key(&stream);
    ui.open_recording();
    ui.worker.running = true;
    ui.worker.action = Some(Action::Refresh);
    for _ in 0..3 {
        let plan = ui.tick(Some(&stream), Incoming::Nothing, 0, NOW);
        assert!(!plan.changed && plan.read.is_none());
        assert_eq!(ui.connection_control(), ConnectionControl::Loading);
        assert!(!ui.mode.connection_checked);
        assert!(ui.worker.running);
    }
    let key = ui.key.clone();
    let result = outcome(&ui, &key, Ok(Data::Review(review, Preferences::new(catalog()))), true);
    ui.tick(Some(&stream), result, 0, NOW);
    assert!(ui.mode.connected && ui.mode.connection_checked && ui.active());
    assert!(!ui.worker.running);
    assert_eq!(ui.connection_control(), ConnectionControl::Connected);
    assert_eq!(ui.placeholder(), "No raid pulls are available for this view");
}

#[test]
fn obsolete_connection_result_does_not_expose_sign_in_during_the_initial_check() {
    let (_, _, stream) = fixture();
    let mut ui = new_ui();
    ui.key = pov_key(&stream);
    ui.worker.generation = 2;
    ui.worker.last_attempt = Some(NOW);
    ui.worker.running = true;
    ui.worker.action = Some(Action::Refresh);
    let stale = Incoming::Finished(Outcome {
        generation: 1,
        key: ui.key.clone(),
        result: Ok(Data::Authentication),
        connected: false,
    });
    ui.tick(Some(&stream), stale, 0, NOW);
    assert!(!ui.mode.connected && !ui.mode.connection_checked);
    assert!(!ui.worker.running);
}

#[test]
fn recording_review_keeps_connection_recovery_visible_after_loading_fails() {
    for previously_connected in [false, true] {
        let (review, _, mut stream) = fixture();
        stream.status = Status::Offline;
        stream.recording_id = Some(review.replay.video_id.clone());
        let mut ui = new_ui();
        ui.key = pov_key(&stream);
        ui.mode.connected = previously_connected;
        ui.open_recording();
        ui.worker.running = true;
        ui.worker.action = Some(Action::Refresh);
        let key = ui.key.clone();
        let failed = outcome(&ui, &key, Err("Connect Warcraft Logs to see this raid's pulls.".to_string()), false);
        ui.tick(Some(&stream), failed, 0, NOW);
        assert!(ui.active(), "A failed read must not close the selected VOD");
        assert!(!ui.mode.connected);
        assert!(ui.mode.connection_checked);
        assert!(ui.mode.open_first_pull);
        assert!(ui.playback().is_none());
        assert_eq!(ui.connection_control(), ConnectionControl::Connect(true));
        // Remaining in the workspace must not turn a failed request into a
        // retry on every UI frame or start a player without a selected pull.
        for _ in 0..5 {
            let plan = ui.tick(Some(&stream), Incoming::Nothing, 0, NOW + 1_000_000);
            assert!(plan.read.is_none() && !ui.worker.running);
            assert!(ui.playback().is_none());
            assert!(ui.active());
        }
        assert!(ui.accept_review(review, NOW));
        assert!(ui.playback().is_some());
        assert!(!ui.mode.open_first_pull);
    }
}

#[test]
fn unavailable_pov_time_does_not_seek_to_an_unrelated_moment() {
    let (review, pull, _) = fixture();
    let mut ui = new_ui();
    ui.review = Some(review);
    ui.select(copy_pull(&pull), NOW);
    let before = ui.playback().unwrap().position;
    assert!(ui.seek_absolute(pull.start_ms - 30_000_000, NOW).is_none());
    assert!(ui.seek_absolute(pull.start_ms + 30_000_000, NOW).is_none());
    assert_eq!(ui.playback().unwrap().position, before);
}

#[test]
fn selecting_a_pull_uses_unix_or_raw_metadata_without_an_offset() {
    for alignment in [None, Some(123_456_000)] {
        let (mut review, pull, _) = fixture();
        if let Some(video) = alignment {
            review.marker_timing.insert(&pull.report, pull.id, align(video, &pull));
        }
        let expected = alignment.unwrap_or((pull.start_ms - review.replay.start_ms.unwrap()) * 1000);
        let mut ui = new_ui();
        ui.review = Some(review.duplicate());
        ui.mode.active = true;
        ui.select(copy_pull(&pull), NOW);
        let playback = ui.playback().unwrap();
        assert_eq!(playback.position, expected);
        assert_eq!(playback.public_second, expected as u64 / 1_000_000);
        assert_eq!(encounter_moment(&review, &pull, playback.position), pull.start_ms);
        assert!(playback.autoplay);
        ui.capture_pov_position(&PlaybackState::default(), NOW);
        assert_eq!(ui.pending_focus.as_ref().unwrap().at_ms, pull.start_ms);
    }
}

#[test]
fn immediate_pov_switch_keeps_initial_pull_before_first_current_sample() {
    let (review, pull, _) = fixture();
    let mut old_live_state = PlaybackState::default();
    old_live_state.ready = true;
    old_live_state.position = 0;
    old_live_state.mark_polled_at(NOW - 1);
    let mut ui = new_ui();
    ui.mode.active = true;
    ui.review = Some(review);
    ui.select(copy_pull(&pull), NOW);
    for state in [PlaybackState::default(), old_live_state] {
        ui.capture_pov_position(&state, NOW);
        let focus = ui.pending_focus.as_ref().unwrap();
        assert_eq!(pull_key(&focus.pull), pull_key(&pull));
        assert_eq!(focus.at_ms, pull.start_ms);
        assert!(focus.autoplay);
    }
}

#[test]
fn missing_or_loading_pov_preserves_moment_for_next_available_view() {
    let (review, pull, _) = fixture();
    let mut ui = new_ui();
    ui.mode.active = true;
    ui.review = Some(review.duplicate());
    ui.select(copy_pull(&pull), NOW);
    let moment = pull.start_ms + 137_625;
    ui.seek_absolute_with_playback(moment, false, NOW).unwrap();
    ui.capture_pov_position(&PlaybackState::default(), NOW);
    // A rapid second switch can precede the first view's metadata/player.
    ui.leave_view();
    ui.capture_pov_position(&PlaybackState::default(), NOW);
    assert_eq!(ui.pending_focus.as_ref().unwrap().at_ms, moment);
    let mut missing = review.duplicate();
    missing.pulls.clear();
    ui.accept_review(missing, NOW);
    assert!(ui.restore_pov_position(NOW));
    assert!(ui.playback.is_none());
    assert_eq!(ui.notice.as_deref(), Some("This POV does not contain the selected pull."));
    assert_eq!(ui.placeholder(), "This POV does not contain the selected moment");
    assert_eq!(ui.pending_focus.as_ref().unwrap().at_ms, moment);
    ui.capture_pov_position(&PlaybackState::default(), NOW);
    ui.accept_review(review.duplicate(), NOW);
    assert!(ui.restore_pov_position(NOW));
    assert!(ui.pending_focus.is_none());
    assert_eq!(pull_key(ui.selection.pull.as_ref().unwrap()), pull_key(&pull));
    let playback = ui.playback.as_ref().unwrap();
    assert!(!playback.autoplay);
    assert_eq!(encounter_moment(&review, &pull, playback.position), moment);
    assert!(ui.notice.is_none());
}

#[test]
fn a_recording_that_ends_before_the_moment_keeps_the_moment_waiting() {
    let (review, pull, _) = fixture();
    let mut ui = new_ui();
    ui.review = Some(review.duplicate());
    ui.select(copy_pull(&pull), NOW);
    ui.seek_absolute_with_playback(pull.start_ms + 100_000, true, NOW).unwrap();
    ui.capture_pov_position(&PlaybackState::default(), NOW);
    ui.leave_view();
    let mut short = review;
    short.replay.available_seconds = 19_850;
    ui.accept_review(short, NOW);
    assert!(ui.restore_pov_position(NOW));
    assert!(ui.playback.is_none());
    assert_eq!(ui.notice.as_deref(), Some("This POV does not contain the selected moment."));
    assert_eq!(ui.pending_focus.as_ref().unwrap().at_ms, pull.start_ms + 100_000);
}

#[test]
fn explicit_pull_selection_replaces_an_unavailable_pov_moment() {
    let (review, pull, _) = fixture();
    let mut ui = new_ui();
    ui.review = Some(review);
    ui.pending_focus = Some(Focus { pull: copy_pull(&pull), at_ms: pull.start_ms + 10_000, autoplay: false });
    ui.select(pull, NOW);
    assert!(ui.pending_focus.is_none());
    assert!(ui.playback.is_some());
}

#[test]
fn refreshed_reports_remove_unavailable_pull_and_refresh_existing_metadata() {
    let (mut review, pull, _) = fixture();
    let mut ui = new_ui();
    ui.review = Some(review.duplicate());
    ui.select(copy_pull(&pull), NOW);
    ui.seek_absolute_with_playback(pull.start_ms + 137_625, false, NOW).unwrap();
    let position = ui.playback().unwrap().position;
    review.pulls[0].remaining = Some(650);
    assert!(!ui.accept_review(review.duplicate(), NOW));
    assert_eq!(ui.selection.pull.as_ref().unwrap().remaining, Some(650));
    assert_eq!(ui.playback().unwrap().position, position);
    assert!(!ui.playback().unwrap().autoplay);
    ui.selection.events.events.push(event(pull.start_ms + 5_000, "Guildmate", 0, EventKind::Deaths, None));
    ui.selection.events.loaded.deaths = true;
    review.pulls.clear();
    assert!(ui.accept_review(review, NOW));
    assert!(ui.selection.pull.is_none());
    assert!(ui.playback.is_none());
    assert!(ui.selection.events.events.is_empty());
    assert_eq!(ui.selection.events.loaded, Kinds { deaths: false, defensives: false });
    assert_eq!(ui.notice.as_deref(), Some("This pull is no longer available."));
}

#[test]
fn event_failures_retry_with_backoff_without_blocking_the_other_row() {
    let (review, pull, _) = fixture();
    let mut ui = new_ui();
    ui.review = Some(review);
    ui.mode.active = true;
    ui.select(copy_pull(&pull), NOW);
    ui.worker.last_attempt = Some(NOW);
    ui.selection.events.requested.deaths = true;
    ui.worker.running = true;
    ui.worker.action = Some(Action::Events(copy_pull(&pull), EventKind::Deaths));
    // The outcome belongs to the view without a name, which is still the one under review.
    let failed = outcome(&ui, "", Err("Temporary failure".to_string()), true);
    assert!(!ui.tick(None, failed, 0, NOW).changed);
    assert!(matches!(ui.next_action(NOW), Some(Action::Events(_, EventKind::Defensives))));
    assert!(ui.event_retry_after(NOW).unwrap() <= 5_000_000);
    ui.selection.events.requested.defensives = true;
    ui.selection.events.loaded.defensives = true;
    assert!(ui.next_action(NOW).is_none());
    assert!(matches!(ui.next_action(NOW + 5_000_000), Some(Action::Events(_, EventKind::Deaths))));
    ui.worker.running = true;
    assert!(ui.next_action(NOW + 5_000_000).is_none());
    assert!(ui.event_retry_after(NOW).is_none());
    ui.worker.running = false;
    for _ in 0..100 {
        ui.record_event_failure(EventKind::Deaths, "Still offline".to_string(), NOW);
    }
    assert_eq!(ui.selection.events.requested, BOTH);
    assert_eq!(ui.event_retry_after(NOW), Some(60_000_000));
    assert_eq!(ui.event_retry_after(NOW + 60_000_000), Some(250_000));
    ui.select(pull, NOW);
    assert!(ui.selection.events.failures.deaths.is_none());
}

#[test]
fn repeated_failures_wait_five_fifteen_thirty_and_sixty_seconds() {
    let mut ui = new_ui();
    for seconds in [5, 15, 30, 60, 60] {
        ui.record_event_failure(EventKind::Defensives, "Offline".to_string(), NOW);
        assert_eq!(ui.selection.events.failures.defensives.as_ref().unwrap().retry_at, NOW + seconds * 1_000_000);
    }
}

#[test]
fn cooldown_saves_do_not_restart_media_or_clear_existing_timeline_rows() {
    let (review, pull, _) = fixture();
    let mut ui = new_ui();
    ui.review = Some(review);
    ui.mode.active = true;
    ui.select(copy_pull(&pull), NOW);
    ui.worker.last_attempt = Some(NOW);
    ui.selection.events.loaded = BOTH;
    ui.selection.events.requested = BOTH;
    ui.selection.events.events = vec![event(
        pull.start_ms + 1000,
        "Priest",
        200183,
        EventKind::Defensives,
        Some(DefensiveGroup::Healing),
    )];
    let position = ui.playback.as_ref().unwrap().position;
    for (group, expect_fetch, count) in
        [(Some(DefensiveGroup::Utility), false, 1), (None, false, 0), (Some(DefensiveGroup::Healing), true, 0)]
    {
        let rule = Rule { group, observation: Observation::Cast };
        let mut preferences = ui.cooldowns.current.duplicate();
        preferences.overrides.insert(200183, rule);
        ui.worker.running = true;
        ui.worker.action = Some(Action::SaveCooldowns);
        let saved = outcome(&ui, "", Ok(Data::Cooldowns(preferences)), true);
        assert!(!ui.tick(None, saved, 0, NOW).changed, "Preference saves must not request a player reload");
        assert_eq!(ui.playback.as_ref().unwrap().position, position);
        assert!(ui.mode.active && ui.selection.pull.is_some() && ui.review.is_some());
        assert_eq!(ui.selection.events.events.len(), count);
        if count > 0 {
            assert_eq!(ui.selection.events.events[0].group, rule.group);
        }
        assert_eq!(
            matches!(ui.next_action(NOW), Some(Action::Events(_, EventKind::Defensives))),
            expect_fetch
        );
        assert!(ui.selection.events.loaded.deaths);
    }
}

#[test]
fn expanding_tracking_keeps_previous_events_and_row_visibility_needs_no_fetch() {
    let (review, pull, _) = fixture();
    let mut ui = new_ui();
    ui.review = Some(review);
    ui.mode.active = true;
    ui.select(copy_pull(&pull), NOW);
    ui.worker.last_attempt = Some(NOW);
    ui.selection.events.loaded = BOTH;
    ui.selection.events.requested = BOTH;
    ui.selection.events.events.push(event(
        pull.start_ms + 1000,
        "Priest",
        200183,
        EventKind::Defensives,
        Some(DefensiveGroup::Healing),
    ));
    let mut preferences = ui.cooldowns.current.duplicate();
    preferences.hidden_groups.push(DefensiveGroup::Healing);
    assert!(!ui.accept_cooldown_preferences(preferences.duplicate()));
    assert!(ui.next_action(NOW).is_none());
    assert_eq!(ui.selection.events.events.len(), 1);
    preferences.overrides.insert(
        1234567,
        Rule { group: Some(DefensiveGroup::Utility), observation: Observation::Cast },
    );
    assert!(ui.accept_cooldown_preferences(preferences));
    assert_eq!(ui.selection.events.events.len(), 1);
    assert_eq!(ui.selection.events.events[0].ability_id, 200183);
    assert!(matches!(ui.next_action(NOW), Some(Action::Events(_, EventKind::Defensives))));
    ui.record_event_failure(EventKind::Defensives, "Slow provider".to_string(), NOW);
    assert_eq!(ui.selection.events.events.len(), 1);
}

#[test]
fn late_events_from_previous_pull_do_not_replace_current_selection() {
    let (mut review, pull, _) = fixture();
    let mut next = copy_pull(&pull);
    next.id = 2;
    next.start_ms += 300_000;
    next.end_ms += 300_000;
    review.pulls.push(copy_pull(&next));
    let mut ui = new_ui();
    ui.review = Some(review);
    ui.select(copy_pull(&pull), NOW);
    ui.select(copy_pull(&next), NOW);
    ui.worker.running = true;
    let late = outcome(
        &ui,
        "",
        Ok(Data::Events(
            pull_key(&pull),
            EventKind::Deaths,
            vec![event(pull.start_ms + 5_000, "Previous pull", 0, EventKind::Deaths, None)],
            Preferences::new(catalog()),
        )),
        true,
    );
    ui.tick(None, late, 0, NOW);
    assert_eq!(ui.selection.pull.as_ref().unwrap().id, next.id);
    assert!(ui.selection.events.events.is_empty());
    assert!(!ui.selection.events.loaded.deaths);
}

#[test]
fn events_of_one_kind_replace_the_old_ones_in_order_of_time() {
    let (review, pull, _) = fixture();
    let mut ui = new_ui();
    ui.review = Some(review);
    ui.select(copy_pull(&pull), NOW);
    ui.selection.events.events = vec![
        event(pull.start_ms + 3_000, "Old death", 0, EventKind::Deaths, None),
        event(pull.start_ms + 4_000, "Shield", 642, EventKind::Defensives, Some(DefensiveGroup::Personal)),
    ];
    ui.accept_events(
        &pull_key(&pull),
        EventKind::Deaths,
        vec![
            event(pull.start_ms + 9_000, "Late", 0, EventKind::Deaths, None),
            event(pull.start_ms + 4_000, "Tie", 0, EventKind::Deaths, None),
            event(pull.start_ms + 1_000, "Early", 0, EventKind::Deaths, None),
        ],
    );
    let actors: Vec<&str> = ui.selection.events.events.iter().map(|e| e.actor.as_str()).collect();
    assert_eq!(actors, vec!["Early", "Shield", "Tie", "Late"]);
    assert!(ui.selection.events.loaded.deaths && !ui.selection.events.loaded.defensives);
}

#[test]
fn rapid_pull_changes_keep_one_worker_and_schedule_only_the_latest_pull() {
    let (review, pull, _) = fixture();
    let mut ui = new_ui();
    ui.review = Some(review);
    ui.mode.active = true;
    ui.select(copy_pull(&pull), NOW);
    ui.worker.running = true;
    ui.worker.action = Some(Action::Events(copy_pull(&pull), EventKind::Deaths));
    ui.selection.events.requested.deaths = true;
    let generation = ui.worker.generation;
    for id in 2..=31 {
        let mut next = copy_pull(&pull);
        next.id = id;
        ui.select(next, NOW);
        assert!(ui.worker.running);
        assert!(ui.next_action(NOW).is_none());
    }
    assert!(ui.worker.cancelled);
    assert_eq!(ui.worker.generation, generation + 1);
    let obsolete = Incoming::Finished(Outcome {
        generation,
        key: String::new(),
        result: Err("Obsolete failure".to_string()),
        connected: true,
    });
    ui.tick(None, obsolete, 0, NOW);
    assert!(ui.notice.is_none());
    assert!(ui.selection.events.failures.deaths.is_none());
    assert!(matches!(ui.next_action(NOW), Some(Action::Events(pull, EventKind::Deaths)) if pull.id == 31));
}

#[test]
fn returning_to_same_pov_does_not_accept_its_cancelled_generation() {
    let (review, _, stream) = fixture();
    let key = pov_key(&stream);
    let mut other = copy_stream(&stream);
    other.user_id = "102".to_string();
    let mut ui = new_ui();
    ui.key = key.clone();
    ui.review = Some(review.duplicate());
    ui.worker.running = true;
    ui.worker.action = Some(Action::Refresh);
    let generation = ui.worker.generation;
    ui.tick(Some(&other), Incoming::Nothing, 0, NOW);
    ui.tick(Some(&stream), Incoming::Nothing, 0, NOW);
    let late = Incoming::Finished(Outcome {
        generation,
        key,
        result: Ok(Data::Review(review, Preferences::new(catalog()))),
        connected: true,
    });
    ui.tick(Some(&stream), late, 0, NOW);
    assert!(ui.review.is_none());
    assert!(!ui.worker.running);
    assert!(ui.notice.is_none());
}

#[test]
fn navigation_keeps_explicit_account_actions_but_drop_cancels_login() {
    let mut ui = new_ui();
    for action in [Action::Connect, Action::Disconnect] {
        ui.worker.action = Some(action);
        ui.cancel_read();
        assert!(!ui.worker.cancelled);
    }
    ui.worker.action = Some(Action::Connect);
    ui.abandon();
    assert!(ui.worker.cancelled);
    assert!(matches!(ui.worker.action, Some(Action::Connect)));
}

#[test]
fn navigation_cancels_a_read_once() {
    let mut ui = new_ui();
    ui.worker.action = Some(Action::Refresh);
    ui.cancel_read();
    assert!(ui.worker.cancelled);
    assert_eq!(ui.worker.generation, 1);
    ui.cancel_read();
    assert_eq!(ui.worker.generation, 1);
}

// ---------------------------------------------------------------- the provider's own controls

struct Samples {
    at: u64,
}

impl Samples {
    fn next(&mut self) -> u64 {
        self.at += 1_000;
        self.at
    }

    fn sample(&mut self, position: i64, playing: bool, generation: u64) -> PlaybackState {
        let mut state = PlaybackState::default();
        state.ready = true;
        state.position = position;
        state.playing = playing;
        state.provider_seek_generation = Some(generation);
        state.mark_polled_at(self.next());
        state
    }
}

fn provider_review_fixture() -> (ReviewUi, Stream, Pull, Pull, Samples) {
    let (mut review, first, stream) = fixture();
    let mut second = copy_pull(&first);
    second.id = 2;
    second.start_ms += 300_000;
    second.end_ms += 300_000;
    second.seconds += 300;
    review.pulls.push(copy_pull(&second));
    let mut ui = new_ui();
    ui.review = Some(review);
    ui.mode.connected = true;
    ui.mode.active = true;
    ui.worker.last_attempt = Some(NOW);
    ui.select(copy_pull(&first), NOW);
    let mut samples = Samples { at: NOW };
    ui.range.epoch = samples.next();
    ui.selection.events.loaded = BOTH;
    (ui, stream, first, second, samples)
}

const SETTLED: u64 = NOW + 100_000;

#[test]
fn direct_provider_seek_inside_pull_preserves_events_and_play_intent() {
    for playing in [false, true] {
        let (mut ui, _, first, _, mut samples) = provider_review_fixture();
        let start = ui.review.as_ref().unwrap().pull_video_start(&first);
        ui.observe_provider_playback(&samples.sample(start + at_seconds(10), playing, 0), SETTLED);
        ui.selection.selected_event = Some(SelectedEvent { at_ms: first.start_ms, actor: "Actor".to_string() });
        let state = samples.sample(start + 127_625_000, playing, 1);
        ui.observe_provider_playback(&state, SETTLED);
        assert_eq!(ui.selection.pull.as_ref().map(pull_key), Some(pull_key(&first)));
        assert_eq!(ui.range.timeline_position, Some(state.position));
        assert_eq!(ui.playback.as_ref().unwrap().position, state.position);
        assert_eq!(ui.playback.as_ref().unwrap().autoplay, playing);
        assert!(ui.selection.selected_event.is_none());
        assert_eq!(ui.selection.events.loaded, BOTH);
        assert!(ui.next_action(SETTLED).is_none(), "Within-pull seeking uses loaded events");
        assert!(ui.pause_at_pull_end(&state, SETTLED).is_none());
    }
}

#[test]
fn provider_seek_across_pulls_waits_for_settled_video_and_never_pauses_old_pull() {
    for playing in [false, true] {
        let (mut ui, _, first, second, mut samples) = provider_review_fixture();
        let start = ui.review.as_ref().unwrap().pull_video_start(&first);
        let target = ui.review.as_ref().unwrap().pull_video_start(&second) + 17_375_000;
        ui.observe_provider_playback(&samples.sample(start + at_seconds(209), playing, 0), SETTLED);
        let mut moving = samples.sample(target, playing, 1);
        moving.buffering = true;
        moving.media_seeking = Some(true);
        ui.observe_provider_playback(&moving, SETTLED);
        assert_eq!(ui.selection.pull.as_ref().map(pull_key), Some(pull_key(&first)));
        assert!(ui.range.seek_pending);
        assert!(ui.pause_at_pull_end(&moving, SETTLED).is_none());
        let settled = samples.sample(target, playing, 1);
        ui.observe_provider_playback(&settled, SETTLED);
        assert_eq!(ui.selection.pull.as_ref().map(pull_key), Some(pull_key(&second)));
        assert_eq!(ui.playback.as_ref().unwrap().position, target);
        assert_eq!(ui.playback.as_ref().unwrap().autoplay, playing);
        assert!(ui.pause_at_pull_end(&settled, SETTLED).is_none());
        assert!(matches!(
            ui.next_action(SETTLED),
            Some(Action::Events(p, EventKind::Deaths)) if p.id == second.id
        ));
        ui.selection.events.loaded = BOTH;
        ui.observe_provider_playback(&settled, SETTLED);
        assert_eq!(ui.selection.events.loaded, BOTH, "The same sample cannot invalidate events twice");
        let backwards = samples.sample(start + 75_500_000, playing, 2);
        ui.observe_provider_playback(&backwards, SETTLED);
        assert_eq!(ui.selection.pull.as_ref().unwrap().id, first.id);
        assert_eq!(ui.range.timeline_position, Some(backwards.position));
    }
}

#[test]
fn seeking_between_pulls_keeps_video_and_resumes_timeline_at_the_next_pull() {
    let (mut ui, _, first, second, mut samples) = provider_review_fixture();
    let start = ui.review.as_ref().unwrap().pull_video_start(&first);
    ui.observe_provider_playback(&samples.sample(start + at_seconds(100), true, 0), SETTLED);
    let state = samples.sample(start + 299_750_000, true, 1);
    ui.observe_provider_playback(&state, SETTLED);
    assert!(ui.selection.pull.is_none() && ui.playback.is_some());
    assert_eq!(ui.playback.as_ref().unwrap().position, state.position);
    assert!(ui.pause_at_pull_end(&state, SETTLED).is_none());
    assert!(ui.next_action(SETTLED).is_none(), "Gaps must not request unrelated pull events");
    assert!(ui.timeline(&state, SETTLED).is_none());
    let entering = samples.sample(start + at_seconds(300), true, 1);
    ui.observe_provider_playback(&entering, SETTLED);
    assert_eq!(ui.selection.pull.as_ref().unwrap().id, second.id);
    assert_eq!(ui.playback.as_ref().unwrap().position, entering.position);
    assert!(ui.pause_at_pull_end(&entering, SETTLED).is_none());
}

#[test]
fn workspace_after_fullscreen_uses_current_provider_position_without_navigation() {
    let (mut ui, _, first, second, mut samples) = provider_review_fixture();
    let start = ui.review.as_ref().unwrap().pull_video_start(&first);
    ui.observe_provider_playback(&samples.sample(start + at_seconds(60), true, 0), SETTLED);
    let state = samples.sample(start + 342_250_000, false, 1);
    ui.observe_provider_playback(&state, SETTLED);
    assert_eq!(ui.selection.pull.as_ref().unwrap().id, second.id);
    assert_eq!(ui.range.timeline_position, Some(state.position));
    assert!(!ui.playback.as_ref().unwrap().autoplay);
    assert_eq!(ui.comparison_position(&state, SETTLED).unwrap(), (second.start_ms + 42_250, false));
}

#[test]
fn ordinary_playback_still_pauses_at_selected_pull_end_with_provider_observation() {
    let (mut ui, _, first, _, mut samples) = provider_review_fixture();
    let end = ui.review.as_ref().unwrap().pull_video_start(&first) + at_seconds(210);
    ui.observe_provider_playback(&samples.sample(end - 1_000, true, 0), SETTLED);
    let state = samples.sample(end, true, 0);
    ui.observe_provider_playback(&state, SETTLED);
    assert_eq!(ui.selection.pull.as_ref().unwrap().id, first.id);
    assert_eq!(ui.pause_at_pull_end(&state, SETTLED), Some(PlaybackCommand::Pause));
    assert!(ui.pause_at_pull_end(&state, SETTLED).is_none());
}

#[test]
fn brief_provider_seek_past_boundary_uses_durable_seek_generation() {
    let (mut ui, _, first, _, mut samples) = provider_review_fixture();
    let end = ui.review.as_ref().unwrap().pull_video_start(&first) + at_seconds(210);
    ui.observe_provider_playback(&samples.sample(end - 100_000, true, 10), SETTLED);
    let state = samples.sample(end + 100_000, true, 11);
    ui.observe_provider_playback(&state, SETTLED);
    assert!(ui.selection.pull.is_none());
    assert!(ui.playback.as_ref().unwrap().autoplay);
    assert!(ui.pause_at_pull_end(&state, SETTLED).is_none());
}

#[test]
fn native_commands_and_stale_provider_samples_cannot_change_selected_pull() {
    let (mut ui, _, first, second, mut samples) = provider_review_fixture();
    let start = ui.review.as_ref().unwrap().pull_video_start(&first);
    ui.observe_provider_playback(&samples.sample(start + at_seconds(60), true, 0), SETTLED);
    let stale = samples.sample(start + at_seconds(340), true, 1);
    ui.seek_absolute(first.start_ms + 80_000, NOW).unwrap();
    ui.range.epoch = samples.next();
    ui.observe_provider_playback(&stale, SETTLED);
    assert_eq!(ui.selection.pull.as_ref().unwrap().id, first.id);
    assert_eq!(ui.playback.as_ref().unwrap().position, start + at_seconds(80));
    let mut pending = samples.sample(start + at_seconds(340), true, 1);
    pending.seeking = Some(start + at_seconds(80));
    pending.playback_intent = Some(true);
    ui.observe_provider_playback(&pending, SETTLED);
    assert_eq!(ui.selection.pull.as_ref().unwrap().id, first.id);
    ui.observe_provider_playback(&samples.sample(start + at_seconds(80), true, 2), SETTLED);
    assert!(!ui.range.seek_pending);
    ui.observe_provider_playback(&samples.sample(start + at_seconds(340), true, 3), SETTLED);
    assert_eq!(ui.selection.pull.as_ref().unwrap().id, second.id);
}

#[test]
fn settled_playback_pauses_once_at_pull_end_and_rearms_on_replay() {
    let (review, pull, _) = fixture();
    let end = review.pull_video_start(&pull) + at_seconds(210);
    let mut ui = new_ui();
    ui.review = Some(review);
    ui.mode.active = true;
    ui.select(copy_pull(&pull), NOW);
    let mut state = PlaybackState::default();
    state.ready = true;
    state.playing = true;
    state.position = end - 1_000;
    state.mark_polled_at(NOW);
    assert!(ui.pause_at_pull_end(&state, NOW).is_none());
    state.position = end;
    assert_eq!(ui.pause_at_pull_end(&state, NOW), Some(PlaybackCommand::Pause));
    state.position = end + at_seconds(2);
    assert!(ui.pause_at_pull_end(&state, NOW).is_none(), "No pause spam while acknowledgement is pending");
    state.position = end - 100_000;
    assert!(ui.pause_at_pull_end(&state, NOW).is_none());
    state.position = end;
    assert!(ui.pause_at_pull_end(&state, NOW).is_none(), "Small SDK jitter must not re-arm the boundary");
    ui.seek_absolute(pull.start_ms, NOW + 1).unwrap();
    state.position = end - at_seconds(200);
    state.mark_polled_at(NOW + 2);
    assert!(ui.pause_at_pull_end(&state, NOW + 2).is_none());
    state.position = end;
    assert_eq!(ui.pause_at_pull_end(&state, NOW + 2), Some(PlaybackCommand::Pause));
}

#[test]
fn pull_boundary_ignores_old_view_buffering_and_unacknowledged_actions() {
    let (review, pull, _) = fixture();
    let mut ui = new_ui();
    let mut state = PlaybackState::default();
    state.ready = true;
    state.playing = true;
    state.position = review.pull_video_start(&pull) + at_seconds(240);
    state.mark_polled_at(NOW - 1);
    ui.review = Some(review);
    ui.mode.active = true;
    ui.select(pull, NOW);
    assert!(ui.pause_at_pull_end(&state, NOW).is_none(), "Old view sample cannot pause new playback");
    state.mark_polled_at(NOW);
    state.buffering = true;
    assert!(ui.pause_at_pull_end(&state, NOW).is_none());
    state.buffering = false;
    state.seeking = Some(state.position - at_seconds(180));
    assert!(ui.pause_at_pull_end(&state, NOW).is_none());
    state.seeking = None;
    state.playback_intent = Some(true);
    assert!(ui.pause_at_pull_end(&state, NOW).is_none());
    state.playback_intent = Some(false);
    assert!(ui.pause_at_pull_end(&state, NOW).is_none());
    state.playback_intent = None;
    ui.aligning = true;
    assert!(ui.pause_at_pull_end(&state, NOW).is_none(), "Calibration may inspect outside the pull");
    ui.aligning = false;
    assert_eq!(ui.pause_at_pull_end(&state, NOW), Some(PlaybackCommand::Pause));
}

#[test]
fn pull_outcome_names_the_wipe_phase_without_guessing_missing_data() {
    assert_eq!(pull_outcome(false, Some(2), false), "Wipe · Phase 2");
    assert_eq!(pull_outcome(false, Some(1), true), "Wipe · Intermission 1");
    assert_eq!(pull_outcome(false, None, false), "Wipe");
    assert_eq!(pull_outcome(true, Some(3), false), "Kill");
}

#[test]
fn pov_capture_uses_exact_pending_seek_and_preserves_pause() {
    let (review, pull, _) = fixture();
    let mut ui = new_ui();
    ui.review = Some(review.duplicate());
    ui.select(copy_pull(&pull), NOW);
    let target = review.pull_video_start(&pull) + 137_625_000;
    ui.seek_absolute_with_playback(pull.start_ms + 137_625, false, NOW).unwrap();
    let mut state = PlaybackState::default();
    state.ready = true;
    state.playing = true;
    state.position = target - at_seconds(20);
    state.seeking = Some(target);
    ui.capture_pov_position(&state, NOW);
    let focus = ui.pending_focus.as_ref().unwrap();
    assert_eq!(focus.at_ms, pull.start_ms + 137_625);
    assert!(!focus.autoplay);
}

#[test]
fn pov_capture_preserves_pause_before_the_provider_acknowledges_it() {
    let (review, pull, _) = fixture();
    let mut ui = new_ui();
    ui.review = Some(review.duplicate());
    ui.select(copy_pull(&pull), NOW);
    let mut state = PlaybackState::default();
    state.ready = true;
    state.playing = true;
    state.position = review.pull_video_start(&pull) + 137_625_000;
    state.playback_intent = Some(false);
    state.mark_polled_at(NOW);
    ui.capture_pov_position(&state, NOW);
    let focus = ui.pending_focus.as_ref().unwrap();
    assert_eq!(focus.at_ms, pull.start_ms + 137_625);
    assert!(!focus.autoplay, "A stale playing sample must not undo Pause during a POV switch");
}

#[test]
fn a_marker_search_hands_on_the_moment_it_goes_back_to() {
    let (review, pull, _) = fixture();
    let mut ui = new_ui();
    ui.review = Some(review);
    ui.mode.active = true;
    ui.select(copy_pull(&pull), NOW);
    ui.marker.busy = true;
    ui.marker.intent = Some(MarkerIntent { elapsed: 12_345_600, playing: false });
    assert_eq!(
        ui.comparison_position(&PlaybackState::default(), NOW),
        Some((pull.start_ms + 12_346, false))
    );
    ui.capture_pov_position(&PlaybackState::default(), NOW);
    let focus = ui.pending_focus.as_ref().unwrap();
    assert_eq!((focus.at_ms, focus.autoplay), (pull.start_ms + 12_346, false));
}

// ---------------------------------------------------------------- the timeline

#[test]
fn dragging_seekbar_keeps_event_cursor_under_thumb_and_preserves_pause() {
    let (review, pull, _) = fixture();
    let start = review.pull_video_start(&pull);
    let mut ui = new_ui();
    ui.review = Some(review);
    ui.select(pull, NOW);
    let mut state = PlaybackState::default();
    state.ready = true;
    state.position = start;
    state.mark_polled_at(NOW);
    let held = 210_000_000 * 687 / 1000;
    ui.drag(held);
    let timeline = ui.timeline(&state, NOW).unwrap();
    assert_eq!(timeline.handle, held);
    assert!(timeline.show_cursor);
    let Some(PlaybackCommand::SeekPaused(position)) = ui.drop_handle(held, &state, NOW) else {
        panic!("Paused drag must emit a paused seek");
    };
    assert_eq!(position - start, held);
    assert!(ui.selection.scrub.is_none());
}

#[test]
fn timeline_keeps_requested_cursor_until_seek_finishes_then_holds_during_buffering() {
    let (review, pull, _) = fixture();
    let start = review.pull_video_start(&pull);
    let mut ui = new_ui();
    ui.review = Some(review);
    ui.select(copy_pull(&pull), NOW);
    let mut state = PlaybackState::default();
    state.ready = true;
    state.playing = true;
    state.position = start + at_seconds(140);
    state.mark_polled_at(NOW);
    assert_eq!(ui.timeline(&state, NOW).unwrap().handle, at_seconds(140));
    let command = ui.seek_absolute_with_playback(pull.start_ms + 72_000, true, NOW + 1);
    assert!(matches!(command, Some(PlaybackCommand::Seek(_))));
    // The first frame can still carry the sample from before the gesture.
    assert_eq!(ui.timeline(&state, NOW + 1).unwrap().handle, at_seconds(72));
    state.seeking = Some(start + at_seconds(72));
    state.buffering = true;
    state.playing = false;
    state.playback_intent = Some(true);
    state.mark_polled_at(NOW + 2);
    assert_eq!(ui.timeline(&state, NOW + 2).unwrap().handle, at_seconds(72));
    assert!(ui.confirmed_video_position(&state, NOW + 2).is_none());
    assert!(ui.pause_at_pull_end(&state, NOW + 2).is_none());
    // Settling replaces the target with actual media time.
    state.seeking = None;
    state.buffering = false;
    state.playing = true;
    state.playback_intent = None;
    state.position = start + 73_250_000;
    state.mark_polled_at(NOW + 3);
    assert_eq!(ui.timeline(&state, NOW + 3).unwrap().handle, 73_250_000);
    state.buffering = true;
    assert_eq!(ui.timeline(&state, NOW + 3).unwrap().handle, 73_250_000);
    assert!(ui.confirmed_video_position(&state, NOW + 3).is_none());
}

#[test]
fn timeline_click_seeks_once_and_accepts_a_new_target_while_waiting() {
    let (review, pull, _) = fixture();
    let start = review.pull_video_start(&pull);
    let mut ui = new_ui();
    ui.review = Some(review);
    ui.select(pull, NOW);
    for target in [72_125_000, 110_375_000] {
        let Some(PlaybackCommand::Seek(position)) = ui.click_timeline(target, NOW) else {
            panic!("Clicking the timeline must seek and resume playback");
        };
        assert_eq!(position - start, target as i64);
        let mut state = PlaybackState::default();
        state.ready = true;
        state.seeking = Some(position);
        state.buffering = true;
        state.playback_intent = Some(true);
        state.mark_polled_at(NOW);
        for _ in 0..3 {
            assert!(ui.pause_at_pull_end(&state, NOW).is_none(), "Waiting must not resend a seek");
        }
    }
}

#[test]
fn the_transport_button_replays_a_pull_that_is_over() {
    let (review, pull, _) = fixture();
    let start = review.pull_video_start(&pull);
    let mut ui = new_ui();
    ui.review = Some(review);
    ui.mode.active = true;
    ui.select(pull, NOW);
    let mut state = PlaybackState::default();
    state.ready = true;
    state.playing = true;
    state.position = start + at_seconds(100);
    state.mark_polled_at(NOW);
    let playing = ui.timeline(&state, NOW).unwrap();
    assert!(playing.playing && !playing.replay);
    assert_eq!(ui.press_play(&playing, NOW), Some(PlaybackCommand::Pause));
    state.playing = false;
    let paused = ui.timeline(&state, NOW).unwrap();
    assert_eq!(ui.press_play(&paused, NOW), Some(PlaybackCommand::Play));
    state.position = start + at_seconds(212);
    let over = ui.timeline(&state, NOW).unwrap();
    assert!(over.replay && !over.show_cursor);
    assert_eq!((over.elapsed, over.handle), (at_seconds(212), at_seconds(210)));
    assert_eq!(ui.press_play(&over, NOW), Some(PlaybackCommand::Seek(start)));
}

#[test]
fn utility_timeline_row_appears_only_after_a_spell_is_explicitly_enabled() {
    for enabled in [false, true] {
        let mut ui = new_ui();
        if enabled {
            ui.cooldowns.current.overrides.insert(
                197908,
                Rule { group: Some(DefensiveGroup::Utility), observation: Observation::Cast },
            );
        }
        assert_eq!(ui.lanes().iter().any(|group| lane_label(Some(*group)) == "Buffs / utility"), enabled);
    }
}

#[test]
fn timeline_reclaims_space_and_restores_it_when_categories_are_toggled() {
    let mut ui = new_ui();
    let mut grids = Vec::new();
    let all = vec![
        DefensiveGroup::Personal,
        DefensiveGroup::External,
        DefensiveGroup::Healing,
        DefensiveGroup::DamageReduction,
        DefensiveGroup::Utility,
    ];
    for hidden in [vec![], vec![DefensiveGroup::Healing], all, vec![]] {
        ui.cooldowns.current.hidden_groups = hidden;
        grids.push(ui.timeline_grid_height());
    }
    assert_eq!(grids, vec![130, 108, 42, 130]);
}

#[test]
fn nearby_markers_share_a_cluster() {
    assert_eq!(clusters(&vec![0, 10, 16, 17, 30, 34], 17), vec![0, 0, 0, 3, 3, 5]);
    assert!(clusters(&vec![], 17).is_empty());
    let events = vec![
        event(1, "A", 0, EventKind::Deaths, None),
        event(2, "B", 642, EventKind::Defensives, Some(DefensiveGroup::Personal)),
        event(3, "C", 0, EventKind::Deaths, None),
    ];
    assert_eq!(lane_events(&events, None), vec![0, 2]);
    assert_eq!(lane_events(&events, Some(DefensiveGroup::Personal)), vec![1]);
}

#[test]
fn the_event_list_shows_three_deaths_until_asked_for_more() {
    let mut ui = new_ui();
    let names = ["Ada", "Bo", "Cy", "Dee", "Eve"];
    ui.selection.events.events =
        names.iter().enumerate().map(|(i, name)| event(i as i64, name, 0, EventKind::Deaths, None)).collect();
    let filter = ui.cooldowns.filter;
    assert_eq!(ui.list.listed(&ui.selection.events.events, filter), vec![0, 1, 2]);
    ui.list.search = "E".to_string();
    assert_eq!(ui.list.listed(&ui.selection.events.events, filter), vec![0, 1, 2, 3, 4]);
    ui.list.search = "DEE".to_string();
    assert_eq!(ui.list.listed(&ui.selection.events.events, filter), vec![3]);
    ui.list.search = String::new();
    ui.list.show_all_deaths = true;
    assert_eq!(ui.list.listed(&ui.selection.events.events, filter).len(), 5);
    assert_eq!(EventList::count(&ui.selection.events.events, EventKind::Deaths, filter), 5);
    assert_eq!(EventList::count(&ui.selection.events.events, EventKind::Defensives, filter), 0);
}

#[test]
fn choosing_an_event_shows_it_in_the_list() {
    let (review, pull, _) = fixture();
    let mut ui = new_ui();
    ui.review = Some(review.duplicate());
    ui.select(copy_pull(&pull), NOW);
    ui.selection.events.events = vec![event(
        pull.start_ms + 5_250,
        "Healer",
        200183,
        EventKind::Defensives,
        Some(DefensiveGroup::Healing),
    )];
    ui.list.search = "nothing".to_string();
    let command = ui.choose_event(0, NOW);
    assert_eq!(command, Some(PlaybackCommand::Seek(review.pull_video_start(&pull) + 5_250_000)));
    assert_eq!(ui.list.kind, EventKind::Defensives);
    assert!(ui.list.search.is_empty() && ui.list.show_all_deaths && ui.selection.scroll_to_event);
    assert_eq!(ui.selection.selected_event.as_ref().unwrap().actor, "Healer");
}

// ---------------------------------------------------------------- tracked spells

#[test]
fn server_catalogue_refresh_keeps_user_choices_and_invalidates_cooldown_events_once() {
    let mut ui = new_ui();
    ui.cooldowns.current.overrides.insert(200183, Rule { group: None, observation: Observation::Cast });
    ui.cooldowns.current.hidden_groups.push(DefensiveGroup::Healing);
    let mut editor = CooldownEditor::new(ui.cooldowns.current.duplicate(), &vec![], DefensiveGroup::Healing);
    editor.draft.overrides.insert(
        120517,
        Rule { group: Some(DefensiveGroup::Healing), observation: Observation::Buff },
    );
    ui.cooldowns.editor = Some(editor);
    // A pending local timeline toggle must survive an older worker read.
    ui.cooldowns.save = Some(ui.cooldowns.current.duplicate());
    let incoming = || {
        Preferences::new(Catalog {
            spells: vec![
                spell(200183, "Apotheosis", DefensiveGroup::DamageReduction, true),
                spell(1234567, "New raid cooldown", DefensiveGroup::Healing, true),
            ],
        })
    };
    ui.selection.events.loaded = BOTH;
    ui.selection.events.requested = BOTH;
    assert!(ui.accept_cooldown_preferences(incoming()));
    assert_eq!(ui.cooldowns.current.classify(200183), None);
    assert_eq!(ui.cooldowns.current.classify(1234567), Some(DefensiveGroup::Healing));
    assert!(!ui.cooldowns.current.visible(DefensiveGroup::Healing));
    assert_eq!(ui.selection.events.loaded, Kinds { deaths: true, defensives: false });
    assert_eq!(ui.selection.events.requested, Kinds { deaths: true, defensives: false });
    assert_eq!(
        ui.cooldowns.editor.as_ref().unwrap().draft.classify(120517),
        Some(DefensiveGroup::Healing)
    );
    assert!(!ui.accept_cooldown_preferences(incoming()));
    assert_eq!(ui.cooldowns.save.as_ref().unwrap().classify(200183), None);
}

#[test]
fn cooldown_editor_caches_observed_names_and_refreshes_only_on_new_data() {
    let mut events: Vec<RaidEvent> = (0..20_000)
        .map(|_| {
            let mut seen = event(0, "", 1234567, EventKind::Defensives, Some(DefensiveGroup::Healing));
            seen.ability = "Observed Name".to_string();
            seen
        })
        .collect();
    events[1].ability = "Alternate Name".to_string();
    let mut editor = CooldownEditor::new(Preferences::new(catalog()), &events, DefensiveGroup::Healing);
    assert_eq!(editor.observed_names.len(), 1);
    let names = &editor.observed_names[&1234567];
    assert_eq!(names.display, "Observed Name");
    assert_eq!(names.search.len(), 2);
    assert!(names.search.iter().any(|name| name == "observed name"));
    assert!(names.search.iter().any(|name| name == "alternate name"));
    events.clear();
    // Painting/search can continue from the snapshot without the event list.
    assert_eq!(editor.name(1234567), "Observed Name");
    editor.refresh_names(&events);
    assert!(editor.observed_names.is_empty());
    assert_eq!(editor.name(1234567), "Custom spell");
    assert_eq!(editor.name(642), "Divine Shield");
}

#[test]
fn a_full_list_of_changes_takes_no_more_spells() {
    let mut preferences = Preferences::new(catalog());
    for id in 1..=128 {
        preferences.overrides.insert(
            id,
            Rule { group: Some(DefensiveGroup::Healing), observation: Observation::Buff },
        );
    }
    let mut editor = CooldownEditor::new(preferences, &vec![], DefensiveGroup::Healing);
    let rule = Rule { group: Some(DefensiveGroup::Utility), observation: Observation::Cast };
    editor.apply_rule(5000, rule);
    assert_eq!(editor.draft.overrides.len(), 128);
    assert_eq!(
        editor.error.as_deref(),
        Some("Up to 128 spell changes can be saved. Reset a changed spell to make room.")
    );
    editor.apply_rule(7, rule);
    assert_eq!(editor.draft.classify(7), Some(DefensiveGroup::Utility));
    editor.reset_spell(9);
    editor.error = None;
    editor.apply_rule(5000, rule);
    assert!(editor.error.is_none());
    assert_eq!(editor.draft.overrides.len(), 128);
}

#[test]
fn category_visibility_does_not_hide_events_or_change_tracked_spells() {
    let (review, pull, _) = fixture();
    let mut ui = new_ui();
    ui.review = Some(review);
    ui.select(copy_pull(&pull), NOW);
    ui.list.kind = EventKind::Defensives;
    ui.selection.events.loaded.defensives = true;
    ui.selection.events.events.push(event(
        pull.start_ms + 1000,
        "Healing officer",
        200183,
        EventKind::Defensives,
        Some(DefensiveGroup::Healing),
    ));
    let before: Vec<Option<DefensiveGroup>> =
        ui.cooldowns.current.ids().iter().map(|id| ui.cooldowns.current.classify(*id)).collect();
    assert!(ui.show_group(false));
    assert!(!ui.cooldowns.current.visible(DefensiveGroup::Healing));
    assert_eq!(ui.list.listed(&ui.selection.events.events, ui.cooldowns.filter), vec![0]);
    let after: Vec<Option<DefensiveGroup>> =
        ui.cooldowns.current.ids().iter().map(|id| ui.cooldowns.current.classify(*id)).collect();
    assert_eq!(before, after);
    assert_eq!(ui.cooldowns.filter, DefensiveGroup::Healing);
    assert!(ui.cooldowns.save.is_some());
    assert!(ui.show_group(true));
    assert!(ui.cooldowns.current.visible(DefensiveGroup::Healing));
}

#[test]
fn editor_tracks_optional_spells_and_restores_their_default() {
    let mut editor = CooldownEditor::new(Preferences::new(catalog()), &vec![], DefensiveGroup::Healing);
    assert_eq!(editor.category(120517), DefensiveGroup::Healing); // Optional Halo.
    assert_eq!(editor.category(642), DefensiveGroup::Personal);
    let mut rule = editor.draft.rule(120517).unwrap();
    assert_eq!(rule.group, None);
    rule.group = Some(editor.group);
    editor.apply_rule(120517, rule);
    assert_eq!(editor.draft.classify(120517), Some(DefensiveGroup::Healing));
    rule.group = None;
    editor.apply_rule(120517, rule);
    assert!(!editor.draft.overrides.contains_key(&120517));
    let fresh = Preferences::new(catalog());
    assert!(same_overrides(&editor.draft.overrides, &fresh.overrides));
    assert!(editor.draft.catalog.same(&fresh.catalog));
    assert_eq!(editor.draft.hidden_groups, fresh.hidden_groups);
}

#[test]
fn changes_are_stored_only_where_they_differ_from_the_catalogue() {
    let mut editor = CooldownEditor::new(Preferences::new(catalog()), &vec![], DefensiveGroup::Healing);
    editor.set_tracked(120517, true);
    assert_eq!(editor.draft.overrides.len(), 1);
    editor.set_tracked(120517, false);
    assert!(editor.draft.overrides.is_empty(), "The catalogue's own rule needs no entry");
    editor.set_category(642, DefensiveGroup::Utility);
    assert_eq!(editor.draft.overrides.len(), 1);
    editor.set_category(642, DefensiveGroup::Personal);
    assert!(editor.draft.overrides.is_empty());
}

#[test]
fn hidden_groups_are_kept_once_and_in_order() {
    let mut preferences = Preferences::new(catalog());
    for group in [DefensiveGroup::Healing, DefensiveGroup::Utility, DefensiveGroup::Healing] {
        preferences.set_visible(group, false);
    }
    assert_eq!(preferences.hidden_groups, vec![DefensiveGroup::Utility, DefensiveGroup::Healing]);
    preferences.set_visible(DefensiveGroup::Utility, true);
    assert_eq!(preferences.hidden_groups, vec![DefensiveGroup::Healing]);
}

#[test]
fn editor_save_queues_changes_and_cancel_discards_them() {
    for save in [false, true] {
        let mut ui = new_ui();
        let mut editor = CooldownEditor::new(Preferences::new(catalog()), &vec![], DefensiveGroup::Healing);
        editor.apply_rule(
            120517,
            Rule { group: Some(DefensiveGroup::Healing), observation: Observation::Cast },
        );
        ui.cooldowns.editor = Some(editor);
        if save {
            ui.save_editor(Ok(()));
        } else {
            assert!(ui.close_editor());
        }
        assert!(ui.cooldowns.current.overrides.is_empty());
        if save {
            assert_eq!(
                ui.cooldowns.save.as_ref().unwrap().classify(120517),
                Some(DefensiveGroup::Healing)
            );
            assert!(!ui.close_editor(), "A pending save keeps its editor");
        } else {
            assert!(ui.cooldowns.save.is_none() && ui.cooldowns.editor.is_none());
        }
    }
}

#[test]
fn the_editor_lists_its_group_by_name_and_search() {
    let mut editor = CooldownEditor::new(Preferences::new(catalog()), &vec![], DefensiveGroup::Healing);
    let rows = editor.listed();
    assert_eq!(rows, vec![200183, 120517]);
    assert_eq!(editor.tracked_count(&rows), 1);
    editor.search = "HAL".to_string();
    assert_eq!(editor.listed(), vec![120517]);
    editor.search = "2001".to_string();
    assert_eq!(editor.listed(), vec![200183]);
    editor.add_spell(Err("Not a spell".to_string()));
    assert_eq!(editor.error.as_deref(), Some("Not a spell"));
    editor.add_spell(Ok(99));
    assert_eq!((editor.search.as_str(), editor.listed()), ("99", vec![99]));
    editor.set_tracked(99, false);
    assert_eq!(editor.draft.classify(99), None);
    assert_eq!(editor.category(99), DefensiveGroup::Healing);
    editor.set_category(200183, DefensiveGroup::Utility);
    editor.set_observation(200183, Observation::Buff);
    assert_eq!(
        editor.draft.rule(200183),
        Some(Rule { group: Some(DefensiveGroup::Utility), observation: Observation::Buff })
    );
    editor.reset_category();
    assert_eq!(editor.listed(), vec![200183, 120517]);
    assert!(editor.draft.overrides.is_empty());
}

#[test]
fn review_placeholder_is_only_painted_when_native_player_is_absent() {
    let (review, pull, _) = fixture();
    let mut ui = new_ui();
    assert_eq!(ui.placeholder(), "Choose a pull to watch");
    ui.worker.running = true;
    assert_eq!(ui.placeholder(), "Finding raid pulls…");
    ui.worker.running = false;
    ui.review = Some(review);
    ui.mode.connected = true;
    ui.mode.active = true;
    ui.select(copy_pull(&pull), NOW);
    assert_eq!(ui.placeholder(), "Opening replay…");
    ui.capture_pov_position(&PlaybackState::default(), NOW);
    ui.leave_view();
    assert_eq!(ui.placeholder(), "Finding this view…");
    assert_eq!(
        ui.pending_label().as_deref(),
        Some("A very long encounter name · Opening POV…")
    );
}

// ---------------------------------------------------------------- words

#[test]
fn times_and_labels_read_as_people_write_them() {
    assert_eq!(clock(at_seconds(0)), "0:00");
    assert_eq!(clock(at_seconds(605) + 999_999), "10:05");
    assert_eq!(clock(-5), "0:00");
    assert_eq!(relative_clock(at_seconds(-65)), "-1:05");
    assert_eq!(relative_clock(at_seconds(65)), "1:05");
    let (_, pull, stream) = fixture();
    assert_eq!(pull_key(&pull), "abcdefghABCDEFGH:1");
    assert_eq!(remaining_label(&pull).as_deref(), Some("75.8% remaining"));
    assert_eq!(pov_key(&stream), "101:youtube:abcDEF_12-3:");
    let labels = vec![RecordingLabel {
        video: "youtube:abcDEF_12-3".to_string(),
        when: "Tuesday".to_string(),
        title: "Raid".to_string(),
    }];
    assert_eq!(
        pov_display_label(&labels, &stream),
        "A guildmate with a long character name · YouTube · Tuesday"
    );
    assert_eq!(
        pov_display_label(&vec![], &stream),
        "A guildmate with a long character name · YouTube"
    );
    assert_eq!(pov_detail(&labels, &stream, true), "YouTube · Watching · Tuesday");
    assert_eq!(class_color("Priest"), (255, 255, 255));
    assert_eq!(class_color("Warrior"), (198, 155, 109));
    assert_eq!(class_color("Tinker"), (215, 220, 230));
    let mut seen = event(0, "Ada", 1, EventKind::Defensives, None);
    seen.target = Some("Bo".to_string());
    seen.observed_buff = true;
    assert_eq!(event_description(&seen), "Ada · Apotheosis on Bo · buff applied");
    assert_eq!(event_detail(&seen), "Apotheosis on Bo · buff applied");
    assert_eq!(event_description(&event(0, "Ada", 1, EventKind::Deaths, None)), "Ada died");
    assert_eq!(event_detail(&event(0, "Ada", 1, EventKind::Deaths, None)), "Died");
}

#[test]
fn unavailable_views_say_why() {
    let (_, _, current) = fixture();
    let mut other = copy_stream(&current);
    other.user_id = "102".to_string();
    assert_eq!(pov_unavailable(&other, &current), None);
    other.status = Status::Checking;
    assert_eq!(pov_unavailable(&other, &current), Some("Brick is checking whether this stream is live."));
    other.status = Status::Unknown;
    assert_eq!(
        pov_unavailable(&other, &current),
        Some("This stream's status is unavailable. Brick will check again.")
    );
    other.status = Status::Offline;
    assert_eq!(pov_unavailable(&other, &current), Some("This player is offline."));
    other.broadcast_state = Some("upcoming".to_string());
    assert_eq!(pov_unavailable(&other, &current), Some("This broadcast hasn't started yet."));
    other.broadcast_state = Some("ended".to_string());
    assert_eq!(
        pov_unavailable(&other, &current),
        Some("This broadcast has ended. Its replay isn't available in this view.")
    );
}

#[test]
fn only_one_metadata_peer_holds_the_permit() {
    let mut running = false;
    let permit = PeerMetadataPermit::acquire(&mut running).unwrap();
    assert!(PeerMetadataPermit::acquire(&mut running).is_none());
    permit.release(&mut running);
    assert!(PeerMetadataPermit::acquire(&mut running).is_some());
    let mut peer = new_ui();
    peer.mode.metadata_only = true;
    assert!(peer.start(Action::Refresh, false, NOW).is_none());
    assert_eq!(peer.start(Action::Refresh, true, NOW), Some(1));
    assert!(peer.start(Action::Refresh, true, NOW).is_none());
}

#[test]
fn signing_in_again_forgets_the_review_but_keeps_the_view() {
    let (review, pull, stream) = fixture();
    let mut ui = new_ui();
    ui.key = pov_key(&stream);
    ui.review = Some(review);
    ui.mode.active = true;
    ui.select(pull, NOW);
    assert!(ui.start(Action::Connect, false, NOW).is_some());
    assert!(ui.mode.signing_in);
    let key = ui.key.clone();
    let result = outcome(&ui, &key, Ok(Data::Authentication), true);
    let plan = ui.tick(Some(&stream), result, 0, NOW);
    assert!(!plan.changed && matches!(plan.read, Some(Action::Refresh)));
    assert!(ui.review.is_none() && ui.selection.pull.is_none() && ui.active());
    assert!(!ui.mode.signing_in && ui.mode.connected);
}

#[test]
fn a_worker_that_stops_is_tried_again_later() {
    let (_, _, stream) = fixture();
    let mut ui = new_ui();
    ui.key = pov_key(&stream);
    ui.start(Action::Refresh, false, NOW).unwrap();
    ui.tick(Some(&stream), Incoming::Stopped, 0, NOW);
    assert_eq!(ui.notice.as_deref(), Some("Warcraft Logs stopped loading. Brick will retry shortly."));
    assert!(ui.mode.connection_checked && !ui.worker.running);
    assert!(ui.next_action(NOW + 59_000_000).is_none());
    assert!(matches!(ui.next_action(NOW + 60_000_000), Some(Action::Refresh)));
}

#[test]
fn a_comparison_peer_moves_this_review_without_a_command() {
    let (mut ui, _, first, second, _) = provider_review_fixture();
    let target = ui.review.as_ref().unwrap().pull_video_start(&second) + 5_000_000;
    ui.follow_comparison_position(Some(copy_pull(&second)), target, false);
    assert_eq!(ui.selection.pull.as_ref().unwrap().id, first.id, "Only a comparison is moved");
    ui.set_comparing(true);
    ui.follow_comparison_position(Some(copy_pull(&second)), target, false);
    assert_eq!(ui.selection.pull.as_ref().unwrap().id, second.id);
    assert_eq!(ui.playback.as_ref().unwrap().position, target);
    assert!(!ui.playback.as_ref().unwrap().autoplay);
    assert!(!ui.selection.events.loaded.deaths);
    ui.selection.events.loaded = BOTH;
    ui.follow_comparison_position(Some(second), target + 1_000_000, true);
    assert_eq!(ui.selection.events.loaded, BOTH, "The same pull keeps its events");
}

// ---------------------------------------------------------------- one frame of the workspace

#[test]
fn fullscreen_pull_controls_navigate_without_reload_and_keep_popup_above_video() {
    let (mut ui, _, first, second, _) = provider_review_fixture();
    assert_eq!(ui.current_pull(), Some(0));
    let expected = ui.review.as_ref().unwrap().pull_video_start(&second);
    assert_eq!(ui.step_pull(false, true, None, SETTLED), Some(PlaybackCommand::Seek(expected)));
    assert_eq!(ui.selection.pull.as_ref().unwrap().id, second.id);
    assert!(ui.active() && ui.playback().is_some());
    assert_eq!(ui.step_pull(false, true, None, SETTLED), None, "Last pull disables Next");
    assert!(matches!(ui.step_pull(true, false, None, SETTLED), Some(PlaybackCommand::Seek(_))));
    assert_eq!(ui.selection.pull.as_ref().unwrap().id, first.id);
    assert_eq!(ui.step_pull(false, false, Some(0), SETTLED), None, "The present pull is not opened again");
    assert_eq!(ui.step_pull(false, false, Some(1), SETTLED), Some(PlaybackCommand::Seek(expected)));
    ui.review = None;
    assert_eq!(ui.current_pull(), None);
    assert_eq!(ui.step_pull(true, true, Some(0), SETTLED), None);
}

#[test]
fn views_are_offered_for_the_moment_and_a_comparison_leads() {
    let (mut ui, stream, first, _, _) = provider_review_fixture();
    let mut later = copy_stream(&stream);
    later.recording_id = Some("laterVideo1".to_string());
    later.channel_id = "laterVideo1".to_string();
    later.user_id = "102".to_string();
    later.replay_start_ms = Some(first.start_ms - 1_000);
    later.replay_end_ms = Some(first.start_ms + 60_000);
    let povs = vec![copy_stream(&stream), later];
    let state = PlaybackState::default();
    assert_eq!(ui.covered_views(&povs, &state, SETTLED, false, None), vec![true, true]);
    let beyond = Some(first.start_ms + 60_000);
    assert_eq!(ui.covered_views(&povs, &state, SETTLED, false, beyond), vec![true, false]);
    assert_eq!(
        ui.covered_views(&povs, &state, SETTLED, true, beyond),
        vec![true, true],
        "A command of this frame comes before the comparison"
    );
    ui.close_review();
    assert_eq!(ui.covered_views(&povs, &state, SETTLED, false, beyond), vec![false, false]);
}

#[test]
fn the_end_of_a_frame_leaves_views_and_reviews() {
    let (mut ui, _, _, _, _) = provider_review_fixture();
    assert!(!ui.end_frame(false, false, false, Some(PlaybackCommand::Pause)));
    assert!(!ui.playback().unwrap().autoplay);
    assert!(!ui.end_frame(false, false, false, Some(PlaybackCommand::Play)));
    assert!(ui.playback().unwrap().autoplay);
    ui.capture_pov_position(&PlaybackState::default(), SETTLED);
    assert!(!ui.end_frame(true, false, false, None));
    assert!(ui.review.is_none() && ui.selection.pull.is_none() && ui.active());
    assert!(ui.pending_focus.is_some(), "The next view takes the moment over");
    let (mut ui, _, _, _, _) = provider_review_fixture();
    assert!(ui.end_frame(false, false, true, None));
    assert!(ui.review.is_some() && ui.playback().is_none() && !ui.active());
}

#[test]
fn preferences_are_saved_as_soon_as_the_worker_rests() {
    let mut ui = new_ui();
    ui.cooldowns.save = Some(Preferences::new(catalog()));
    ui.worker.running = true;
    assert!(ui.take_save().is_none() && ui.cooldowns.save.is_some());
    ui.worker.running = false;
    assert!(ui.take_save().is_some());
    assert!(ui.take_save().is_none());
}

#[test]
fn a_chosen_event_is_scrolled_to_once() {
    let (mut ui, _, first, _, _) = provider_review_fixture();
    for (seconds, actor) in [(1, "Ada"), (2, "Bea"), (3, "Cyd")] {
        let at = first.start_ms + seconds * 1000;
        ui.selection.events.events.push(event(at, actor, 7, EventKind::Deaths, None));
    }
    ui.choose_event(2, SETTLED).unwrap();
    let rows = ui.list.listed(&ui.selection.events.events, ui.cooldowns.filter);
    assert_eq!(rows, vec![0, 1, 2]);
    assert_eq!(ui.take_scroll(&rows), Some(2));
    assert_eq!(ui.take_scroll(&rows), None);
}

#[test]
fn words_name_the_event_and_its_time() {
    let (_, pull, mut stream) = fixture();
    let death = event(pull.start_ms + 65_900, "Ada", 7, EventKind::Deaths, None);
    let pull = Some(pull);
    assert_eq!(event_offset(&death, &pull), 65_900_000);
    assert_eq!(event_offset(&death, &None), 0);
    assert_eq!(event_row_label(&death, &pull), "Ada died at 1:05. Watch this moment");
    assert_eq!(event_row_hint(&death, &pull), "1:05 · Ada died\nClick to watch this moment");
    assert_eq!(marker_label(&death, &pull, 3), "Ada died at 1:05. 3 events. Watch this moment");
    assert_eq!(marker_line(&death, &pull), "1:05  Ada died");
    assert_eq!(more_events(12), None);
    assert_eq!(more_events(15).as_deref(), Some("3 more events"));
    assert_eq!(review_label(3), "Review raid · 3 pulls");
    assert_eq!(back_label(&stream), "Back to streams");
    stream.recording_id = Some("abcDEF_12-3".to_string());
    assert_eq!(back_label(&stream), "Back to VODs");
}

#[test]
fn the_transport_says_where_the_video_is() {
    let (mut ui, _, first, _, mut samples) = provider_review_fixture();
    let start = ui.review.as_ref().unwrap().pull_video_start(&first);
    let state = samples.sample(start + 61_000_000, true, 0);
    let now = samples.at;
    let timeline = ui.timeline(&state, now).unwrap();
    assert_eq!(timeline.button(), "Pause");
    assert_eq!(timeline.position_label(None), "1:01 / 3:30");
    assert_eq!(timeline.position_label(Some(-2_000_000)), "-0:02 / 3:30");
    let over = samples.sample(start + 210_000_000, false, 0);
    let timeline = ui.timeline(&over, samples.at).unwrap();
    assert_eq!(timeline.button(), "Replay");
    assert_eq!(ui.press_play(&timeline, samples.at), Some(PlaybackCommand::Seek(start)));
    let events = &ui.selection.events;
    let notice = events.list_notice(EventKind::Deaths, 0);
    assert!(notice.no_matches && !notice.loading && !notice.failed);
    assert!(events.lane_is_empty(true, 0) && !events.lane_is_empty(true, 1));
}

#[test]
fn a_marker_search_goes_back_to_the_watched_moment() {
    let (mut ui, _, first, second, _) = provider_review_fixture();
    let start = ui.review.as_ref().unwrap().pull_video_start(&first);
    ui.seek_absolute_with_playback(first.start_ms + 5_000, false, SETTLED).unwrap();
    let request = ui.marker_request(None, None).unwrap();
    assert_eq!((request.estimate, request.elapsed), (start, 5_000_000));
    assert!(!request.autoplay && !request.aligned);
    let other = ui.marker_request(Some(&second), Some((second.start_ms + 250, true))).unwrap();
    assert_eq!((other.estimate, other.elapsed, other.autoplay), (start + 300_000_000, 250_000, true));
    ui.mode.popup_open = true;
    assert!(ui.marker_request(None, None).is_none(), "A menu over the video would be in the picture");
    ui.mode.popup_open = false;
    ui.mode.active = false;
    assert!(ui.marker_request(None, None).is_none());
    ui.mode.active = true;

    // Probes are temporary: only the last jump counts.
    ui.marker.busy = true;
    ui.marker_command(PlaybackCommand::SeekPaused(start - 9_000_000), SETTLED);
    assert_eq!(ui.playback().unwrap().position, start + 5_000_000);
    ui.marker.busy = false;
    ui.marker_command(PlaybackCommand::Pause, SETTLED);
    assert_eq!(ui.playback().unwrap().position, start + 5_000_000);
    ui.marker_command(PlaybackCommand::SeekPaused(start + 6_000_000), SETTLED + 5);
    assert_eq!(ui.playback().unwrap().position, start + 6_000_000);
    assert_eq!(ui.range.epoch, SETTLED + 5);

    // A clock that was found counts from the next navigation on.
    ui.keep_marker(None, align(start + 1_000_000, &first));
    assert_eq!(ui.review.as_ref().unwrap().pull_video_start(&first), start);
    ui.select(copy_pull(&first), SETTLED);
    let moved = align(start + 1_000_000, &first);
    assert_eq!(ui.review.as_ref().unwrap().marker_alignment(&first), Some(moved));
}

#[test]
fn searches_look_into_every_word() {
    let target = Some("dee".to_string());
    for search in ["", "da", "halo", "ee"] {
        assert!(mentions(search, "ada", "halo", &target), "{search}");
    }
    assert!(!mentions("ee", "ada", "halo", &None));
    let name = Some("halo".to_string());
    let seen = vec!["divine star".to_string()];
    for search in ["", "205", "alo", "star"] {
        assert!(mentions_spell(search, 120_517, &name, &seen), "{search}");
    }
    assert!(!mentions_spell("star", 120_517, &name, &vec![]));
    assert!(!mentions_spell("215", 120_517, &None, &seen));
}

#[test]
fn peers_share_the_clocks_that_were_found() {
    let (mut ui, _, first, _, _) = provider_review_fixture();
    let mut peer = ReviewUi::metadata_peer(catalog(), NOW);
    assert!(peer.mode.metadata_only && !peer.active());
    let mut shared = MarkerCache::new();
    ui.exchange_markers(&mut shared);
    ui.keep_marker(None, align(77_000_000, &first));
    ui.exchange_markers(&mut shared);
    let replay = &ui.review.as_ref().unwrap().replay;
    assert_eq!(ui.marker_cache.get(replay, &first), None);
    peer.exchange_markers(&mut shared);
    assert_eq!(peer.marker_cache.get(replay, &first), Some(align(77_000_000, &first)));
}
