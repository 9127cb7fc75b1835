use brick::address::{allowed_provider_frame, decide_navigation, find_origin, navigate, open_provider_link};
use brick::capture::{
    browser_image, dimensions, eligible, frame, image_room, surface_pixels, Bounds, Controller, Generations, Next,
    Pixels, Sample,
};
use brick::clock::{after, elapsed};
use brick::diagnostics::{log_due, record, Stats};
use brick::fullscreen;
use brick::occlusion::{
    self, arrange, shape_rectangle, shape_rectangles, takes_keyboard, Cut, FocusState, ShapeRectangle,
};
use brick::playback::{
    begin_state_poll, newer_provider_pause, playback_acknowledged, playback_call, publish_playback_state,
    seek_acknowledged, seek_landed, state_poll_interval, PendingPlayback, PendingSeek, PlaybackCommand, PlaybackState,
    Recovery, StatePoll, COMMAND_RETRY_AFTER, COMMAND_TIMEOUT, STATE_POLL_TIMEOUT, WRAPPER_LOAD_TIMEOUT,
};
use brick::player_address::{authorization, read_request, validate_player_address};
use brick::stream_player::{ReplayPlan, StreamPlayer};

const NOW: u64 = 1_000_000_000_000;
const MS: u64 = 1_000;
const SECOND: u64 = 1_000_000;

#[test]
fn a_near_poll_deadline_does_not_request_immediate_egui_frames() {
    // The frame time that the toolkit subtracts is added beforehand.
    let wait = MS;
    for frame_time in [0, 16_667, u64::MAX] {
        assert!(after(wait, frame_time) >= wait);
    }
    assert_eq!(elapsed(NOW, NOW - 1), 0);
}

#[test]
fn visible_state_reads_have_a_bounded_rate_even_while_paused() {
    for (visible, expected) in [(true, 10), (false, 2)] {
        let mut last = None;
        let mut pending = false;
        let mut requests = 0;
        // Much faster UI redraws must not turn into frame-rate SDK reads.
        for passed in 0..1000 {
            if begin_state_poll(&mut last, &mut pending, NOW + passed * MS, visible) == StatePoll::Started {
                requests += 1;
                pending = false;
            }
        }
        assert_eq!(requests, expected);
    }
    assert_eq!(state_poll_interval(true), 100 * MS);
}

#[test]
fn a_stalled_sdk_callback_never_allows_overlapping_requests() {
    let mut last = None;
    let mut pending = false;
    assert_eq!(begin_state_poll(&mut last, &mut pending, NOW, true), StatePoll::Started);
    for seconds in [1, 2, 5, 30] {
        assert_eq!(
            begin_state_poll(&mut last, &mut pending, NOW + seconds * SECOND, true),
            StatePoll::Pending
        );
        assert_eq!(last, Some(NOW));
    }
    // Callback or submission error releases the only outstanding request.
    pending = false;
    let resumed = NOW + 31 * SECOND;
    assert_eq!(begin_state_poll(&mut last, &mut pending, resumed, true), StatePoll::Started);
    assert_eq!(last, Some(resumed));
}

#[test]
fn visible_poll_deadline_is_not_delayed_by_hidden_cadence() {
    let mut last = Some(NOW);
    let mut pending = false;
    assert_eq!(
        begin_state_poll(&mut last, &mut pending, NOW + 40 * MS, true),
        StatePoll::Waiting(60 * MS)
    );
    assert_eq!(
        begin_state_poll(&mut last, &mut pending, NOW + 150 * MS, false),
        StatePoll::Waiting(350 * MS)
    );
    assert_eq!(begin_state_poll(&mut last, &mut pending, NOW + 150 * MS, true), StatePoll::Started);
}

#[test]
fn a_new_provider_pause_cancels_only_an_older_native_play() {
    let play = |requested| Some(PendingPlayback { playing: true, requested });
    let mut state = PlaybackState::default();
    state.ready = true;
    state.pause_intent = true;
    state.buffering = true; // Intent can arrive before cached paused state.
    for at in [NOW - MS, NOW] {
        state.mark_polled_at(at);
        assert!(!newer_provider_pause(&state, play(NOW), false, NOW));
    }
    let requested = NOW - MS;
    state.mark_polled_at(NOW);
    assert!(newer_provider_pause(&state, play(requested), false, NOW));
    assert!(
        !playback_acknowledged(false, requested, &state, NOW),
        "Cancellation is not a fabricated paused acknowledgement"
    );
    assert!(!newer_provider_pause(
        &state,
        Some(PendingPlayback { playing: false, requested }),
        false,
        NOW
    ));
    assert!(!newer_provider_pause(&state, play(requested), true, NOW));
    assert!(!newer_provider_pause(&state, None, false, NOW));
    state.pause_intent = false;
    assert!(!newer_provider_pause(&state, play(requested), false, NOW));
    state.pause_intent = true;
    state.playing = true;
    assert!(!newer_provider_pause(&state, play(requested), false, NOW));
}

#[test]
fn a_provider_pause_hint_is_optional_and_cannot_acknowledge_playback() {
    let mut state = PlaybackState { ready: true, position: 72_125_000, buffering: true, ..Default::default() };
    assert!(!state.pause_intent && !state.play_intent);
    state.pause_intent = true;
    state.mark_polled_at(NOW);
    assert!(!playback_acknowledged(false, NOW, &state, NOW));
    assert!(!seek_acknowledged(72_125_000, false, NOW, &state, NOW));
    let mut play = PlaybackState { ready: true, position: 72_125_000, buffering: true, ..Default::default() };
    play.play_intent = true;
    play.mark_polled_at(NOW);
    assert!(!playback_acknowledged(true, NOW, &play, NOW));
    assert!(!seek_acknowledged(72_125_000, true, NOW, &play, NOW));
}

#[test]
fn a_late_paused_callback_cannot_replace_newer_play_acknowledgment() {
    let mut paused = PlaybackState::default();
    paused.ready = true;
    paused.position = 72_125_000;
    paused.mark_polled_at(NOW - 80 * MS);
    let requested = NOW - 40 * MS;
    assert!(!playback_acknowledged(false, requested, &paused, NOW));
    let mut playing = paused;
    playing.playing = true;
    playing.position = 72_375_000;
    playing.mark_polled_at(NOW);
    let mut state = PlaybackState::default();
    assert!(publish_playback_state(&mut state, playing));
    assert!(!publish_playback_state(&mut state, paused));
    assert_eq!(state.position, 72_375_000);
    assert!(playback_acknowledged(true, requested, &state, NOW));
    assert!(!playback_acknowledged(false, requested, &state, NOW));
    assert!(!publish_playback_state(&mut state, PlaybackState::default()), "An undated sample is not kept");
}

#[test]
fn playback_intent_waits_for_a_fresh_matching_provider_sample() {
    let mut state = PlaybackState::default();
    state.ready = true;
    state.playing = false;
    state.polled_at = Some(NOW - MS);
    assert!(!playback_acknowledged(false, NOW, &state, NOW));
    state.polled_at = Some(NOW);
    state.buffering = true;
    assert!(!playback_acknowledged(false, NOW, &state, NOW));
    state.buffering = false;
    assert!(playback_acknowledged(false, NOW, &state, NOW));
    assert!(!playback_acknowledged(true, NOW, &state, NOW));
    state.playing = true;
    assert!(playback_acknowledged(true, NOW, &state, NOW));
    state.ready = false;
    assert!(!playback_acknowledged(true, NOW, &state, NOW));
}

#[test]
fn seek_waits_for_real_playback_at_the_requested_moment() {
    let target = 120_000_000;
    let mut state =
        PlaybackState { ready: true, position: target, playing: false, buffering: true, ..Default::default() };
    assert!(!seek_landed(target, true, 0, &state));
    state.playing = true;
    assert!(!seek_landed(target, true, 0, &state));
    state.buffering = false;
    assert!(seek_landed(target, true, 0, &state));
    state.position = 123_000_000;
    assert!(seek_landed(target, true, 4 * SECOND, &state));
    state.position = target;
    assert!(!seek_landed(target, false, 0, &state));
    state.playing = false;
    state.position = 120_875_000;
    assert!(seek_landed(120_875_000, false, 0, &state));
    assert!(!seek_landed(target, false, 0, &state));
    state.position = 60_000_000;
    assert!(!seek_landed(target, false, 0, &state));
    state.position = target;
    state.ready = false;
    assert!(!seek_landed(target, false, 0, &state));
}

#[test]
fn a_delayed_post_command_sample_cannot_acknowledge_seek_play_or_pause() {
    let requested = NOW - 5 * SECOND;
    let target = 120_000_000;
    for resume in [false, true] {
        let mut state = PlaybackState {
            ready: true,
            position: target,
            playing: resume,
            polled_at: Some(requested + 100 * MS),
            ..Default::default()
        };
        // The request began after the command and its position matches,
        // but its callback is arriving several seconds late.
        assert!(!seek_acknowledged(target, resume, requested, &state, NOW));
        assert!(!playback_acknowledged(resume, requested, &state, NOW));
        state.polled_at = Some(NOW);
        assert!(seek_acknowledged(target, resume, requested, &state, NOW));
        assert!(playback_acknowledged(resume, requested, &state, NOW));
        // Freshness alone must not acknowledge data preceding a new action.
        let newer_request = NOW + MS;
        assert!(!seek_acknowledged(target, resume, newer_request, &state, NOW));
        assert!(!playback_acknowledged(resume, newer_request, &state, NOW));
    }
}

#[test]
fn playback_commands_keep_milliseconds_and_validate_before_queueing() {
    assert_eq!(playback_call(PlaybackCommand::Seek(120_875_000)).unwrap(), "seek(120.875,true)");
    assert_eq!(playback_call(PlaybackCommand::SeekPaused(120_125_000)).unwrap(), "seek(120.125,false)");
    for position in [i64::MIN, i64::MAX, -1_000, 604_800_001_000] {
        assert_eq!(playback_call(PlaybackCommand::Seek(position)).unwrap_err(), "Invalid replay position.");
        assert!(playback_call(PlaybackCommand::SeekPaused(position)).is_err());
    }
    assert_eq!(playback_call(PlaybackCommand::Seek(604_800_000_000)).unwrap(), "seek(604800.000,true)");
    for (position, text) in [(0, "0.000"), (1_499, "0.001"), (1_501, "0.002"), (62_500, "0.062"), (7_005_000, "7.005")] {
        assert_eq!(playback_call(PlaybackCommand::Seek(position)).unwrap(), format!("seek({text},true)"));
        assert_eq!(format!("{:.3}", position as f64 / 1_000_000.0), text);
    }
    assert_eq!(playback_call(PlaybackCommand::Play).unwrap(), "play()");
    assert_eq!(playback_call(PlaybackCommand::Pause).unwrap(), "pause()");
}

#[test]
fn provider_popups_open_in_the_system_browser_without_creating_a_webview() {
    for destination in [
        "https://www.twitch.tv/guildmate?tt_content=channel_name&tt_medium=embed",
        "https://twitch.tv/guildmate",
        "https://m.twitch.tv/guildmate",
        "https://clips.twitch.tv/ExampleClip",
        "https://www.youtube.com/watch?v=abcdefghijk&feature=emb_logo&t=30",
        "https://youtube.com/live/abcdefghijk",
        "https://m.youtube.com/watch?v=abcdefghijk",
        "https://youtu.be/abcdefghijk?t=30",
    ] {
        assert_eq!(open_provider_link(destination).as_deref(), Some(destination));
    }
}

#[test]
fn provider_popups_reject_private_and_non_provider_destinations() {
    for destination in [
        "https://brick.example/v1/streams/player/12345/twitch",
        "https://www.twitch.tv.evil.example/guildmate",
        "https://www.youtube.com@evil.example/watch?v=abcdefghijk",
        "https://token@www.twitch.tv/guildmate",
        "https://www.twitch.tv:8443/guildmate",
        "https://evil.example/",
        "http://www.twitch.tv/guildmate",
        "javascript:alert(1)",
        "file:///tmp/stream.html",
        "twitch://stream/guildmate",
        "about:blank",
        "not a URL",
    ] {
        assert!(open_provider_link(destination).is_none(), "{destination}");
    }
}

const BOUNDS: Bounds = Bounds { x: 0, y: 0, width: 640, height: 360 };
const BASE: &str = "https://brick.example";

fn player(url: &str, generations: &mut Generations) -> StreamPlayer {
    match StreamPlayer::new(url, BASE, "token", Some(BOUNDS), NOW, generations) {
        Ok(opened) => {
            assert_eq!(opened.authorization, "Bearer token");
            opened.player
        }
        Err(message) => panic!("{message}"),
    }
}

#[test]
fn load_timeout_does_not_interrupt_a_loaded_player() {
    let mut generations = Generations::new();
    let mut player = player("https://brick.example/v1/streams/player/12345/twitch", &mut generations);
    player.open = false;
    let late = NOW + WRAPPER_LOAD_TIMEOUT;
    assert!(player.failure(late).unwrap().contains("too long"));
    player.loaded = true;
    assert!(player.failure(late).is_none());
    player.playback.state.ready = true;
    player.playback.state.position = 123_500_000;
    player.playback.state.mark_polled_at(late);
    let requested = late - COMMAND_RETRY_AFTER;
    let seek = |requested| Some(PendingSeek { target: 300_000_000, resume: false, requested });
    let pause = |requested| Some(PendingPlayback { playing: false, requested });
    player.playback.pending_seek = seek(requested);
    player.playback.pending_playback = pause(requested);
    assert_eq!(player.playback.recover_pending_command(late, false, true), Recovery::Nothing);
    player.playback.state.buffering = true;
    assert_eq!(player.playback.recover_pending_command(late, true, true), Recovery::Nothing);
    player.playback.state.buffering = false;
    assert_eq!(
        player.playback.recover_pending_command(late, true, true),
        Recovery::Retry(PlaybackCommand::SeekPaused(300_000_000))
    );
    assert_eq!(
        player.playback.recover_pending_command(late, true, true),
        Recovery::Nothing,
        "Only one automatic retry"
    );
    let expired = late - COMMAND_TIMEOUT;
    player.playback.pending_seek = seek(expired);
    player.playback.pending_playback = pause(expired);
    assert!(player.failure(late).is_none(), "A loaded player must not be discarded");
    assert_eq!(player.playback.recover_pending_command(late, true, true), Recovery::GivenUp);
    assert!(player.playback.pending_seek.is_none());
    assert!(player.playback.pending_playback.is_none());
    assert_eq!(player.playback_state().position, 123_500_000, "Never fabricate a successful seek");
    player.playback.state_pending = true;
    player.playback.last_state_poll = Some(late - 3 * SECOND);
    assert!(player.failure(late).is_none(), "A slow callback is still allowed to finish");
    player.playback.last_state_poll = Some(late - STATE_POLL_TIMEOUT);
    assert!(player.failure(late).unwrap().contains("stopped responding"));
    assert!(player.playback.state_pending, "Failure must not queue an overlapping request");
    player.playback.state_pending = false;
    assert!(player.failure(late).is_none(), "A completed callback releases the watchdog");
    player.process_terminated();
    assert!(player.failure(late).unwrap().contains("stopped unexpectedly"));
}

#[test]
fn bearer_navigation_stays_on_configured_protected_endpoint() {
    let base = BASE;
    assert!(validate_player_address("https://brick.example/v1/streams/player/12345/twitch", base).is_ok());
    assert!(validate_player_address(
        "http://127.0.0.1:8787/v1/streams/player/12345/youtube",
        "http://127.0.0.1:8787"
    )
    .is_ok());
    for destination in [
        "https://brick.example/v1/streams/player/12345/unknown",
        "https://brick.example/v1/streams/player/12345/twitch/other",
        "https://brick.example/v1/streams/player/12345/twitch?token=secret",
        "https://brick.example/v1/streams/player/12345/youtube#secret",
        "https://evil.example/v1/streams/player/12345",
        "https://brick.example.evil.example/v1/streams/player/12345",
        "https://token@brick.example/v1/streams/player/12345",
        "https://brick.example/v1/streams/player/12345?token=secret",
        "https://brick.example/v1/streams/player/12345#secret",
        "https://brick.example/v1/streams/player/12345/other",
        "https://brick.example/v1/streams/player/member",
        "https://brick.example/v1/streams/player/",
        "https://brick.example/v1/roster",
        "http://brick.example/v1/streams/player/12345",
    ] {
        assert!(validate_player_address(destination, base).is_err());
    }
    assert!(validate_player_address(
        "http://remote.example/v1/streams/player/12345",
        "http://remote.example"
    )
    .is_err());
}

#[test]
fn replay_navigation_only_accepts_bounded_position_and_broadcast() {
    let base = BASE;
    let path = "https://brick.example/v1/streams/player/12345/youtube";
    for query in [
        "at=0&broadcast=abcDEF_12-3",
        "broadcast=abcDEF_12-3&at=18000",
        "at=18000.875&broadcast=abcDEF_12-3&paused=1",
        "paused=1&broadcast=abcDEF_12-3&at=0.001",
        "at=604800.000&broadcast=abcDEF_12-3",
    ] {
        assert!(validate_player_address(&format!("{path}?{query}"), base).is_ok());
    }
    for query in [
        "at=0",
        "broadcast=abcDEF_12-3",
        "at=0&at=1",
        "at=1&broadcast=x&broadcast=y",
        "at=0&broadcast=x&token=secret",
        "at=-1&broadcast=x",
        "at=604801&broadcast=x",
        "at=18446744073709551616&broadcast=x",
        "at=1&broadcast=",
        "at=1&broadcast=../x",
        "paused=1",
        "at=1&paused=1",
        "at=1&broadcast=x&paused=0",
        "at=1&broadcast=x&paused=true",
        "at=1&broadcast=x&paused=1&paused=1",
        "at=1.&broadcast=x",
        "at=.5&broadcast=x",
        "at=1.0001&broadcast=x",
        "at=1e2&broadcast=x",
        "at=NaN&broadcast=x",
        "at=604800.001&broadcast=x",
    ] {
        assert_eq!(
            validate_player_address(&format!("{path}?{query}"), base).unwrap_err(),
            "The stream player address is invalid.",
            "{query}"
        );
    }
    let asked = validate_player_address(&format!("{path}?at=18000.5&broadcast=x&paused=1"), base).unwrap();
    let request = read_request(&asked);
    assert_eq!((request.at, request.paused), (Some(18_000_500), true));
}

#[test]
fn saved_recording_navigation_rejects_duplicate_foreign_and_incomplete_queries() {
    let base = BASE;
    for (provider, recording) in [("twitch", "123456789"), ("youtube", "abcDEF_12-3")] {
        let path = format!("{base}/v1/streams/player/12345/{provider}");
        for query in [
            format!("recording={recording}"),
            format!("recording={recording}&at=32.875&broadcast=example&paused=1"),
        ] {
            assert!(validate_player_address(&format!("{path}?{query}"), base).is_ok());
        }
        for query in [
            format!("recording={recording}&recording={recording}"),
            format!("recording={recording}&at=0"),
            format!("recording={recording}&broadcast=example"),
            format!("recording={recording}&paused=1"),
            format!("recording={recording}&at=0&broadcast=example&token=secret"),
            "recording=https%3A%2F%2Fyoutube.com".into(),
            "recording=..%2Fsecret".into(),
            "recording=".into(),
        ] {
            assert!(
                validate_player_address(&format!("{path}?{query}"), base).is_err(),
                "{query}"
            );
        }
    }
    assert!(validate_player_address(
        &format!("{base}/v1/streams/player/12345/twitch?recording=abcDEF_12-3"),
        base
    )
    .is_err());
    assert!(validate_player_address(
        &format!("{base}/v1/streams/player/12345/youtube?recording=123"),
        base
    )
    .is_err());
}

#[test]
fn media_navigation_rejects_non_provider_and_lookalike_urls() {
    assert!(allowed_provider_frame("https://player.twitch.tv/?channel=example&parent=brick.example"));
    assert!(allowed_provider_frame("https://www.youtube.com/embed/abcdefghijk"));
    for destination in [
        "https://player.twitch.tv.evil.example/",
        "https://www.youtube.com/watch?v=abcdefghijk",
        "https://www.youtube.com@evil.example/embed/abcdefghijk",
        "http://player.twitch.tv/",
        "file:///tmp/stream.html",
        "javascript:alert(1)",
        "https://player.twitch.tv:8443/",
    ] {
        assert!(!allowed_provider_frame(destination));
    }
}

#[test]
fn the_bearer_header_never_reaches_a_provider_frame() {
    let page = "https://brick.example/v1/streams/player/12345/twitch";
    let frame = "https://player.twitch.tv/?channel=example";
    let link = "https://www.twitch.tv/guildmate";
    assert!(decide_navigation(page, page, true, false).permitted);
    assert!(decide_navigation(page, frame, false, false).permitted);
    for (destination, authorized, gesture) in [(frame, true, false), (frame, true, true), (link, true, true)] {
        let decision = decide_navigation(page, destination, authorized, gesture);
        assert!(!decision.permitted && decision.link.is_none());
    }
    let clicked = decide_navigation(page, link, false, true);
    assert_eq!((clicked.permitted, clicked.link.as_deref()), (false, Some(link)));
}

#[test]
fn nested_addresses_are_refused_however_deep() {
    let deep = format!("{}https://www.twitch.tv/guildmate", "blob:".repeat(200_000));
    assert!(open_provider_link(&deep).is_none());
    assert!(!allowed_provider_frame(&deep));
    let decision = decide_navigation("https://brick.example/", &deep, false, true);
    assert!(!decision.permitted && decision.link.is_none());
    assert!(validate_player_address(&deep, BASE).is_err());
}

#[test]
fn origins_are_scheme_host_and_uncommon_port() {
    for (text, origin) in [
        ("https://brick.example/v1?x#y", Some("https://brick.example")),
        ("https://brick.example:443/", Some("https://brick.example")),
        ("https://brick.example:8443/", Some("https://brick.example:8443")),
        ("http://127.0.0.1:8787", Some("http://127.0.0.1:8787")),
        ("HTTP://[::1]:80/", Some("http://[::1]")),
        ("blob:https://brick.example/x", Some("https://brick.example")),
        ("blob:blob:http://127.0.0.1:8787/x", Some("http://127.0.0.1:8787")),
        ("blob:nowhere", None),
        ("data:text/html,hello", None),
        ("ftp://brick.example/", None),
        ("not a URL", None),
    ] {
        assert_eq!(find_origin(text).as_deref(), origin, "{text}");
    }
    let page = "https://brick.example/v1/streams/player/12345/twitch";
    assert!(validate_player_address(page, "blob:https://brick.example/x").is_ok());
    assert!(validate_player_address(page, "ftp://brick.example/").is_err());
    assert!(validate_player_address(page, "not a URL").is_err());
}

#[test]
fn clicked_links_leave_only_without_the_header() {
    let link = || Some("https://youtu.be/x".to_string());
    assert!(navigate(true, false, link(), true, true).permitted);
    assert!(navigate(true, false, link(), false, true).link.is_none());
    assert!(navigate(false, true, link(), false, false).permitted);
    assert!(!navigate(false, true, link(), false, true).permitted);
    assert_eq!(navigate(false, true, link(), false, true).link, link());
    assert!(navigate(false, true, link(), true, true).link.is_none());
}

#[test]
fn a_parsed_address_opens_and_changes_a_player() {
    let mut generations = Generations::new();
    let address = |query: &str| {
        let text = format!("https://brick.example/v1/streams/player/12345/twitch{query}");
        validate_player_address(&text, BASE).unwrap()
    };
    let opened = StreamPlayer::open(address(""), "token", Some(BOUNDS), NOW, &mut generations);
    let Ok(opened) = opened else {
        panic!("A validated address opens");
    };
    let mut player = opened.player;
    assert_eq!(player.playback_state().seeking, None);
    assert_eq!(
        player.change_recording(&None, address(""), "token", NOW, &mut generations).err().as_deref(),
        Some("This recording needs a new player.")
    );
    let next = address("?recording=77&at=2.125&broadcast=b");
    let plan = player.change_recording(&Some(address("")), next, "token", NOW, &mut generations);
    let Ok(ReplayPlan::Load(load)) = plan else {
        panic!("Another video loads");
    };
    assert_eq!((load.target, load.resume, load.authorization.as_str()), (2_125_000, true, "Bearer token"));
    let next = address("?recording=77&at=2.125&broadcast=b");
    assert_eq!(
        player.change_recording(&Some(address("")), next, "", NOW, &mut generations).err().as_deref(),
        Some("Sign in to Discord again to watch this stream.")
    );
}

#[test]
fn tokens_that_no_header_can_hold_are_refused() {
    assert_eq!(authorization("abc").unwrap(), "Bearer abc");
    assert_eq!(authorization("").unwrap_err(), "Sign in to Discord again to watch this stream.");
    assert_eq!(
        authorization(&"x".repeat(2049)).unwrap_err(),
        "Sign in to Discord again to watch this stream."
    );
    assert_eq!(authorization("a\nb").unwrap_err(), "The Discord session cannot open this stream.");
    assert_eq!(authorization("a\u{7f}b").unwrap_err(), "The Discord session cannot open this stream.");
    assert!(authorization("a\tb").is_ok());
}

#[test]
fn a_new_player_waits_for_its_requested_position() {
    let mut generations = Generations::new();
    let url = "https://brick.example/v1/streams/player/12345/youtube?at=32.5&broadcast=live&paused=1";
    let mut player = player(url, &mut generations);
    assert_eq!(player.playback_state().seeking, Some(32_500_000));
    assert_eq!(player.playback_state().playback_intent, Some(false));
    for message in [
        StreamPlayer::new(url, BASE, "token", None, NOW, &mut generations).err(),
        StreamPlayer::new("https://evil.example/", BASE, "token", Some(BOUNDS), NOW, &mut generations).err(),
    ] {
        assert!(message.is_some());
    }
    // Nothing is read before the document has loaded.
    assert!(player.poll_playback(true, NOW, &mut generations).poll.is_none());
    player.page_finished("https://brick.example/");
    assert!(!player.loaded);
    player.page_finished(url);
    let plan = player.poll_playback(true, NOW, &mut generations);
    assert_eq!(plan.poll, Some(StatePoll::Started));
    let ready = PlaybackState { ready: true, position: 0, ..Default::default() };
    assert!(!player.receive_state(7, 10, Some(ready), NOW, NOW), "Another document is not heard");
    assert!(!player.receive_state(0, 5000, Some(ready), NOW, NOW), "An overlong answer is dropped");
    assert!(player.receive_state(0, 10, Some(ready), NOW, NOW));
    assert!(player.poll_playback(true, NOW + 100 * MS, &mut generations).forward.is_none());
    let plan = player.poll_playback(true, NOW + 700 * MS, &mut generations);
    assert_eq!(
        plan.forward.as_deref(),
        Some("if(window.brickMedia) window.brickMedia.pause()"),
        "The queued command is sent once the player has settled"
    );
    let there = PlaybackState { ready: true, position: 32_500_000, ..Default::default() };
    assert!(player.receive_state(0, 10, Some(there), NOW + 800 * MS, NOW + 801 * MS));
    player.poll_playback(true, NOW + 900 * MS, &mut generations);
    assert_eq!(player.playback_state().seeking, None);
    assert_eq!(player.playback_state().playback_intent, None);
}

#[test]
fn the_same_video_jumps_and_another_one_is_loaded() {
    let mut generations = Generations::new();
    let base = "https://brick.example/v1/streams/player/12345/youtube";
    let mut player = player(&format!("{base}?at=1&broadcast=one"), &mut generations);
    player.playback.state.ready = true;
    let same = player
        .load_replay(&format!("{base}?at=2&broadcast=one"), BASE, "token", NOW, &mut generations)
        .unwrap();
    match same {
        ReplayPlan::Command(script) => {
            assert_eq!(script.as_deref(), Some("if(window.brickMedia) window.brickMedia.seek(2.000,true)"))
        }
        ReplayPlan::Load(_) => panic!("The same video must not reload"),
    }
    assert_eq!(
        player.load_replay(base, BASE, "token", NOW, &mut generations).err().as_deref(),
        Some("The recording has no replay position.")
    );
    player.fullscreen.request(true);
    let other = player
        .load_replay(&format!("{base}?at=3&broadcast=two&paused=1"), BASE, "token", NOW, &mut generations)
        .unwrap();
    assert!(!player.is_fullscreen());
    let ReplayPlan::Load(load) = other else {
        panic!("Another video must load");
    };
    assert_eq!((load.target, load.resume), (3_000_000, false));
    assert_eq!(
        player.begin_replay(&load, false, NOW, &mut generations).unwrap_err(),
        "The player could not protect recording preferences."
    );
    assert!(player.begin_replay(&load, true, NOW, &mut generations).is_ok());
    assert_eq!(player.document, 1);
    assert!(!player.playback_state().ready);
    assert_eq!(player.playback_state().seeking, Some(3_000_000));
    player.protected = false;
    assert_eq!(
        player
            .load_replay(&format!("{base}?at=2&broadcast=one"), BASE, "token", NOW, &mut generations)
            .err()
            .as_deref(),
        Some("This recording needs a new player.")
    );
}

#[test]
fn commands_before_the_player_is_ready_keep_the_newest_target() {
    let mut generations = Generations::new();
    let mut player = player("https://brick.example/v1/streams/player/12345/twitch", &mut generations);
    let generation = player.frame_capture_generation();
    assert_eq!(player.command(PlaybackCommand::Seek(5_000_000), NOW, &mut generations).unwrap(), None);
    assert_ne!(player.frame_capture_generation(), generation);
    assert_eq!(player.command(PlaybackCommand::Pause, NOW, &mut generations).unwrap(), None);
    assert_eq!(player.playback.queued_command, Some(PlaybackCommand::SeekPaused(5_000_000)));
    player.playback.state.ready = true;
    assert_eq!(
        player.command(PlaybackCommand::Play, NOW, &mut generations).unwrap().as_deref(),
        Some("if(window.brickMedia) window.brickMedia.play()")
    );
    assert_eq!(player.playback.queued_command, None);
    assert!(player.command(PlaybackCommand::Seek(-1), NOW, &mut generations).is_err());
    player.close(&mut generations);
    assert_eq!(
        player.command(PlaybackCommand::Play, NOW, &mut generations).unwrap_err(),
        "The player has closed."
    );
    assert!(player.load_failed("https://brick.example/v1/streams/player/12345/twitch"));
    assert!(!player.load_failed("https://elsewhere.example/"));
    assert!(player.failure(NOW).unwrap().contains("could not connect"));
}

#[test]
fn hiding_and_moving_drop_a_snapshot() {
    let mut generations = Generations::new();
    let mut player = player("https://brick.example/v1/streams/player/12345/twitch", &mut generations);
    player.playback.state = PlaybackState { ready: true, ..Default::default() };
    player.playback.state.mark_polled_at(NOW);
    assert!(player.request_frame_capture(true, NOW).is_some());
    assert!(player.frame_capture_pending());
    assert!(player.set_visible(false, &mut generations));
    assert!(!player.frame_capture_pending());
    player.visibility_applied(false);
    assert!(player.set_visible(true, &mut generations));
    player.visibility_applied(true);
    assert_eq!(player.set_bounds(Some(BOUNDS), &mut generations), Ok(false));
    let wider = Bounds { width: 900, ..BOUNDS };
    assert_eq!(player.set_bounds(Some(wider), &mut generations), Ok(true));
    player.bounds_applied(wider);
    assert_eq!(player.bounds, wider);
    assert!(player.set_bounds(None, &mut generations).unwrap_err().contains("more room"));
}

// ---------------------------------------------------------------- snapshots

fn sample(at: u64, position: i64, playing: bool) -> Sample {
    let mut state = PlaybackState::default();
    state.ready = true;
    state.position = position;
    state.playing = playing;
    state.polled_at = Some(at);
    Sample { state, requested: at, received: at + 10 * MS }
}

#[test]
fn capture_skips_hidden_stale_buffering_or_changing_playback() {
    let mut state = sample(NOW, 100_000_000, false).state;
    assert!(eligible(&state, true, NOW));
    assert!(!eligible(&state, false, NOW));
    state.seeking = Some(100_000_000);
    assert!(!eligible(&state, true, NOW));
    state.seeking = None;
    state.playback_intent = Some(false);
    assert!(!eligible(&state, true, NOW));
    state.playback_intent = None;
    state.buffering = true;
    assert!(!eligible(&state, true, NOW));
    state.buffering = false;
    state.polled_at = Some(NOW - 3 * SECOND);
    assert!(!eligible(&state, true, NOW));
}

#[test]
fn snapshot_limits_and_cancellation_bound_retained_data() {
    assert!(dimensions(1920, 1080).is_ok());
    assert!(dimensions(4096, 4096).is_err());
    assert!(dimensions(0, 1).is_err());
    let mut generations = Generations::new();
    let mut controller = Controller::new(&mut generations);
    let state = sample(NOW, 0, false).state;
    let id = controller.request(&state, true, BOUNDS, NOW).unwrap();
    controller.cancel(&mut generations);
    controller.complete(id, Err("late callback".to_string()));
    assert!(controller.job.is_none());
    assert!(controller.take().is_none());
    assert_eq!(
        frame(None, Pixels::Png(vec![]), sample(NOW, 0, false), sample(NOW, 0, false), NOW, NOW)
            .err()
            .as_deref(),
        Some("The media snapshot was cancelled.")
    );
}

#[test]
fn timing_bracket_rejects_a_seek_or_pause_during_capture() {
    let pixels = || Pixels::Rgb { width: 1, height: 1, bytes: vec![0, 128, 255] };
    let end = NOW + 100 * MS;
    let shot = |before: Sample, after: Sample| frame(Some(1), pixels(), before, after, NOW, end);
    assert!(shot(sample(NOW, 100_000_000, true), sample(end, 120_000_000, true)).is_err());
    assert!(shot(sample(NOW, 100_000_000, true), sample(end, 100_100_000, false)).is_err());
    let Ok(valid) = shot(sample(NOW, 100_000_000, false), sample(end, 100_000_000, false)) else {
        panic!("A still video is captured");
    };
    assert_eq!(valid.estimated_seconds(), 100_000_000);
    assert!(valid.sampling_uncertainty >= 100 * MS);
    assert_eq!(valid.capture_duration, 100 * MS);
    let decoded = image::load_from_memory_with_format(&valid.png, image::ImageFormat::Png).unwrap();
    assert_eq!(decoded.to_rgb8().into_raw(), vec![0, 128, 255]);
}

#[test]
fn a_snapshot_goes_through_its_stages_once() {
    let mut generations = Generations::new();
    let mut control = Controller::new(&mut generations);
    let mut state = sample(NOW, 5_000_000, false).state;
    let id = control.request(&state, true, BOUNDS, NOW).unwrap();
    assert!(control.request(&state, true, BOUNDS, NOW).is_none());
    assert!(matches!(control.tick(&state, true, NOW, &mut generations), Next::Wait));
    control.received_clock(id, false, 100, Some(state), NOW, NOW + 5 * MS);
    assert!(matches!(control.tick(&state, true, NOW + 6 * MS, &mut generations), Next::Snapshot(n) if n == id));
    assert!(control.native_pending);
    control.received_pixels(
        id,
        Ok(Pixels::Rgb { width: 1, height: 1, bytes: vec![1, 2, 3] }),
        NOW + 9 * MS,
    );
    assert!(!control.native_pending);
    assert!(matches!(control.tick(&state, true, NOW + 10 * MS, &mut generations), Next::After(n) if n == id));
    control.received_clock(id, true, 100, Some(state), NOW + 10 * MS, NOW + 12 * MS);
    let Next::Encode(work) = control.tick(&state, true, NOW + 13 * MS, &mut generations) else {
        panic!("A bracketed image is encoded");
    };
    assert!(matches!(control.tick(&state, true, NOW + 14 * MS, &mut generations), Next::Wait));
    let result = frame(Some(work.generation), work.pixels, work.before, work.after, work.started, work.finished);
    assert!(result.is_ok());
    control.complete(work.job, result);
    let Some(Ok(captured)) = control.take() else {
        panic!("The snapshot is handed out");
    };
    assert_eq!((captured.width, captured.height, captured.capture_duration), (1, 1, 3 * MS));
    assert_eq!(captured.observed_at, NOW + 6 * MS);
    assert!(control.take().is_none());
    // A second one, left alone, is given up.
    state.mark_polled_at(NOW + 4 * SECOND);
    let again = control.request(&state, true, BOUNDS, NOW + SECOND);
    assert!(again.is_some());
    control.tick(&state, true, NOW + 5 * SECOND, &mut generations);
    let Some(Err(message)) = control.take() else {
        panic!("A late snapshot ends");
    };
    assert_eq!(message, "The media snapshot took too long.");
}

#[test]
fn what_the_callbacks_bring_is_kept() {
    let mut generations = Generations::new();
    let mut control = Controller::new(&mut generations);
    let state = sample(NOW, 5_000_000, false).state;
    let id = control.request(&state, true, BOUNDS, NOW).unwrap();
    control.received_pixels(id, Ok(Pixels::Png(vec![1])), NOW + 1);
    control.received_clock(id, true, 10, Some(state), NOW, NOW + 2);
    let job = control.job.as_ref().unwrap();
    assert!(job.pixels.is_some() && job.after.is_some() && job.native_finished == Some(NOW + 1));
    control.received_clock(id + 1, false, 10, Some(state), NOW, NOW + 2);
    assert!(control.job.as_ref().unwrap().before.is_none(), "Another snapshot's reading is not heard");
}

#[test]
fn unusable_clocks_end_a_snapshot() {
    let mut generations = Generations::new();
    let state = sample(NOW, 5_000_000, false).state;
    let fail = |length: usize, parsed: Option<PlaybackState>, received: u64| {
        let mut generations = Generations::new();
        let mut control = Controller::new(&mut generations);
        let id = control.request(&state, true, BOUNDS, NOW).unwrap();
        control.received_clock(id, false, length, parsed, NOW, received);
        control.take().and_then(|result| result.err())
    };
    let changed = Some("The player timing changed during capture.".to_string());
    assert_eq!(fail(100, None, NOW), changed);
    assert_eq!(fail(5000, Some(state), NOW), changed);
    assert_eq!(fail(100, Some(state), NOW + 501 * MS), changed);
    assert_eq!(fail(100, Some(state), NOW + 500 * MS), None);
    let mut control = Controller::new(&mut generations);
    let id = control.request(&state, true, BOUNDS, NOW).unwrap();
    control.clock_failed(id);
    assert!(control.take().unwrap().is_err_and(|m| m == "The player timing could not be sampled."));
}

#[test]
fn browser_images_are_read_by_their_header() {
    let mut png = vec![0x89, b'P', b'N', b'G', 0x0d, 0x0a, 0x1a, 0x0a, 0, 0, 0, 13, b'I', b'H', b'D', b'R'];
    png.extend([0, 0, 2, 128, 0, 0, 1, 104]);
    let still = || sample(NOW, 0, false);
    let shot = |bytes: Vec<u8>| frame(Some(1), Pixels::Png(bytes), still(), still(), NOW, NOW);
    let Ok(captured) = shot(png.clone()) else {
        panic!("A browser image is taken as it is");
    };
    assert_eq!((captured.width, captured.height, captured.png.len()), (640, 360, 24));
    png[3] = b'X';
    assert_eq!(shot(png.clone()).err().as_deref(), Some("The media snapshot has an invalid image header."));
    png[3] = b'G';
    png[16] = 1;
    assert_eq!(
        shot(png).err().as_deref(),
        Some("The media snapshot dimensions exceed the capture limit.")
    );
    assert_eq!(image_room(24), Ok(24));
    assert!(image_room(0).is_err() && image_room(12_582_913).is_err());
    assert!(browser_image(vec![1, 2], 2).is_ok());
    assert!(browser_image(vec![1, 2], 1).is_err());
}

#[test]
fn surface_pixels_drop_the_unused_byte_and_the_padding() {
    let source = vec![0xff112233, 0x00445566, 0xdeadbeef, 0x01020304, 0x05060708, 0xdeadbeef];
    let Ok(Pixels::Rgb { width, height, bytes }) = surface_pixels(&source, 2, 2, 3) else {
        panic!("A small surface is converted");
    };
    assert_eq!((width, height), (2, 2));
    assert_eq!(bytes, vec![0x11, 0x22, 0x33, 0x44, 0x55, 0x66, 2, 3, 4, 6, 7, 8]);
}

// ---------------------------------------------------------------- layout

#[test]
fn repeated_provider_events_only_change_the_expanded_layout() {
    let mut control = fullscreen::Controller::new();
    assert!(control.request(true));
    assert!(!control.request(true));
    assert!(control.active());
    assert!(control.request(false));
    assert!(!control.request(false));
    assert!(!control.active());
    assert!(!control.message("resize"));
    assert!(control.message("enter") && control.active());
    assert!(control.message("exit") && !control.active());
}

#[test]
fn hiding_or_dropping_player_blocks_late_fullscreen_callbacks() {
    let mut control = fullscreen::Controller::new();
    control.request(true);
    control.set_enabled(false);
    control.request(true);
    assert!(!control.active());
    control.set_enabled(true);
    control.request(true);
    assert!(control.active());
    control.set_enabled(false);
    control.request(true);
    assert!(!control.active());
}

/// The outer window's mode is no part of the expanded layout, and a request says no more than
/// whether the layout changed.
#[test]
fn existing_fullscreen_is_preserved_after_video_exits() {
    let mut control = fullscreen::Controller::new();
    assert!(control.request(true));
    assert!(control.request(false));
    assert_eq!(control, fullscreen::Controller::new());
}

#[test]
fn outer_window_mode_does_not_control_expanded_layout() {
    let mut control = fullscreen::Controller::new();
    control.request(true);
    assert!(control.active());
    for message in ["maximize", "fullscreen", ""] {
        assert!(!control.message(message));
        assert!(control.active(), "Changing window mode does not leave the expanded view");
    }
}

fn cut(left: i32, top: i32, right: i32, bottom: i32) -> Cut {
    Cut { left, top, right, bottom }
}

#[test]
fn stable_floating_areas_are_cut_once() {
    let areas = vec![cut(5, 5, 9, 9), cut(0, 0, 3, 3), cut(5, 5, 9, 9), cut(0, 0, 2, 9)];
    let sorted = vec![cut(0, 0, 2, 9), cut(0, 0, 3, 3), cut(5, 5, 9, 9)];
    assert_eq!(arrange(&areas), sorted);
    let mut control = occlusion::Controller::new();
    let change = control.update(BOUNDS, &areas).unwrap();
    assert_eq!(change, sorted);
    control.cuts_applied(BOUNDS, change);
    assert!(control.update(BOUNDS, &sorted).is_none());
    assert_eq!(control.update(BOUNDS, &vec![]), Some(vec![]));
    control.cover_for_fullscreen(true);
    assert_eq!(control.update(BOUNDS, &areas), Some(vec![cut(0, 0, 640, 360)]));
}

#[test]
fn shapes_that_the_server_cannot_hold_are_refused() {
    assert_eq!(
        shape_rectangle(&cut(-5, 7, 15, 17)),
        Some(ShapeRectangle { x: -5, y: 7, width: 20, height: 10 })
    );
    assert!(shape_rectangle(&cut(40_000, 0, 40_010, 10)).is_none());
    assert!(shape_rectangle(&cut(10, 0, 0, 10)).is_none());
    assert!(shape_rectangle(&cut(i32::MIN, 0, i32::MAX, 10)).is_none());
    assert!(shape_rectangles(&vec![cut(0, 0, 1, 1), cut(10, 0, 0, 10)]).is_none());
    assert_eq!(shape_rectangles(&vec![]), Some(vec![]));
}

#[test]
fn the_keyboard_only_moves_for_a_click_into_text() {
    let all = FocusState { pressed: true, text_focused: true, focus_in_child: true, app_active: true };
    assert!(takes_keyboard(all));
    assert!(!takes_keyboard(FocusState { pressed: false, ..all }));
    assert!(!takes_keyboard(FocusState { text_focused: false, ..all }));
    assert!(!takes_keyboard(FocusState { focus_in_child: false, ..all }));
    assert!(!takes_keyboard(FocusState { app_active: false, ..all }));
}

#[test]
fn log_lines_hold_only_plain_figures() {
    let stats = Stats {
        source: Some("youtube".to_string()),
        buffer: Some(1205),
        fps: Some(60_480_001),
        ready_state: Some(4),
        decoded_frames: None,
        media_seeking: Some(false),
    };
    assert_eq!(
        record(true, false, true, false, &stats),
        "Player youtube: ready=true playing=false buffering=true blocked=false buffer_seconds=12.05 fps=unknown media_ready=Some(4) decoded_frames=None media_seeking=Some(false)"
    );
    let odd = Stats { source: Some("https://x".to_string()), ..stats };
    assert!(record(true, true, true, true, &odd).starts_with("Player unknown: "));
    assert!(log_due(NOW, NOW + SECOND) && !log_due(NOW, NOW + SECOND - 1));
}
