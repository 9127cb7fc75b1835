use brick::address::{allowed_document, login_destination, returned_to_provider, title};
use brick::login_window::{complete_navigation, navigation_completed, permits_document, LoadStatus};
use brick::native_window::{
    accepts_cookie_count, centered_popup, cookie_expiry, same_site_level, wide, Rect,
};
use brick::provider::{google_account_host, index, start_url, Provider};
use brick::provider_login::{
    Context, ContextAccess, LoginCompletion, OpenLogin, Probe, ProviderSessions, SessionPoll, WindowOwner,
};
use brick::session::{
    decode, encode, fits_store, settle, signed_in, Cookie, Jar, Job, Observed, Operation, Reply, ResultData,
};
use brick::single_instance::{
    acquire, acquire_for_start, acquire_until_released, lock_failure, mutex_outcome, read_show_request,
    show_saved_main_window, InstanceGuard, InstanceLockError,
};
use brick::viewing_profile::{check_view, prepare, profile_directory};

const NOW: u64 = 1_000_000_000_000;
const UNIX: i64 = 1_790_000_000;

#[test]
fn login_return_waits_for_a_fresh_successful_cookie_observation() {
    let mut completion = LoginCompletion::default();
    completion.started();
    assert!(completion.probe().is_none());
    completion.finished(true);
    assert!(!completion.ready());
    let navigation = completion.probe().unwrap();
    completion.observe(navigation, false);
    assert!(!completion.ready());
    completion.observe(navigation, true);
    assert!(completion.ready());
}

#[test]
fn old_navigation_and_old_window_probes_cannot_complete_a_new_login() {
    let mut old = LoginCompletion::default();
    old.started();
    old.finished(true);
    let navigation = old.probe().unwrap();
    old.started();
    old.finished(true);
    old.observe(navigation, true);
    assert!(!old.ready());
    for _ in 0..3 {
        let late = old.navigation;
        old.started();
        old.started();
        old.finished(true);
        old.observe(late, true);
        assert!(!old.ready(), "However many navigations lie in between");
    }
    let mut replacement = LoginCompletion::default();
    replacement.started();
    replacement.finished(true);
    let navigation = old.probe().unwrap();
    old.observe(navigation, true);
    assert!(old.ready());
    assert!(!replacement.ready());
}

#[test]
fn hidden_return_can_be_retried_and_never_hides_indefinitely() {
    let mut completion = LoginCompletion::default();
    completion.hide_return(NOW);
    let since = completion.hidden_since.unwrap();
    assert!(!completion.reveal_due(since));
    assert!(completion.reveal_due(since + 30_000_000));
    assert!(!completion.ready());
    assert!(completion.show_again());
    assert!(!completion.show_again());
    assert!(!completion.reveal_due(since + 60_000_000));
}

#[test]
fn only_the_matching_provider_home_page_ends_login() {
    for (provider, home) in [
        (Provider::Youtube, "https://www.youtube.com/"),
        (Provider::Twitch, "https://www.twitch.tv/"),
    ] {
        assert!(returned_to_provider(&provider, home));
        assert!(!returned_to_provider(&provider, start_url(&provider)));
        for destination in [
            "https://accounts.google.com/",
            "https://accounts.youtube.com/",
            "https://www.youtube.com/signin",
            "https://www.twitch.tv/login?error=fixture",
            "https://www.youtube.com.evil.test/",
            "https://www.twitch.tv.evil.test/",
            "https://token@www.youtube.com/",
            "https://www.twitch.tv:8443/",
            "http://www.youtube.com/",
            "about:blank",
        ] {
            assert!(!returned_to_provider(&provider, destination), "{destination}");
        }
    }
    assert!(!returned_to_provider(&Provider::Youtube, "https://www.twitch.tv/"));
    assert!(!returned_to_provider(&Provider::Twitch, "https://www.youtube.com/"));
}

#[test]
fn a_closed_account_holder_cannot_create_new_provider_contexts() {
    let mut sessions = ProviderSessions::in_memory();
    sessions.close();
    sessions.disconnect(&Provider::Youtube);
    for provider in [Provider::Youtube, Provider::Twitch] {
        assert_eq!(sessions.context(&provider).unwrap_err(), "This provider session has ended.");
        assert!(sessions.context_created(&provider).is_err());
        assert!(sessions.contexts[index(&provider)].is_none());
    }
    assert!(!sessions.login_open(true, true));
}

#[test]
fn personal_sign_in_needs_a_desktop_window_and_one_open_session() {
    let mut sessions = ProviderSessions::in_memory();
    let twitch = Provider::Twitch;
    assert_eq!(
        sessions.open_login(&twitch, WindowOwner::Missing).unwrap_err(),
        "The provider sign-in window could not find Brick."
    );
    assert_eq!(
        sessions.open_login(&twitch, WindowOwner::Foreign).unwrap_err(),
        "Provider sign-in needs Brick's desktop window."
    );
    assert_eq!(sessions.open_login(&twitch, WindowOwner::Desktop), Ok(ContextAccess::Create));
    sessions.context_created(&twitch).unwrap();
    sessions.context_created(&Provider::Youtube).unwrap();
    for context in sessions.contexts.iter_mut() {
        context.as_mut().unwrap().window_created();
    }
    assert!(sessions.login_open(true, false));
    assert!(sessions.contexts[1].unwrap().window.is_some(), "The first open window ends the look");
    assert!(sessions.login_open(false, true));
    assert!(sessions.contexts[0].unwrap().window.is_none());
    assert!(!sessions.login_open(true, false));
    sessions.close();
    assert_eq!(
        sessions.open_login(&twitch, WindowOwner::Missing).unwrap_err(),
        "This provider session has ended."
    );
}

#[test]
fn login_documents_are_exact_provider_https_origins() {
    for provider in [Provider::Twitch, Provider::Youtube] {
        assert!(allowed_document(&provider, start_url(&provider)));
        for value in [
            "http://www.youtube.com/",
            "https://accounts.google.com.evil.test/",
            "https://accounts.google.com@evil.test/",
            "https://token@accounts.google.com/",
            "https://www.youtube.com:8443/",
            "file:///tmp/account",
            "javascript:alert(1)",
            "https://brick.lusaggo.com/v1/guilds",
            "about:blank",
            "data:text/html,hello",
        ] {
            assert!(!allowed_document(&provider, value), "{value}");
        }
    }
    assert!(!allowed_document(&Provider::Youtube, start_url(&Provider::Twitch)));
    assert!(!allowed_document(&Provider::Twitch, start_url(&Provider::Youtube)));
    let long = format!("https://www.twitch.tv/{}", "x".repeat(8192));
    assert!(!allowed_document(&Provider::Twitch, &long));
}

#[test]
fn google_regional_account_redirects_keep_exact_host_boundaries() {
    for host in [
        "accounts.google.com",
        "accounts.google.nl",
        "accounts.google.co.uk",
        "accounts.google.com.au",
    ] {
        assert!(google_account_host(host));
        assert!(allowed_document(
            &Provider::Youtube,
            &format!("https://{host}/accounts/SetSID?fixture=1")
        ));
        assert!(!allowed_document(&Provider::Twitch, &format!("https://{host}/")));
    }
    for host in [
        "accounts.google.evil",
        "accounts.google.nl.evil.test",
        "evil.accounts.google.nl",
        "accounts.google.com.attacker.test",
        "accountsgoogle.nl",
        "www.google.nl",
        "accounts.google.zip",
    ] {
        assert!(
            !allowed_document(&Provider::Youtube, &format!("https://{host}/accounts/SetSID")),
            "{host}"
        );
    }
    assert!(!allowed_document(&Provider::Youtube, "http://accounts.google.nl/accounts/SetSID"));
    assert!(!allowed_document(&Provider::Youtube, "https://user@accounts.google.nl/accounts/SetSID"));
    assert!(!allowed_document(&Provider::Youtube, "https://accounts.google.nl:8443/accounts/SetSID"));
    for host in ["accounts.google.dn", "accounts.google.", "accounts.google.com.xx", "accounts.google.co.nl"] {
        assert!(!google_account_host(host), "{host}");
    }
}

#[test]
fn twitch_login_support_document_does_not_expand_login_entry_points() {
    let support = "https://k.twitchcdn.net/fixture";
    assert!(allowed_document(&Provider::Twitch, support));
    assert!(!allowed_document(&Provider::Youtube, support));
    assert!(!login_destination(&Provider::Twitch, support));
    for destination in [
        "https://k.twitchcdn.net.evil.test/",
        "https://user@k.twitchcdn.net/",
        "http://k.twitchcdn.net/",
        "https://k.twitchcdn.net:8443/",
    ] {
        assert!(!allowed_document(&Provider::Twitch, destination));
    }
}

#[test]
fn native_title_never_displays_query_credentials_or_provider_document_title() {
    let value = title(
        &Provider::Youtube,
        "https://accounts.google.com/ServiceLogin?secret=fixture#private",
    );
    assert_eq!(value, "YouTube sign-in — https://accounts.google.com");
    assert!(!title(&Provider::Youtube, "https://evil.test/?secret=fixture").contains("evil"));
    assert_eq!(title(&Provider::Twitch, "about:blank"), "Twitch sign-in — Connecting…");
}

#[test]
fn only_provider_account_destinations_request_native_login() {
    for provider in [Provider::Youtube, Provider::Twitch] {
        assert!(login_destination(&provider, start_url(&provider)));
        for value in [
            "https://www.youtube.com/watch?v=fixture",
            "https://www.twitch.tv/streamer",
            "https://accounts.google.com.evil.test/",
            "https://token@accounts.google.com/",
            "https://accounts.google.com:8443/",
            "javascript:alert(1)",
            "https://brick.lusaggo.com/v1/login",
        ] {
            assert!(!login_destination(&provider, value), "{value}");
        }
    }
    assert!(!login_destination(&Provider::Twitch, start_url(&Provider::Youtube)));
    assert!(!login_destination(&Provider::Youtube, start_url(&Provider::Twitch)));
    assert!(login_destination(&Provider::Youtube, "https://www.youtube.com/signin//"));
}

#[test]
fn a_session_asks_to_sign_in_only_for_the_users_own_request() {
    let mut context = Context::new(Provider::Twitch, 1);
    let login = start_url(&Provider::Twitch);
    assert!(!context.request_login(login, false, false));
    assert!(!context.request_login(login, true, true));
    assert!(!context.navigated(false, true, false));
    assert!(!context.take_login_request());
    assert!(context.request_login(login, true, false));
    assert!(context.take_login_request());
    assert!(!context.take_login_request());
    assert_eq!(context.open(false), OpenLogin::Create);
    context.window_created();
    assert!(context.attempted);
    assert_eq!(context.open(true), OpenLogin::Present);
    assert!(context.window_open(true));
    context.request_login(login, true, false);
    assert!(context.retire());
    assert!(!context.retire());
    assert!(!context.take_login_request());
    assert_eq!(context.open(true), OpenLogin::Ended);
}

#[test]
fn a_completed_login_closes_its_window_on_the_next_look() {
    let mut context = Context::new(Provider::Youtube, 1);
    context.window_created();
    let mut window = context.window.unwrap();
    window.started();
    let hides =
        navigation_completed(&mut window, &Provider::Youtube, true, "https://www.youtube.com/", NOW);
    assert!(hides);
    context.window = Some(window);
    let poll = context.poll_session(NOW);
    assert!(poll.read_cookies && !poll.close_window);
    assert_eq!(poll.probe, Some(Probe { window: 1, navigation: 1 }));
    assert!(!context.poll_session(NOW + 5_000_000).read_cookies, "One reading at a time");
    assert!(context.cookies_read(Some(true), poll.probe));
    let poll = context.poll_session(NOW + 1_000_000);
    assert!(poll.close_window && !poll.read_cookies);
    assert!(context.window.is_none());
    context.window_created();
    let mut hidden = context.window.unwrap();
    assert!(!navigation_completed(&mut hidden, &Provider::Youtube, false, "https://www.youtube.com/", NOW));
    assert!(!complete_navigation(&mut hidden, true, false, NOW));
    assert!(complete_navigation(&mut hidden, true, true, NOW));
    assert_eq!(hidden.hidden_since, Some(NOW));
    context.window = Some(hidden);
    assert!(context.poll_session(NOW + 30_000_000).reveal_window);
    assert!(context.window.unwrap().hidden_since.is_none());
}

/// A window that went to its provider and came back, with a reading of the cookies begun.
fn returned_window(context: &mut Context, now: u64) -> SessionPoll {
    context.window_created();
    let mut window = context.window.unwrap();
    window.started();
    window.finished(true);
    context.window = Some(window);
    context.poll_session(now)
}

#[test]
fn readings_of_a_closed_window_never_complete_the_next_one() {
    for closed_by_user in [false, true] {
        let mut context = Context::new(Provider::Youtube, 1);
        let late = returned_window(&mut context, NOW).probe;
        assert_eq!(late, Some(Probe { window: 1, navigation: 1 }));
        if closed_by_user {
            assert!(!context.window_open(false));
        } else {
            context.close_window();
        }
        assert!(!returned_window(&mut context, NOW).read_cookies, "The first reading is still under way");
        let waiting = context.window;
        assert!(context.cookies_read(Some(true), late));
        assert_eq!(context.window, waiting);
        assert!(!context.poll_session(NOW).close_window);
        // A reading about the new window itself completes it.
        let poll = context.poll_session(NOW + 2_000_000);
        assert_eq!(poll.probe, Some(Probe { window: 2, navigation: 1 }));
        context.cookies_read(Some(true), poll.probe);
        assert!(context.poll_session(NOW + 2_000_001).close_window);
    }
}

#[test]
fn readings_of_a_replaced_session_are_dropped() {
    let twitch = Provider::Twitch;
    let mut sessions = ProviderSessions::in_memory();
    sessions.context_created(&twitch).unwrap();
    let first = sessions.contexts[0].unwrap().session;
    let seen = Some(vec![cookie("auth-token", ".twitch.tv")]);
    sessions.disconnect(&twitch);
    let heard = sessions.take_reading(&twitch, first, None, &seen, UNIX);
    assert!(!heard.repaint && matches!(heard.observed, Observed::Ignored));
    sessions.context_created(&twitch).unwrap();
    let second = sessions.contexts[0].unwrap().session;
    assert_ne!(first, second);
    assert!(!sessions.take_reading(&twitch, first, None, &seen, UNIX).repaint);
    assert!(!sessions.signed_in(&twitch, UNIX), "A late reading does not sign in again");
    sessions.contexts[0].as_mut().unwrap().poll_session(NOW);
    assert!(!sessions.take_reading(&twitch, second, None, &None, UNIX).repaint);
    assert!(!sessions.contexts[0].unwrap().polling);
    let heard = sessions.take_reading(&twitch, second, None, &seen, UNIX);
    assert!(heard.repaint && matches!(heard.observed, Observed::Kept));
    assert!(sessions.signed_in(&twitch, UNIX));
    assert!(!sessions.signed_in(&Provider::Youtube, UNIX));
}

#[test]
fn sign_in_windows_load_only_account_documents() {
    let provider = Provider::Twitch;
    assert!(permits_document(&provider, Some(start_url(&provider)), false));
    assert!(!permits_document(&provider, Some(start_url(&provider)), true));
    assert!(!permits_document(&provider, Some("https://evil.test/"), false));
    assert!(!permits_document(&provider, None, false));
    let mut status = LoadStatus::new();
    status.loading();
    status.load_failed(true, false);
    assert!(status.spinner && !status.failed);
    status.load_failed(false, false);
    status.finished();
    assert!(status.panel && status.retry && status.failed && !status.spinner);
    status.loading();
    status.finished();
    assert!(!status.panel);
}

#[test]
fn account_sessions_are_kept_apart_and_released_when_unused() {
    let mut sessions = ProviderSessions::for_account("123", true, false);
    assert_eq!(sessions.tick_wait(), Some(50_000));
    assert_eq!(
        sessions.context(&Provider::Twitch).unwrap_err(),
        "Your viewing login is still being restored. Please try again."
    );
    assert!(sessions.error().unwrap().starts_with("Couldn't restore or save your YouTube viewing login."));
    assert!(sessions.error().is_none());
    assert!(sessions.ready(&Provider::Youtube));
    assert_eq!(sessions.context(&Provider::Youtube), Ok(ContextAccess::Create));
    sessions.context_created(&Provider::Youtube).unwrap();
    assert_eq!(sessions.context(&Provider::Youtube), Ok(ContextAccess::Ready));
    assert!(!sessions.release_unused(&Provider::Youtube, 3));
    assert!(sessions.release_unused(&Provider::Youtube, 2));
    sessions.context_created(&Provider::Youtube).unwrap();
    sessions.jars[0].accept(Reply { generation: 0, data: ResultData::Loaded(Ok(vec![])) });
    assert_eq!(sessions.tick_wait(), Some(2_000_000));
    assert!(sessions.disconnect(&Provider::Youtube));
    assert_eq!(sessions.tick_wait(), None);
    assert!(!sessions.signed_in(&Provider::Twitch, UNIX));
}

// ---------------------------------------------------------------- cookies

fn cookie(name: &str, domain: &str) -> Cookie {
    Cookie {
        name: name.to_string(),
        value: "synthetic-session".to_string(),
        domain: domain.to_string(),
        path: "/".to_string(),
        expires: Some(UNIX + 3600),
        secure: true,
        http_only: true,
        same_site: 1,
    }
}

#[test]
fn only_matching_live_authentication_cookies_change_the_button() {
    let mut cookies = vec![cookie("auth-token", ".twitch.tv")];
    assert!(signed_in(&Provider::Twitch, &cookies, UNIX));
    assert!(!signed_in(&Provider::Youtube, &cookies, UNIX));
    cookies[0].domain = ".twitch.tv.evil.test".to_string();
    assert!(!signed_in(&Provider::Twitch, &cookies, UNIX));
    let mut cookies = vec![cookie("SID", ".youtube.com"), cookie("HSID", ".youtube.com")];
    assert!(signed_in(&Provider::Youtube, &cookies, UNIX));
    cookies[1].expires = Some(UNIX - 1);
    assert!(!signed_in(&Provider::Youtube, &cookies, UNIX));
    assert!(!signed_in(
        &Provider::Youtube,
        &vec![cookie("VISITOR_INFO1_LIVE", ".youtube.com")],
        UNIX
    ));
    assert!(!signed_in(
        &Provider::Youtube,
        &vec![cookie("SID", ".google.com"), cookie("HSID", ".google.com")],
        UNIX
    ));
}

type Fields<'a> = (&'a str, &'a str, &'a str, &'a str, Option<i64>, bool, bool, u8);

fn fields(cookie: &Cookie) -> Fields<'_> {
    (
        &cookie.name,
        &cookie.value,
        &cookie.domain,
        &cookie.path,
        cookie.expires,
        cookie.secure,
        cookie.http_only,
        cookie.same_site,
    )
}

#[test]
fn saved_sessions_are_bound_to_account_and_provider_and_keep_expiry() {
    let mut original = vec![cookie("auth-token", ".twitch.tv")];
    let saved = || encode("123", &Provider::Twitch, &vec![cookie("auth-token", ".twitch.tv")], UNIX).ok();
    let restored = decode("123", &Provider::Twitch, 100, saved(), UNIX).unwrap();
    assert_eq!(restored.len(), 1);
    assert_eq!(fields(&restored[0]), fields(&original[0]));
    assert!(decode("456", &Provider::Twitch, 100, saved(), UNIX).is_err());
    assert!(decode("123", &Provider::Youtube, 100, saved(), UNIX).is_err());
    assert!(decode("123", &Provider::Twitch, 61_441, saved(), UNIX).is_err());
    assert!(decode("123", &Provider::Twitch, 100, None, UNIX).is_err());
    assert!(decode("123", &Provider::Twitch, 100, saved(), UNIX + 3600).unwrap().is_empty());
    original[0].expires = None;
    let session_only = encode("123", &Provider::Twitch, &original, UNIX).ok();
    assert!(decode("123", &Provider::Twitch, 100, session_only, UNIX).unwrap().is_empty());
    assert!(fits_store(vec![0; 61_440]).is_ok());
    assert!(fits_store(vec![0; 61_441]).is_err());
}

#[test]
fn cookies_have_to_keep_the_promises_of_their_form() {
    let valid = |change: fn(&mut Cookie)| {
        let mut one = cookie("name", "twitch.tv");
        change(&mut one);
        one.valid(&Provider::Twitch, UNIX)
    };
    assert!(valid(|_| ()));
    assert!(valid(|c| c.domain = "www.twitch.tv".to_string()));
    assert!(!valid(|c| c.domain = "..twitch.tv".to_string()));
    assert!(!valid(|c| c.name = String::new()));
    assert!(!valid(|c| c.name = "x".repeat(257)));
    assert!(!valid(|c| c.name = "a b".to_string()));
    assert!(!valid(|c| c.name = "a=b".to_string()));
    assert!(!valid(|c| c.name = "ä".to_string()));
    assert!(valid(|c| c.value = "ä".repeat(4096)));
    assert!(!valid(|c| c.value = "ä".repeat(4097)));
    assert!(!valid(|c| c.value = "a\nb".to_string()));
    assert!(!valid(|c| c.path = "relative".to_string()));
    assert!(!valid(|c| c.path = format!("/{}", "x".repeat(1024))));
    assert!(!valid(|c| c.same_site = 3));
    assert!(!valid(|c| c.expires = Some(UNIX)));
    assert!(valid(|c| c.expires = None));
    assert!(!valid(|c| {
        c.name = "__Secure-a".to_string();
        c.secure = false;
    }));
    assert!(valid(|c| c.name = "__Host-a".to_string()));
    assert!(!valid(|c| {
        c.name = "__Host-a".to_string();
        c.path = "/deep".to_string();
    }));
    assert!(!valid(|c| {
        c.name = "__Host-a".to_string();
        c.domain = ".twitch.tv".to_string();
    }));
}

#[test]
fn reported_cookies_are_kept_in_order_and_once() {
    let mut seen = vec![
        cookie("b", "twitch.tv"),
        cookie("a", "twitch.tv"),
        cookie("b", "twitch.tv"),
        cookie("a", ".twitch.tv"),
        cookie("c", "evil.test"),
    ];
    seen[2].value = "later".to_string();
    let kept = settle(&seen, &Provider::Twitch, UNIX);
    let keys: Vec<(&str, &str)> = kept.iter().map(|c| (c.domain.as_str(), c.name.as_str())).collect();
    assert_eq!(keys, vec![(".twitch.tv", "a"), ("twitch.tv", "a"), ("twitch.tv", "b")]);
    assert_eq!(kept[2].value, "synthetic-session");
}

#[test]
fn a_session_is_saved_once_and_signing_out_wins_over_saves() {
    let mut jar = Jar::new(Provider::Twitch, "123", true);
    let session = vec![cookie("auth-token", ".twitch.tv")];
    assert!(matches!(jar.observe(&session, UNIX), Observed::Ignored));
    jar.accept(Reply { generation: 0, data: ResultData::Loaded(Ok(vec![])) });
    assert!(jar.ready() && !jar.signed_in(UNIX));
    let Observed::Save(Ok(saved)) = jar.observe(&session, UNIX) else {
        panic!("A new session is saved");
    };
    assert_eq!((saved.account.as_str(), saved.provider.as_str(), saved.cookies.len()), ("123", "twitch", 1));
    assert!(jar.signed_in(UNIX));
    jar.save(Ok(vec![1, 2, 3]));
    let job = jar.enqueue().unwrap();
    assert!(matches!(&job.operation, Operation::Save(bytes) if bytes == &vec![1, 2, 3]));
    jar.save(Ok(vec![1, 2, 3]));
    assert!(jar.enqueue().is_none(), "The same bytes are not saved twice");
    jar.worker_full(job);
    let waiting: Job = jar.enqueue().unwrap();
    jar.clear();
    assert!(!Jar::accepts_job(&waiting, jar.generation));
    // A callback already queued by the closing browser cannot save again.
    assert!(matches!(jar.observe(&session, UNIX), Observed::Ignored));
    jar.accept(Reply { generation: 0, data: ResultData::Saved(Err(())) });
    assert!(jar.error().is_none(), "A reply from before the sign-out does not count");
    let cleared = jar.enqueue().unwrap();
    assert!(matches!(cleared.operation, Operation::Clear));
    jar.accept(Reply { generation: cleared.generation, data: ResultData::Cleared(Ok(())) });
    assert!(jar.ready() && !jar.signed_in(UNIX));
    assert!(matches!(jar.observe(&vec![], UNIX), Observed::Kept));
    let many: Vec<Cookie> = (0..129).map(|n| cookie(&format!("c{n}"), "twitch.tv")).collect();
    assert!(matches!(jar.observe(&many, UNIX), Observed::TooMany));
    assert!(jar.error().unwrap().contains("Twitch viewing login"));
    let mut memory = Jar::memory(Provider::Twitch);
    assert!(matches!(memory.observe(&session, UNIX), Observed::Kept));
    memory.clear();
    assert!(memory.cookies().is_empty());
}

// ---------------------------------------------------------------- native windows

#[test]
fn popup_centers_on_its_owner_on_a_negative_coordinate_monitor() {
    let owner = Rect { left: -1800, top: 100, right: -1200, bottom: 500 };
    let work = Rect { left: -1920, top: 40, right: 0, bottom: 1080 };
    let result = centered_popup(owner, work, 400, 300).unwrap();
    assert_eq!((result.left, result.top), (-1700, 150));
    assert_eq!((result.right, result.bottom), (-1300, 450));
}

#[test]
fn popup_fits_small_work_area_even_when_owner_is_far_off_screen() {
    let owner = Rect { left: i32::MAX - 1000, top: i32::MIN, right: i32::MAX, bottom: i32::MIN + 800 };
    let work = Rect { left: -800, top: -500, right: -100, bottom: -100 };
    let result = centered_popup(owner, work, 1000, 800).unwrap();
    assert_eq!((result.left, result.top), (work.left, work.top));
    assert_eq!((result.right, result.bottom), (work.right, work.bottom));
    let nothing = Rect { left: 0, top: 0, right: 0, bottom: 0 };
    assert!(centered_popup(owner, nothing, 1000, 800).is_none());
}

#[test]
fn wide_texts_are_utf16_with_a_zero() {
    for text in ["", "Brick.ProviderSignIn", "sign-in — Ä", "🧱 and 𝄞"] {
        let expected: Vec<u16> = text.encode_utf16().chain(Some(0)).collect();
        assert_eq!(wide(text), expected);
    }
    assert!(accepts_cookie_count(256) && !accepts_cookie_count(257));
    assert_eq!((same_site_level(2), same_site_level(-1), same_site_level(256)), (2, 255, 255));
    assert_eq!((cookie_expiry(true, 5), cookie_expiry(false, 5)), (None, Some(5)));
}

#[test]
fn profiles_start_with_one_rule_for_their_player() {
    let name = "BrickViewer0123456789abcdefABCDEF0123456789";
    assert_eq!(
        prepare(name, &Provider::Twitch, Some("https://brick.example/v1/streams/player/1/twitch")).unwrap(),
        "{\"profile\":{\"content_settings\":{\"exceptions\":{\"cookies\":{\"https://[*.]twitch.tv,https://brick.example\":{\"setting\":1}}}}}}"
    );
    assert_eq!(
        prepare(name, &Provider::Youtube, None).unwrap(),
        "{\"profile\":{\"content_settings\":{\"exceptions\":{\"cookies\":{}}}}}"
    );
    for bad in ["BrickViewer", "Viewer0123456789abcdefABCDEF0123456789", "BrickViewer0123456789abcdefABCDEF012345678g"] {
        assert_eq!(
            prepare(bad, &Provider::Youtube, None).unwrap_err(),
            "Invalid private viewing profile."
        );
    }
    assert_eq!(
        prepare(name, &Provider::Twitch, Some("http://127.0.0.1:8787/x")).unwrap(),
        "{\"profile\":{\"content_settings\":{\"exceptions\":{\"cookies\":{\"https://[*.]twitch.tv,http://127.0.0.1:8787\":{\"setting\":1}}}}}}"
    );
    for bad in ["http://brick.example/", "https://token@brick.example/", "blob:https://brick.example/x", "not a URL"] {
        assert_eq!(
            prepare(name, &Provider::Twitch, Some(bad)).unwrap_err(),
            "Invalid viewing player origin.",
            "{bad}"
        );
    }
    assert_eq!(profile_directory("BrickViewerAB"), "WV2Profile_brickviewerab");
    assert!(check_view(false, true, "a", "a").is_ok());
    assert_eq!(check_view(true, true, "a", "a").unwrap_err(), "This provider session has ended.");
    assert_eq!(
        check_view(false, false, "a", "a").unwrap_err(),
        "The provider session requires private browsing."
    );
    assert_eq!(
        check_view(false, true, "a", "b").unwrap_err(),
        "The provider session requires its own private profile."
    );
}

// ---------------------------------------------------------------- one instance

#[test]
fn windows_mutex_blocks_second_instance() {
    let held = match mutex_outcome(Ok(())) {
        Ok(held) => held,
        Err(InstanceLockError::AlreadyRunning) => return,
        Err(InstanceLockError::Other(error)) => panic!("{error}"),
    };
    let guard = match acquire(held, Ok(())) {
        Ok(guard) => guard,
        Err(InstanceLockError::AlreadyRunning) => return,
        Err(InstanceLockError::Other(error)) => panic!("{error}"),
    };
    assert_eq!(guard, InstanceGuard { mutex: true, file: true });
    assert!(matches!(
        mutex_outcome(Err(InstanceLockError::AlreadyRunning)),
        Err(InstanceLockError::AlreadyRunning)
    ));
    assert!(matches!(
        acquire(true, Err(InstanceLockError::AlreadyRunning)),
        Err(InstanceLockError::AlreadyRunning)
    ));
}

#[test]
fn a_stuck_instance_has_a_bounded_wait_and_other_errors_return_immediately() {
    let deadline = NOW + 150_000;
    let mut now = NOW;
    let mut attempts = 0;
    while let Some(wait) = acquire_until_released(true, now, deadline) {
        assert!(wait > 0);
        now += wait;
        attempts += 1;
    }
    assert_eq!((now, attempts), (deadline, 2));
    assert_eq!(acquire_until_released(false, NOW, NOW + 30_000_000), None);
    assert_eq!(acquire_for_start(true, NOW), Some(NOW + 30_000_000));
    assert_eq!(acquire_for_start(false, NOW), None);
    let failed = lock_failure("lock", "/tmp/brick.lock", "permission denied");
    assert!(matches!(
        &failed,
        InstanceLockError::Other(message) if message == "Failed to lock /tmp/brick.lock: permission denied"
    ));
    assert!(matches!(acquire(false, Err(failed)), Err(InstanceLockError::Other(_))));
    assert!(matches!(
        acquire(true, Err(InstanceLockError::Other("read-only".to_string()))),
        Ok(InstanceGuard { mutex: true, file: false })
    ));
    assert!(matches!(mutex_outcome(Err(InstanceLockError::Other("denied".to_string()))), Ok(false)));
}

#[test]
fn replacement_waits_for_a_real_lock_after_the_old_800ms_window() {
    let (released, deadline) = (NOW + 1_200_000, NOW + 5_000_000);
    let mut now = NOW;
    let outcome = loop {
        let lock = if now < released { Err(InstanceLockError::AlreadyRunning) } else { Ok(()) };
        match acquire_until_released(lock.is_err(), now, deadline) {
            Some(wait) => now += wait,
            None => break acquire(false, lock),
        }
    };
    assert!(now >= released && now < released + 100_001);
    assert!(matches!(outcome, Ok(InstanceGuard { mutex: false, file: true })));
}

#[test]
fn requests_to_show_the_window_are_read_without_their_white_space() {
    assert_eq!(read_show_request(" \n"), None);
    assert_eq!(read_show_request(" token\u{a0}\n").as_deref(), Some("token"));
    for (text, handle) in [
        ("12345\n", Some(12345)),
        ("-7", Some(-7)),
        ("+7", Some(7)),
        ("0", None),
        ("", None),
        ("-", None),
        ("7x", None),
        ("9223372036854775807", Some(i64::MAX)),
        ("-9223372036854775808", Some(i64::MIN)),
        ("9223372036854775808", None),
        ("00000000000000000000000000012", Some(12)),
    ] {
        assert_eq!(show_saved_main_window(text), handle, "{text}");
    }
}
