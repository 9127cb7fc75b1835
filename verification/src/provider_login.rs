//! Personal provider sessions: who is signed in, and when a sign-in window opens and closes.
//!
//! Readings of the clock are in microseconds; `at` is Unix time in seconds.
use crate::address::{login_destination, spec_login_destination};
use crate::capture::{generations_differ, next_number, nth_number};
use crate::clock::{after, elapsed, elapsed_since, later};
use crate::provider::{index, spec_index, Provider};
use crate::session::{cookie_views, session_present, Cookie, Jar, Observed};
use vstd::prelude::*;

verus! {

/// How long a window may stay hidden after it came back to the provider.
pub const HIDDEN_LIMIT: u64 = 30_000_000;

/// How often the browser is asked for its cookies.
pub const COOKIE_INTERVAL: u64 = 2_000_000;

/// How often a session that is being restored is looked at.
pub const RESTORE_INTERVAL: u64 = 50_000;

/// Coming back to the provider's home does not mean that its cookies are set. A window
/// closes only on cookies seen after the return.
#[derive(Clone, Copy, Debug, PartialEq, Eq, Structural)]
pub struct LoginCompletion {
    pub navigation: u64,
    pub returned: bool,
    pub observed: bool,
    pub hidden_since: Option<u64>,
}

impl Default for LoginCompletion {
    fn default() -> (completion: LoginCompletion)
        ensures
            completion == LoginCompletion::initial(),
    {
        LoginCompletion { navigation: 0, returned: false, observed: false, hidden_since: None }
    }
}

impl LoginCompletion {
    pub open spec fn initial() -> LoginCompletion {
        LoginCompletion { navigation: 0, returned: false, observed: false, hidden_since: None }
    }

    pub open spec fn after_start(self) -> LoginCompletion {
        LoginCompletion {
            navigation: next_number(self.navigation),
            returned: false,
            observed: false,
            ..self
        }
    }

    pub open spec fn after_observation(self, navigation: u64, signed_in: bool) -> LoginCompletion {
        if self.returned && self.navigation == navigation {
            LoginCompletion { observed: signed_in, ..self }
        } else {
            self
        }
    }

    pub open spec fn complete(self) -> bool {
        self.returned && self.observed
    }

    /// A navigation begins: what was seen before it no longer counts.
    pub fn started(&mut self)
        ensures
            *final(self) == old(self).after_start(),
    {
        self.navigation = if self.navigation == u64::MAX { 0 } else { self.navigation + 1 };
        self.returned = false;
        self.observed = false;
    }

    /// A navigation has ended, at the provider's home or elsewhere.
    pub fn finished(&mut self, returned: bool)
        ensures
            *final(self) == (LoginCompletion { returned, ..*old(self) }),
    {
        self.returned = returned;
    }

    /// The navigation that a look at the cookies would be about.
    pub open spec fn probed(self) -> Option<u64> {
        if self.returned { Some(self.navigation) } else { None }
    }

    /// The navigation that a look at the cookies is about.
    pub fn probe(&self) -> (navigation: Option<u64>)
        ensures
            navigation == self.probed(),
    {
        if self.returned {
            Some(self.navigation)
        } else {
            None
        }
    }

    /// Takes what a look at the cookies found.
    pub fn observe(&mut self, navigation: u64, signed_in: bool)
        ensures
            *final(self) == old(self).after_observation(navigation, signed_in),
    {
        if self.returned && self.navigation == navigation {
            self.observed = signed_in;
        }
    }

    pub fn ready(&self) -> (ready: bool)
        ensures
            ready == self.complete(),
    {
        self.returned && self.observed
    }

    pub open spec fn hidden_at(self, now: u64) -> LoginCompletion {
        LoginCompletion {
            hidden_since: if self.hidden_since is Some { self.hidden_since } else { Some(now) },
            ..self
        }
    }

    /// The window is hidden after its return.
    pub fn hide_return(&mut self, now: u64)
        ensures
            *final(self) == old(self).hidden_at(now),
    {
        if self.hidden_since.is_none() {
            self.hidden_since = Some(now);
        }
    }

    /// The window is shown again; whether it was hidden.
    pub fn show_again(&mut self) -> (was_hidden: bool)
        ensures
            was_hidden == (old(self).hidden_since is Some),
            *final(self) == (LoginCompletion { hidden_since: None, ..*old(self) }),
    {
        let was_hidden = self.hidden_since.is_some();
        self.hidden_since = None;
        was_hidden
    }

    pub open spec fn overdue(self, now: u64) -> bool {
        self.hidden_since is Some && elapsed_since(self.hidden_since->0, now) >= HIDDEN_LIMIT
    }

    pub fn reveal_due(&self, now: u64) -> (due: bool)
        ensures
            due == self.overdue(now),
    {
        match self.hidden_since {
            Some(since) => elapsed(since, now) >= HIDDEN_LIMIT,
            None => false,
        }
    }
}

/// What the native side has to do to show a sign-in window.
#[derive(Clone, Copy, Debug, PartialEq, Eq, Structural)]
pub enum OpenLogin {
    /// The session has ended.
    Ended,
    /// The window is there: bring it to the front.
    Present,
    /// Close what is left of an earlier window, and create one.
    Create,
}

/// What a reading of the cookies is about: one navigation of one sign-in window.
#[derive(Clone, Copy, Debug, PartialEq, Eq, Structural)]
pub struct Probe {
    pub window: u64,
    pub navigation: u64,
}

/// What one look at a session asks of the native side.
#[derive(Clone, Copy, Debug, PartialEq, Eq, Structural)]
pub struct SessionPoll {
    pub close_window: bool,
    pub reveal_window: bool,
    /// Whether to read the browser's cookies.
    pub read_cookies: bool,
    /// The navigation that the reading is about, where the window came back from it.
    pub probe: Option<Probe>,
}

/// One provider's browser session.
#[derive(Clone, Copy, Debug, PartialEq, Eq, Structural)]
pub struct Context {
    pub provider: Provider,
    /// The number of this session among those of the account.
    pub session: u64,
    pub active: bool,
    pub attempted: bool,
    pub login_requested: bool,
    /// The sign-in window, where there is one.
    pub window: Option<LoginCompletion>,
    /// The number of the last sign-in window.
    pub windows: u64,
    pub polling: bool,
    pub next_poll: Option<u64>,
}

impl Context {
    pub open spec fn initial(provider: Provider, session: u64) -> Context {
        Context {
            provider,
            session,
            active: true,
            attempted: false,
            login_requested: false,
            window: None,
            windows: 0,
            polling: false,
            next_poll: None,
        }
    }

    pub fn new(provider: Provider, session: u64) -> (context: Context)
        ensures
            context == Context::initial(provider, session),
    {
        Context {
            provider,
            session,
            active: true,
            attempted: false,
            login_requested: false,
            window: None,
            windows: 0,
            polling: false,
            next_poll: None,
        }
    }

    /// Whether a navigation of the media view asks to sign in.
    pub open spec fn asks_login(self, to_login: bool, user_gesture: bool, has_auth: bool) -> bool {
        self.active && user_gesture && !has_auth && to_login
    }

    /// Takes a navigation of the media view, to the provider's sign-in pages or elsewhere.
    /// Only the user's own request, without the bearer header, asks to sign in.
    pub fn navigated(&mut self, to_login: bool, user_gesture: bool, has_auth: bool) -> (requested: bool)
        ensures
            requested == old(self).asks_login(to_login, user_gesture, has_auth),
            *final(self) == (Context { login_requested: old(self).login_requested || requested, ..*old(self) }),
    {
        if !self.active || !user_gesture || has_auth || !to_login {
            return false;
        }
        self.login_requested = true;
        true
    }

    /// Takes a navigation of the media view to `destination`.
    pub fn request_login(&mut self, destination: &str, user_gesture: bool, has_auth: bool) -> (requested: bool)
        ensures
            requested == old(self).asks_login(
                spec_login_destination(old(self).provider, destination@),
                user_gesture,
                has_auth,
            ),
            *final(self) == (Context { login_requested: old(self).login_requested || requested, ..*old(self) }),
    {
        let to_login = login_destination(&self.provider, destination);
        self.navigated(to_login, user_gesture, has_auth)
    }

    /// Whether a request to sign in waits.
    pub open spec fn login_asked(self) -> bool {
        self.login_requested && self.active
    }

    /// Hands out the request to sign in, once.
    pub fn take_login_request(&mut self) -> (requested: bool)
        ensures
            requested == old(self).login_asked(),
            *final(self) == (Context { login_requested: false, ..*old(self) }),
    {
        let requested = self.login_requested;
        self.login_requested = false;
        requested && self.active
    }

    /// How a sign-in window opens, where the present one is shown or not.
    pub open spec fn opens_as(self, shown: bool) -> OpenLogin {
        if !self.active {
            OpenLogin::Ended
        } else if self.window is Some && shown {
            OpenLogin::Present
        } else {
            OpenLogin::Create
        }
    }

    /// Decides how a sign-in window opens; `shown` says whether the present one is.
    pub fn open(&mut self, shown: bool) -> (decision: OpenLogin)
        ensures
            decision == old(self).opens_as(shown),
            *final(self) == if decision == OpenLogin::Create {
                (Context { window: None, ..*old(self) })
            } else {
                *old(self)
            },
    {
        if !self.active {
            return OpenLogin::Ended;
        }
        if self.window.is_some() && shown {
            return OpenLogin::Present;
        }
        self.window = None;
        OpenLogin::Create
    }

    /// The session with a new sign-in window, under a number of its own.
    pub open spec fn with_new_window(self) -> Context {
        Context {
            window: Some(LoginCompletion::initial()),
            windows: next_number(self.windows),
            attempted: true,
            ..self
        }
    }

    /// A sign-in window has been created.
    pub fn window_created(&mut self)
        ensures
            *final(self) == old(self).with_new_window(),
    {
        self.window = Some(LoginCompletion::default());
        self.windows = if self.windows == u64::MAX { 0 } else { self.windows + 1 };
        self.attempted = true;
    }

    pub open spec fn is_open(self, shown: bool) -> bool {
        self.window is Some && shown
    }

    /// Whether a sign-in window is open; one that is no longer shown is given up.
    pub fn window_open(&mut self, shown: bool) -> (open: bool)
        ensures
            open == old(self).is_open(shown),
            *final(self) == (Context { window: if open { old(self).window } else { None }, ..*old(self) }),
    {
        if !shown {
            self.window = None;
        }
        self.window.is_some()
    }

    pub fn close_window(&mut self)
        ensures
            *final(self) == (Context { window: None, ..*old(self) }),
    {
        self.window = None;
    }

    /// Whether this is `before` after a look at the session, with what the look asks.
    pub open spec fn polled_from(self, before: Context, now: u64, poll: SessionPoll) -> bool {
        let close = before.active && before.window is Some && before.window->0.complete();
        let reveal = before.active && !close && before.window is Some && before.window->0.overdue(now);
        let read = before.active && !before.polling && !(before.next_poll is Some && before.next_poll->0 > now);
        &&& poll == (SessionPoll {
            close_window: close,
            reveal_window: reveal,
            read_cookies: read,
            probe: if read && !close && before.window is Some && before.window->0.returned {
                Some(Probe { window: before.windows, navigation: before.window->0.navigation })
            } else {
                None
            },
        })
        &&& self == (Context {
            window: if close {
                None
            } else if reveal {
                Some(LoginCompletion { hidden_since: None, ..before.window->0 })
            } else {
                before.window
            },
            polling: before.polling || read,
            next_poll: if read { Some(later(now, COOKIE_INTERVAL)) } else { before.next_poll },
            ..before
        })
    }

    /// Looks at the session: a completed sign-in closes its window, a window hidden too long
    /// is shown again, and the cookies are read at most once an interval, one reading at a time.
    pub fn poll_session(&mut self, now: u64) -> (poll: SessionPoll)
        ensures
            final(self).polled_from(*old(self), now, poll),
    {
        let mut poll = SessionPoll { close_window: false, reveal_window: false, read_cookies: false, probe: None };
        if !self.active {
            return poll;
        }
        if let Some(window) = self.window {
            if window.ready() {
                poll.close_window = true;
                self.window = None;
            } else if window.reveal_due(now) {
                poll.reveal_window = true;
                let mut shown = window;
                shown.show_again();
                self.window = Some(shown);
            }
        }
        let early = match self.next_poll {
            Some(at) => at > now,
            None => false,
        };
        if self.polling || early {
            return poll;
        }
        self.polling = true;
        self.next_poll = Some(after(now, COOKIE_INTERVAL));
        poll.read_cookies = true;
        if let Some(window) = self.window {
            if let Some(navigation) = window.probe() {
                poll.probe = Some(Probe { window: self.windows, navigation });
            }
        }
        poll
    }

    /// The session after a reading of the cookies. Where it succeeded, `signed_in` says what
    /// the session holds now. A window only hears of a reading that was about itself.
    pub open spec fn after_reading(self, signed_in: Option<bool>, probe: Option<Probe>) -> Context {
        if !self.active {
            self
        } else {
            Context {
                polling: false,
                window: if self.window is Some && signed_in is Some && probe is Some && probe->0.window == self.windows {
                    Some(self.window->0.after_observation(probe->0.navigation, signed_in->0))
                } else {
                    self.window
                },
                ..self
            }
        }
    }

    /// A reading of the cookies has ended; whether what is shown may have changed.
    pub fn cookies_read(&mut self, signed_in: Option<bool>, probe: Option<Probe>) -> (repaint: bool)
        ensures
            repaint == (old(self).active && signed_in is Some),
            *final(self) == old(self).after_reading(signed_in, probe),
    {
        if !self.active {
            return false;
        }
        self.polling = false;
        match signed_in {
            None => false,
            Some(present) => {
                if let Some(probe) = probe {
                    if let Some(window) = self.window {
                        if probe.window == self.windows {
                            let mut updated = window;
                            updated.observe(probe.navigation, present);
                            self.window = Some(updated);
                        }
                    }
                }
                true
            },
        }
    }

    pub open spec fn retired(self) -> Context {
        if self.active {
            Context { active: false, login_requested: false, window: None, ..self }
        } else {
            self
        }
    }

    /// Ends the session; whether it was still active.
    pub fn retire(&mut self) -> (first: bool)
        ensures
            first == old(self).active,
            *final(self) == old(self).retired(),
    {
        if !self.active {
            return false;
        }
        self.active = false;
        self.login_requested = false;
        self.window = None;
        true
    }
}

/// Whether a provider's browser session can be had.
#[derive(Clone, Copy, Debug, PartialEq, Eq, Structural)]
pub enum ContextAccess {
    /// It is there.
    Ready,
    /// It has to be created, with the saved cookies.
    Create,
}

/// The window that a sign-in window would belong to.
#[derive(Clone, Copy, Debug, PartialEq, Eq, Structural)]
pub enum WindowOwner {
    Missing,
    Desktop,
    Foreign,
}

pub open spec fn holds_window(context: Option<Context>) -> bool {
    context is Some && context->0.window is Some
}

/// The session after its window was looked for: one that is no longer shown is gone.
pub open spec fn looked_at(context: Option<Context>, shown: bool) -> Option<Context> {
    if context is Some && !shown { Some(Context { window: None, ..context->0 }) } else { context }
}

/// The provider sessions of one signed-in account. Nothing of it outlives the account.
pub struct ProviderSessions {
    pub contexts: Vec<Option<Context>>,
    pub jars: Vec<Jar>,
    pub closed: bool,
    /// The number of the last browser session.
    pub opened: u64,
}

/// What came of a reading of the cookies.
pub struct Heard {
    /// What the saved session makes of them.
    pub observed: Observed,
    pub repaint: bool,
}

impl ProviderSessions {
    pub open spec fn wf(self) -> bool {
        &&& self.contexts@.len() == 2 && self.jars@.len() == 2
        &&& forall|p: Provider| self.jars@[#[trigger] spec_index(p)].provider == p
    }

    pub open spec fn context_of(self, provider: Provider) -> Option<Context> {
        self.contexts@[spec_index(provider)]
    }

    pub open spec fn jar_of(self, provider: Provider) -> Jar {
        self.jars@[spec_index(provider)]
    }

    /// The answer to a request for the provider's browser session.
    pub open spec fn admits(self, provider: Provider, result: Result<ContextAccess, String>) -> bool {
        if self.closed {
            result is Err && result->Err_0@ == "This provider session has ended."@
        } else if !self.jar_of(provider).ready {
            result is Err && result->Err_0@ == "Your viewing login is still being restored. Please try again."@
        } else {
            result == Ok::<ContextAccess, String>(
                if self.context_of(provider) is Some { ContextAccess::Ready } else { ContextAccess::Create },
            )
        }
    }

    /// Sessions that live in memory alone.
    pub fn in_memory() -> (sessions: ProviderSessions)
        ensures
            sessions.wf(),
            !sessions.closed && sessions.opened == 0,
            forall|p: Provider| #[trigger] sessions.context_of(p) is None,
            forall|p: Provider| (#[trigger] sessions.jar_of(p)).starts_in_memory(p),
    {
        let mut jars: Vec<Jar> = Vec::new();
        jars.push(Jar::memory(Provider::Twitch));
        jars.push(Jar::memory(Provider::Youtube));
        let mut contexts: Vec<Option<Context>> = Vec::new();
        contexts.push(None);
        contexts.push(None);
        ProviderSessions { contexts, jars, closed: false, opened: 0 }
    }

    /// The sessions of an account, given which of the two protected stores could be opened.
    pub fn for_account(account: &str, twitch_store: bool, youtube_store: bool) -> (sessions: ProviderSessions)
        ensures
            sessions.wf(),
            !sessions.closed && sessions.opened == 0,
            forall|p: Provider| #[trigger] sessions.context_of(p) is None,
            sessions.jar_of(Provider::Twitch).starts_for(Provider::Twitch, account@, twitch_store),
            sessions.jar_of(Provider::Youtube).starts_for(Provider::Youtube, account@, youtube_store),
    {
        let mut jars: Vec<Jar> = Vec::new();
        jars.push(Jar::new(Provider::Twitch, account, twitch_store));
        jars.push(Jar::new(Provider::Youtube, account, youtube_store));
        let mut contexts: Vec<Option<Context>> = Vec::new();
        contexts.push(None);
        contexts.push(None);
        ProviderSessions { contexts, jars, closed: false, opened: 0 }
    }

    pub fn signed_in(&self, provider: &Provider, at: i64) -> (present: bool)
        requires
            self.wf(),
        ensures
            present == session_present(*provider, cookie_views(self.jar_of(*provider).cookies@), at),
    {
        assert(self.jars@[spec_index(*provider)].provider == *provider);
        self.jars[index(provider)].signed_in(at)
    }

    pub fn ready(&self, provider: &Provider) -> (ready: bool)
        requires
            self.wf(),
        ensures
            ready == self.jar_of(*provider).ready,
    {
        self.jars[index(provider)].ready()
    }

    /// How soon the sessions have to be looked at again.
    pub open spec fn next_look(self) -> Option<u64> {
        if self.closed {
            None
        } else if !self.jar_of(Provider::Twitch).ready || !self.jar_of(Provider::Youtube).ready {
            Some(RESTORE_INTERVAL)
        } else if self.context_of(Provider::Twitch) is Some || self.context_of(Provider::Youtube) is Some {
            Some(COOKIE_INTERVAL)
        } else {
            None
        }
    }

    /// How soon the sessions have to be looked at again: often while one is being restored,
    /// at the pace of the cookies while a browser runs, not at all otherwise.
    pub fn tick_wait(&self) -> (wait: Option<u64>)
        requires
            self.wf(),
        ensures
            wait == self.next_look(),
    {
        if self.closed {
            None
        } else if !self.ready(&Provider::Twitch) || !self.ready(&Provider::Youtube) {
            Some(RESTORE_INTERVAL)
        } else if self.contexts[0].is_some() || self.contexts[1].is_some() {
            Some(COOKIE_INTERVAL)
        } else {
            None
        }
    }

    /// Whether the provider's browser session can be used, or why not.
    pub fn context(&self, provider: &Provider) -> (result: Result<ContextAccess, String>)
        requires
            self.wf(),
        ensures
            self.admits(*provider, result),
    {
        if self.closed {
            return Err(String::from_str("This provider session has ended."));
        }
        if !self.ready(provider) {
            return Err(String::from_str("Your viewing login is still being restored. Please try again."));
        }
        if self.contexts[index(provider)].is_some() {
            Ok(ContextAccess::Ready)
        } else {
            Ok(ContextAccess::Create)
        }
    }

    /// The answer to a request to sign in from a window.
    pub open spec fn admits_login(
        self,
        provider: Provider,
        owner: WindowOwner,
        result: Result<ContextAccess, String>,
    ) -> bool {
        if self.closed {
            result is Err && result->Err_0@ == "This provider session has ended."@
        } else if owner == WindowOwner::Missing {
            result is Err && result->Err_0@ == "The provider sign-in window could not find Brick."@
        } else if owner == WindowOwner::Foreign {
            result is Err && result->Err_0@ == "Provider sign-in needs Brick's desktop window."@
        } else {
            self.admits(provider, result)
        }
    }

    /// Whether personal sign-in can begin in the provider's browser session, or why not.
    pub fn open_login(&self, provider: &Provider, owner: WindowOwner) -> (result: Result<ContextAccess, String>)
        requires
            self.wf(),
        ensures
            self.admits_login(*provider, owner, result),
    {
        if self.closed {
            return Err(String::from_str("This provider session has ended."));
        }
        match owner {
            WindowOwner::Missing => Err(String::from_str("The provider sign-in window could not find Brick.")),
            WindowOwner::Foreign => Err(String::from_str("Provider sign-in needs Brick's desktop window.")),
            WindowOwner::Desktop => self.context(provider),
        }
    }

    /// Whether this is `before` once its windows were looked for, and whether one is open.
    pub open spec fn looked_from(
        self,
        before: ProviderSessions,
        twitch_shown: bool,
        youtube_shown: bool,
        open: bool,
    ) -> bool {
        let twitch = before.context_of(Provider::Twitch);
        let youtube = before.context_of(Provider::Youtube);
        let first = holds_window(twitch) && twitch_shown;
        &&& open == (first || holds_window(youtube) && youtube_shown)
        &&& self.context_of(Provider::Twitch) == looked_at(twitch, twitch_shown)
        &&& self.context_of(Provider::Youtube) == if first { youtube } else { looked_at(youtube, youtube_shown) }
        &&& self.jars == before.jars
        &&& self.closed == before.closed && self.opened == before.opened
    }

    /// Whether a sign-in window is open, given which windows are shown. Twitch is looked at
    /// first, and a window found closed is given up.
    pub fn login_open(&mut self, twitch_shown: bool, youtube_shown: bool) -> (open: bool)
        requires
            old(self).wf(),
        ensures
            final(self).wf(),
            final(self).looked_from(*old(self), twitch_shown, youtube_shown, open),
    {
        if let Some(context) = self.contexts[0] {
            let mut twitch = context;
            let open = twitch.window_open(twitch_shown);
            self.contexts[0] = Some(twitch);
            if open {
                return true;
            }
        }
        if let Some(context) = self.contexts[1] {
            let mut youtube = context;
            let open = youtube.window_open(youtube_shown);
            self.contexts[1] = Some(youtube);
            return open;
        }
        false
    }

    /// Whether this is `before` with a browser session just created, or why not.
    pub open spec fn created_from(self, before: ProviderSessions, provider: Provider, result: Result<(), String>) -> bool {
        &&& self.closed == before.closed
        &&& self.jars == before.jars
        &&& result is Ok == !before.closed
        &&& result is Err ==> result->Err_0@ == "This provider session has ended."@ && self.contexts@ == before.contexts@
        &&& result is Ok ==> self.contexts@ == before.contexts@.update(
            spec_index(provider),
            Some(Context::initial(provider, self.opened)),
        )
        &&& self.opened == if before.closed { before.opened } else { next_number(before.opened) }
    }

    /// Keeps a browser session that was just created, unless the holder was closed meanwhile.
    pub fn context_created(&mut self, provider: &Provider) -> (result: Result<(), String>)
        requires
            old(self).wf(),
        ensures
            final(self).wf(),
            final(self).created_from(*old(self), *provider, result),
    {
        if self.closed {
            return Err(String::from_str("This provider session has ended."));
        }
        let slot: usize = index(provider);
        self.opened = if self.opened == u64::MAX { 0 } else { self.opened + 1 };
        self.contexts[slot] = Some(Context::new(*provider, self.opened));
        Ok(())
    }

    /// Whether this is `before` after a reading of the cookies by the browser session with the
    /// number `session`. One that has ended, or was replaced, is not heard at all.
    pub open spec fn read_from(
        self,
        before: ProviderSessions,
        provider: Provider,
        session: u64,
        probe: Option<Probe>,
        cookies: Option<Seq<Cookie>>,
        at: i64,
        heard: Heard,
    ) -> bool {
        let context = before.context_of(provider);
        if context is None || context->0.session != session || !context->0.active {
            &&& self.contexts@ == before.contexts@ && self.jars@ == before.jars@
            &&& self.closed == before.closed && self.opened == before.opened
            &&& heard.observed is Ignored && !heard.repaint
        } else {
            let jar = self.jar_of(provider);
            let signed_in = match cookies {
                Some(_) => Some(session_present(provider, cookie_views(jar.cookies@), at)),
                None => None,
            };
            &&& match cookies {
                Some(seen) => jar.observed_from(before.jar_of(provider), seen, at, heard.observed),
                None => jar == before.jar_of(provider) && heard.observed is Ignored,
            }
            &&& forall|p: Provider| p != provider ==> #[trigger] self.jar_of(p) == before.jar_of(p)
            &&& self.contexts@ == before.contexts@.update(
                spec_index(provider),
                Some(context->0.after_reading(signed_in, probe)),
            )
            &&& self.closed == before.closed && self.opened == before.opened
            &&& heard.repaint == cookies is Some
        }
    }

    /// Takes what the browser session with the number `session` read, where it could read.
    pub fn take_reading(
        &mut self,
        provider: &Provider,
        session: u64,
        probe: Option<Probe>,
        cookies: &Option<Vec<Cookie>>,
        at: i64,
    ) -> (heard: Heard)
        requires
            old(self).wf(),
        ensures
            final(self).wf(),
            final(self).read_from(
                *old(self),
                *provider,
                session,
                probe,
                match *cookies {
                    Some(seen) => Some(seen@),
                    None => None,
                },
                at,
                heard,
            ),
    {
        let slot: usize = index(provider);
        let ghost before = self.jars@;
        let mut context = match self.contexts[slot] {
            Some(context) => context,
            None => {
                return Heard { observed: Observed::Ignored, repaint: false };
            },
        };
        if context.session != session || !context.active {
            return Heard { observed: Observed::Ignored, repaint: false };
        }
        let mut observed = Observed::Ignored;
        let mut signed_in: Option<bool> = None;
        if let Some(seen) = cookies {
            assert(before[spec_index(*provider)].provider == *provider);
            observed = self.jars[slot].observe(seen, at);
            signed_in = Some(self.jars[slot].signed_in(at));
        }
        assert(forall|p: Provider| self.jars@[#[trigger] spec_index(p)].provider == before[spec_index(p)].provider);
        let repaint = context.cookies_read(signed_in, probe);
        self.contexts[slot] = Some(context);
        Heard { observed, repaint }
    }

    /// Whether this is `before` without an anonymous browser session that nobody uses, where there is
    /// one.
    pub open spec fn released_from(self, before: ProviderSessions, provider: Provider, users: nat, released: bool) -> bool {
        &&& released == (users == 2 && before.context_of(provider) is Some && !before.context_of(provider)->0.attempted)
        &&& self.contexts@ == if released { before.contexts@.update(spec_index(provider), None) } else { before.contexts@ }
        &&& self.jars == before.jars
        &&& self.closed == before.closed && self.opened == before.opened
    }

    /// Gives up an anonymous browser session that nobody uses any more; whether it did.
    /// `users` counts the holders of the session, this one and the asking one included.
    pub fn release_unused(&mut self, provider: &Provider, users: usize) -> (released: bool)
        requires
            old(self).wf(),
        ensures
            final(self).wf(),
            final(self).released_from(*old(self), *provider, users as nat, released),
    {
        let slot: usize = index(provider);
        if users != 2 {
            return false;
        }
        match self.contexts[slot] {
            Some(context) => {
                if context.attempted {
                    return false;
                }
                self.contexts[slot] = None;
                true
            },
            None => false,
        }
    }

    /// Whether this is `before` signed out of one provider.
    pub open spec fn disconnected_from(self, before: ProviderSessions, provider: Provider, ended: bool) -> bool {
        &&& ended == (before.context_of(provider) is Some)
        &&& self.contexts@ == before.contexts@.update(spec_index(provider), None)
        &&& self.closed == before.closed && self.opened == before.opened
        &&& forall|p: Provider| p != provider ==> #[trigger] self.jar_of(p) == before.jar_of(p)
        &&& self.jar_of(provider).cleared_from(before.jar_of(provider))
    }

    /// Signs out of one provider: its cookies are cleared and its browser session ends. The
    /// other provider keeps its own.
    pub fn disconnect(&mut self, provider: &Provider) -> (ended: bool)
        requires
            old(self).wf(),
        ensures
            final(self).wf(),
            final(self).disconnected_from(*old(self), *provider, ended),
    {
        let slot: usize = index(provider);
        let ghost before = self.jars@;
        self.jars[slot].clear();
        assert(forall|p: Provider| self.jars@[#[trigger] spec_index(p)].provider == before[spec_index(p)].provider);
        let ended = self.contexts[slot].is_some();
        self.contexts[slot] = None;
        ended
    }

    /// Ends every session of the account, for good.
    pub fn close(&mut self)
        requires
            old(self).wf(),
        ensures
            final(self).wf(),
            final(self).closed,
            forall|p: Provider| #[trigger] final(self).context_of(p) is None,
            final(self).jars == old(self).jars,
            final(self).opened == old(self).opened,
    {
        self.closed = true;
        self.contexts[0] = None;
        self.contexts[1] = None;
    }

    /// Whether this is `before` once it has told one error of its stores.
    pub open spec fn told_from(self, before: ProviderSessions, message: Option<String>) -> bool {
        &&& message == if before.jar_of(Provider::Twitch).error is Some {
            before.jar_of(Provider::Twitch).error
        } else {
            before.jar_of(Provider::Youtube).error
        }
        &&& self.jar_of(Provider::Twitch) == (Jar { error: None, ..before.jar_of(Provider::Twitch) })
        &&& self.jar_of(Provider::Youtube) == if before.jar_of(Provider::Twitch).error is Some {
            before.jar_of(Provider::Youtube)
        } else {
            (Jar { error: None, ..before.jar_of(Provider::Youtube) })
        }
        &&& self.contexts == before.contexts
        &&& self.closed == before.closed && self.opened == before.opened
    }

    /// Hands out one error of the stores, Twitch before YouTube.
    pub fn error(&mut self) -> (message: Option<String>)
        requires
            old(self).wf(),
        ensures
            final(self).wf(),
            final(self).told_from(*old(self), message),
    {
        let ghost before = self.jars@;
        assert(before[spec_index(Provider::Twitch)].provider == Provider::Twitch);
        assert(before[spec_index(Provider::Youtube)].provider == Provider::Youtube);
        let first = self.jars[0].error();
        if first.is_some() {
            first
        } else {
            self.jars[1].error()
        }
    }
}

// ---------------------------------------------------------------- laws

/// A look at the cookies that began before a navigation says nothing of what came later: however
/// many navigations began in between, the window stays as it is.
pub proof fn old_probes_never_complete(completion: LoginCompletion, later: LoginCompletion, k: nat, signed_in: bool)
    requires
        0 < k <= u64::MAX,
        later.navigation == nth_number(completion.navigation, k),
    ensures
        later.after_observation(completion.navigation, signed_in) == later,
        completion.after_start().navigation == nth_number(completion.navigation, 1),
{
    generations_differ(completion.navigation, k);
    assert(nth_number(completion.navigation, 0) == completion.navigation);
}

/// A reading that began for one sign-in window never touches another, whatever either has been
/// through: windows of a session have numbers of their own, and none comes back before every
/// other number has been used.
pub proof fn closed_windows_never_complete(
    context: Context,
    later: Context,
    k: nat,
    navigation: u64,
    signed_in: Option<bool>,
)
    requires
        0 < k <= u64::MAX,
        later.windows == nth_number(context.windows, k),
    ensures
        later.after_reading(signed_in, Some(Probe { window: context.windows, navigation })).window == later.window,
{
    generations_differ(context.windows, k);
}

/// Closing a window, or finding it closed, and making another moves on to the next number; so
/// no reading for the closed one completes the new one.
pub proof fn new_windows_start_unseen(context: Context, navigation: u64, signed_in: Option<bool>)
    ensures
        ({
            let next = (Context { window: None, ..context }).with_new_window();
            let probe = Probe { window: context.windows, navigation };
            &&& next.windows == nth_number(context.windows, 1)
            &&& next.after_reading(signed_in, Some(probe)).window == next.window
            &&& !next.window->0.complete()
        }),
{
    assert(nth_number(context.windows, 0) == context.windows);
    closed_windows_never_complete(
        context,
        (Context { window: None, ..context }).with_new_window(),
        1,
        navigation,
        signed_in,
    );
}

/// What a browser session read after it was replaced changes nothing: neither the cookies
/// that are kept nor the session that took its place.
pub proof fn replaced_sessions_are_not_heard(
    before: ProviderSessions,
    after: ProviderSessions,
    provider: Provider,
    session: u64,
    k: nat,
    probe: Option<Probe>,
    cookies: Option<Seq<Cookie>>,
    at: i64,
    heard: Heard,
)
    requires
        0 < k <= u64::MAX,
        before.context_of(provider) is Some ==> before.context_of(provider)->0.session == nth_number(session, k),
        after.read_from(before, provider, session, probe, cookies, at, heard),
    ensures
        after.contexts@ == before.contexts@ && after.jars@ == before.jars@,
        heard.observed is Ignored && !heard.repaint,
{
    generations_differ(session, k);
}

/// A return completes exactly when cookies seen after it show the session.
pub proof fn fresh_cookies_complete(completion: LoginCompletion, signed_in: bool)
    requires
        completion.returned,
    ensures
        completion.after_observation(completion.navigation, signed_in).complete() == signed_in,
{
}

/// A hidden window is shown again after the limit at the latest, and showing it is final
/// until it is hidden anew.
pub proof fn hidden_windows_come_back(completion: LoginCompletion, now: u64)
    requires
        completion.hidden_since is Some,
        now >= completion.hidden_since->0 + HIDDEN_LIMIT,
    ensures
        completion.overdue(now),
        !(LoginCompletion { hidden_since: None, ..completion }).overdue(now),
{
}

/// A session that has ended holds no window and no request, and ends only once.
pub proof fn retirement_is_final(context: Context)
    requires
        context.active || (context.window is None && !context.login_requested),
    ensures
        !context.retired().active,
        context.retired().window is None,
        !context.retired().login_requested,
        context.retired().retired() == context.retired(),
{
}

/// A navigation that begins forgets the return and what was seen after it; a look at the cookies
/// counts only for the navigation that it is about, once that came back.
pub proof fn navigations_start_over(completion: LoginCompletion, navigation: u64, signed_in: bool)
    ensures
        !completion.after_start().returned && !completion.after_start().observed && !completion.after_start().complete(),
        completion.after_start().navigation != completion.navigation,
        completion.navigation < u64::MAX ==> completion.after_start().navigation == completion.navigation + 1,
        completion.after_start().hidden_since == completion.hidden_since,
        !completion.returned || completion.navigation != navigation ==> completion.after_observation(
            navigation,
            signed_in,
        ) == completion,
        completion.returned && completion.navigation == navigation ==> completion.after_observation(
            navigation,
            signed_in,
        ).observed == signed_in && completion.after_observation(navigation, signed_in).returned,
        completion.complete() <==> completion.returned && completion.observed,
{
}

/// A window is hidden since it was first hidden, and for up to thirty seconds.
pub proof fn windows_hide_for_thirty_seconds(completion: LoginCompletion, first: u64, again: u64, now: u64)
    ensures
        completion.hidden_since is None ==> completion.hidden_at(first).hidden_at(again).hidden_since == Some(first),
        completion.hidden_since is Some ==> completion.hidden_at(first) == completion,
        completion.hidden_since is None ==> !completion.overdue(now),
        completion.hidden_since is Some ==> (completion.overdue(now) <==> now >= completion.hidden_since->0 + 30_000_000),
        completion.hidden_at(first).returned == completion.returned && completion.hidden_at(first).observed
            == completion.observed && completion.hidden_at(first).navigation == completion.navigation,
{
}

/// Only what the user does asks to sign in, at the provider's sign-in pages, in a session that is
/// active, and never with the account's own credentials.
pub proof fn only_the_user_asks_to_sign_in(context: Context, to_login: bool, user_gesture: bool, has_auth: bool)
    ensures
        context.asks_login(to_login, user_gesture, has_auth) ==> to_login && user_gesture && !has_auth && context.active,
        context.active ==> context.asks_login(true, true, false),
        !context.retired().asks_login(to_login, user_gesture, has_auth),
        context.opens_as(true) == OpenLogin::Present <==> context.active && context.window is Some,
        context.opens_as(false) != OpenLogin::Present,
        context.opens_as(true) == OpenLogin::Ended <==> !context.active,
        context.active && context.window is None ==> context.opens_as(true) == OpenLogin::Create && context.opens_as(false)
            == OpenLogin::Create,
        context.active ==> context.opens_as(false) == OpenLogin::Create,
{
}

/// A look closes the window of a completed sign-in and no other, shows one that was hidden for thirty
/// seconds, and reads the cookies every two seconds, one reading at a time; a session that has
/// ended is left alone.
pub proof fn looks_keep_their_time(before: Context, after: Context, now: u64, poll: SessionPoll)
    requires
        after.polled_from(before, now, poll),
    ensures
        !before.active ==> after == before && !poll.close_window && !poll.reveal_window && !poll.read_cookies
            && poll.probe is None,
        poll.close_window <==> before.active && before.window is Some && before.window->0.returned
            && before.window->0.observed,
        poll.close_window ==> after.window is None && !poll.reveal_window && poll.probe is None,
        poll.reveal_window <==> before.active && before.window is Some && !(before.window->0.returned
            && before.window->0.observed) && before.window->0.hidden_since is Some && now
            >= before.window->0.hidden_since->0 + 30_000_000,
        poll.reveal_window ==> after.window is Some && after.window->0.hidden_since is None
            && after.window->0.navigation == before.window->0.navigation && after.window->0.returned
            == before.window->0.returned,
        !poll.close_window && !poll.reveal_window ==> after.window == before.window,
        poll.read_cookies <==> before.active && !before.polling && (before.next_poll is None || before.next_poll->0
            <= now),
        poll.read_cookies ==> after.polling && after.next_poll is Some && (now + 2_000_000 <= u64::MAX
            ==> after.next_poll->0 == now + 2_000_000),
        !poll.read_cookies ==> after.polling == before.polling && after.next_poll == before.next_poll && poll.probe is None,
        poll.probe is Some ==> before.window is Some && before.window->0.returned && poll.probe->0.window
            == before.windows && poll.probe->0.navigation == before.window->0.navigation,
        poll.read_cookies && !poll.close_window && before.window is Some && before.window->0.returned ==> poll.probe
            is Some,
        after.active == before.active && after.session == before.session && after.windows == before.windows
            && after.login_requested == before.login_requested && after.attempted == before.attempted,
{
}

/// A reading that ended makes room for the next; it tells the window of the sign-in what it saw only
/// where it succeeded and was about that very window.
pub proof fn readings_tell_their_window(context: Context, signed_in: Option<bool>, probe: Option<Probe>)
    ensures
        !context.active ==> context.after_reading(signed_in, probe) == context,
        context.active ==> !context.after_reading(signed_in, probe).polling,
        signed_in is None || probe is None || probe->0.window != context.windows ==> context.after_reading(
            signed_in,
            probe,
        ).window == context.window,
        context.active && context.window is Some && context.window->0.returned && signed_in is Some && probe is Some
            && probe->0.window == context.windows && probe->0.navigation == context.window->0.navigation ==> {
            &&& context.after_reading(signed_in, probe).window is Some
            &&& context.after_reading(signed_in, probe).window->0.complete() == signed_in->0
        },
        context.after_reading(signed_in, probe).next_poll == context.next_poll && context.after_reading(
            signed_in,
            probe,
        ).active == context.active,
{
}

/// A new window has been nowhere, and its session counts as one that tried to sign in; a new session is
/// active, has no window, and has tried nothing.
pub proof fn sessions_and_windows_start_unused(context: Context, provider: Provider, session: u64)
    ensures
        context.with_new_window().window is Some && !context.with_new_window().window->0.returned
            && context.with_new_window().window->0.hidden_since is None,
        context.with_new_window().attempted && context.with_new_window().windows != context.windows,
        Context::initial(provider, session).active && Context::initial(provider, session).window is None && !Context::initial(
            provider,
            session,
        ).attempted && !Context::initial(provider, session).polling && Context::initial(provider, session).next_poll is None,
        Context::initial(provider, session).provider == provider && Context::initial(provider, session).session
            == session,
{
}

/// The sessions are looked at every twentieth of a second while one is being restored, every two
/// seconds while a browser runs, and not at all otherwise or once they are closed.
pub proof fn sessions_are_looked_at_while_needed(sessions: ProviderSessions)
    ensures
        sessions.closed ==> sessions.next_look() is None,
        !sessions.closed && (!sessions.jar_of(Provider::Twitch).ready || !sessions.jar_of(Provider::Youtube).ready)
            ==> sessions.next_look() == Some(50_000u64),
        !sessions.closed && sessions.jar_of(Provider::Twitch).ready && sessions.jar_of(Provider::Youtube).ready ==> {
            &&& sessions.context_of(Provider::Twitch) is Some || sessions.context_of(Provider::Youtube) is Some
                ==> sessions.next_look() == Some(2_000_000u64)
            &&& sessions.context_of(Provider::Twitch) is None && sessions.context_of(Provider::Youtube) is None
                ==> sessions.next_look() is None
        },
{
}

/// A browser session is given only where the holder is open and the saved login is restored, and a
/// sign-in only from the desktop window; one that is there is used, and none is made twice.
pub proof fn restored_logins_are_admitted(
    sessions: ProviderSessions,
    provider: Provider,
    owner: WindowOwner,
    result: Result<ContextAccess, String>,
)
    requires
        sessions.admits_login(provider, owner, result),
    ensures
        result is Ok <==> !sessions.closed && sessions.jar_of(provider).ready && owner == WindowOwner::Desktop,
        result is Ok ==> (result->Ok_0 == ContextAccess::Ready <==> sessions.context_of(provider) is Some),
        sessions.closed ==> sessions.admits(provider, result),
        owner == WindowOwner::Desktop ==> sessions.admits(provider, result),
{
}

/// A sign-in window is open exactly where a session has one that is shown; a window that is not shown
/// is given up, and nothing else of the sessions changes.
pub proof fn shown_windows_are_open(
    before: ProviderSessions,
    after: ProviderSessions,
    twitch_shown: bool,
    youtube_shown: bool,
    open: bool,
)
    requires
        after.looked_from(before, twitch_shown, youtube_shown, open),
    ensures
        ({
            let twitch = before.context_of(Provider::Twitch);
            let youtube = before.context_of(Provider::Youtube);
            &&& open <==> (twitch is Some && twitch->0.window is Some && twitch_shown) || (youtube is Some
                && youtube->0.window is Some && youtube_shown)
            &&& twitch is Some && !twitch_shown ==> after.context_of(Provider::Twitch)->0.window is None
            &&& twitch is Some && twitch_shown ==> after.context_of(Provider::Twitch) == twitch
            &&& youtube is Some && youtube_shown ==> after.context_of(Provider::Youtube) == youtube
            &&& youtube is Some && !youtube_shown && !(twitch is Some && twitch->0.window is Some && twitch_shown)
                ==> after.context_of(Provider::Youtube)->0.window is None
            &&& twitch is Some == after.context_of(Provider::Twitch) is Some
            &&& youtube is Some == after.context_of(Provider::Youtube) is Some
            &&& twitch is Some ==> after.context_of(Provider::Twitch)->0.session == twitch->0.session
        }),
        after.jars == before.jars && after.closed == before.closed,
{
}

/// A browser session that was created is kept under a number that the last one did not have, unless the
/// holder was closed meanwhile; the other provider's stays.
pub proof fn created_sessions_are_kept(
    before: ProviderSessions,
    after: ProviderSessions,
    provider: Provider,
    other: Provider,
    result: Result<(), String>,
)
    requires
        before.wf(),
        provider != other,
        after.created_from(before, provider, result),
    ensures
        result is Ok <==> !before.closed,
        result is Ok ==> after.context_of(provider) is Some && after.context_of(provider)->0.provider == provider
            && after.context_of(provider)->0.active && after.context_of(provider)->0.window is None
            && after.context_of(provider)->0.session == after.opened && after.opened != before.opened,
        result is Err ==> after.context_of(provider) == before.context_of(provider),
        after.context_of(other) == before.context_of(other),
        after.jars == before.jars,
{
    crate::provider::providers_are_told_apart(provider, other);
}

/// Only an anonymous session that nobody else holds is given up, and only the one provider's.
pub proof fn unused_sessions_are_released(
    before: ProviderSessions,
    after: ProviderSessions,
    provider: Provider,
    other: Provider,
    users: nat,
    released: bool,
)
    requires
        before.wf(),
        provider != other,
        after.released_from(before, provider, users, released),
    ensures
        released <==> users == 2 && before.context_of(provider) is Some && !before.context_of(provider)->0.attempted,
        released ==> after.context_of(provider) is None,
        !released ==> after.context_of(provider) == before.context_of(provider),
        after.context_of(other) == before.context_of(other) && after.jars == before.jars,
{
    crate::provider::providers_are_told_apart(provider, other);
}

/// Signing out of one provider ends its browser session and forgets its cookies, at once or with the
/// store; the other provider keeps both.
pub proof fn sign_out_leaves_the_other_provider(
    before: ProviderSessions,
    after: ProviderSessions,
    provider: Provider,
    other: Provider,
    ended: bool,
)
    requires
        before.wf(),
        provider != other,
        after.disconnected_from(before, provider, ended),
    ensures
        after.context_of(provider) is None,
        ended <==> before.context_of(provider) is Some,
        after.context_of(other) == before.context_of(other) && after.jar_of(other) == before.jar_of(other),
        after.jar_of(provider).generation != before.jar_of(provider).generation,
        before.jar_of(provider).stored ==> !after.jar_of(provider).ready && after.jar_of(provider).clearing,
        !before.jar_of(provider).stored ==> after.jar_of(provider).cookies@.len() == 0,
        after.closed == before.closed,
{
    crate::provider::providers_are_told_apart(provider, other);
    crate::session::sign_out_begins_another_generation(before.jar_of(provider), after.jar_of(provider));
}

/// Each error of the stores is told once, that of Twitch first.
pub proof fn errors_are_told_once(
    before: ProviderSessions,
    first: ProviderSessions,
    second: ProviderSessions,
    third: ProviderSessions,
    one: Option<String>,
    two: Option<String>,
    three: Option<String>,
)
    requires
        first.told_from(before, one),
        second.told_from(first, two),
        third.told_from(second, three),
    ensures
        before.jar_of(Provider::Twitch).error is Some ==> one == before.jar_of(Provider::Twitch).error && two
            == before.jar_of(Provider::Youtube).error,
        before.jar_of(Provider::Twitch).error is None ==> one == before.jar_of(Provider::Youtube).error && two is None,
        three is None,
        third.jar_of(Provider::Twitch).cookies == before.jar_of(Provider::Twitch).cookies,
{
}

/// What an active browser session reads is taken for its own provider alone: the cookies by that
/// provider's saved session, and what they show by its window.
pub proof fn readings_are_for_one_provider(
    before: ProviderSessions,
    after: ProviderSessions,
    provider: Provider,
    other: Provider,
    session: u64,
    probe: Option<Probe>,
    cookies: Option<Seq<Cookie>>,
    at: i64,
    heard: Heard,
)
    requires
        before.wf(),
        provider != other,
        after.read_from(before, provider, session, probe, cookies, at, heard),
    ensures
        after.jar_of(other) == before.jar_of(other) && after.context_of(other) == before.context_of(other),
        before.context_of(provider) is Some && before.context_of(provider)->0.session == session && before.context_of(
            provider,
        )->0.active ==> {
            &&& heard.repaint == cookies is Some
            &&& after.context_of(provider) is Some && !after.context_of(provider)->0.polling
            &&& cookies is None ==> after.jar_of(provider) == before.jar_of(provider) && heard.observed is Ignored
                && after.context_of(provider)->0.window == before.context_of(provider)->0.window
            &&& cookies is Some ==> after.jar_of(provider).observed_from(
                before.jar_of(provider),
                cookies->0,
                at,
                heard.observed,
            )
        },
        before.context_of(provider) is None ==> heard.observed is Ignored && !heard.repaint && after.jars@ == before.jars@,
{
    crate::provider::providers_are_told_apart(provider, other);
}

/// A request to sign in waits only in an active session; a window is open only while it is shown; and a
/// look at the cookies is about a navigation only once the window came back from it.
pub proof fn requests_and_windows_are_real(context: Context, completion: LoginCompletion, shown: bool)
    ensures
        context.login_asked() ==> context.active && context.login_requested,
        context.active && context.login_requested ==> context.login_asked(),
        !context.retired().login_asked(),
        context.is_open(shown) <==> context.window is Some && shown,
        completion.returned ==> completion.probed() == Some(completion.navigation),
        !completion.returned ==> completion.probed() is None,
        completion.after_start().probed() is None,
{
}

} // verus!
