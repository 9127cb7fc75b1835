//! The sign-in window: what it may load, what it shows while it does, and when it hides.
use crate::address::{allowed_document, returned_to_provider, spec_allowed_document, spec_returned};
use crate::provider::Provider;
use crate::provider_login::LoginCompletion;
use vstd::prelude::*;

verus! {

/// Whether the window may load a document.
pub open spec fn window_permits(provider: Provider, destination: Option<Seq<char>>, has_authorization: bool) -> bool {
    !has_authorization && destination is Some && spec_allowed_document(provider, destination->0)
}

/// Whether the window may load a document: one of the provider's account, and never with
/// the bearer header. An address that the browser does not tell is refused.
pub fn permits_document(provider: &Provider, destination: Option<&str>, has_authorization: bool) -> (permitted: bool)
    ensures
        permitted == window_permits(
            *provider,
            match destination {
                Some(text) => Some(text@),
                None => None,
            },
            has_authorization,
        ),
{
    if has_authorization {
        return false;
    }
    match destination {
        Some(text) => allowed_document(provider, text),
        None => false,
    }
}

/// Whether this is `before` after a navigation ended, that came back to the provider's home
/// or did not. A failed one changes nothing.
pub open spec fn completed_from(
    after: LoginCompletion,
    before: LoginCompletion,
    success: bool,
    returned: bool,
    now: u64,
) -> bool {
    after == if !success {
        before
    } else {
        (LoginCompletion {
            returned,
            hidden_since: if returned && before.hidden_since is None { Some(now) } else { before.hidden_since },
            ..before
        })
    }
}

/// Takes the end of a navigation; whether the window hides, because it came back.
pub fn complete_navigation(completion: &mut LoginCompletion, success: bool, returned: bool, now: u64) -> (hides: bool)
    ensures
        hides == (success && returned),
        completed_from(*final(completion), *old(completion), success, returned, now),
{
    if !success {
        return false;
    }
    completion.finished(returned);
    if returned {
        completion.hide_return(now);
    }
    returned
}

/// Takes the end of a navigation to `source`.
pub fn navigation_completed(
    completion: &mut LoginCompletion,
    provider: &Provider,
    success: bool,
    source: &str,
    now: u64,
) -> (hides: bool)
    ensures
        hides == (success && spec_returned(*provider, source@)),
        completed_from(*final(completion), *old(completion), success, spec_returned(*provider, source@), now),
{
    complete_navigation(completion, success, returned_to_provider(provider, source), now)
}

/// What the strip above the page shows.
#[derive(Clone, Copy, Debug, PartialEq, Eq, Structural)]
pub struct LoadStatus {
    pub panel: bool,
    pub spinner: bool,
    /// The words and the button for another try.
    pub retry: bool,
    pub failed: bool,
}

impl LoadStatus {
    pub fn new() -> (status: LoadStatus)
        ensures
            status == LoadStatus::hidden(),
    {
        LoadStatus { panel: false, spinner: false, retry: false, failed: false }
    }

    pub open spec fn hidden() -> LoadStatus {
        LoadStatus { panel: false, spinner: false, retry: false, failed: false }
    }

    pub open spec fn busy() -> LoadStatus {
        LoadStatus { panel: true, spinner: true, retry: false, failed: false }
    }

    pub open spec fn stopped() -> LoadStatus {
        LoadStatus { panel: true, spinner: false, retry: true, failed: true }
    }

    /// A page begins to load.
    pub fn loading(&mut self)
        ensures
            *final(self) == LoadStatus::busy(),
    {
        *self = LoadStatus { panel: true, spinner: true, retry: false, failed: false };
    }

    /// A page could not be loaded, or the browser is gone.
    pub fn fail(&mut self)
        ensures
            *final(self) == LoadStatus::stopped(),
    {
        *self = LoadStatus { panel: true, spinner: false, retry: true, failed: true };
    }

    /// The strip after a page ended loading. A failure stays on show.
    pub open spec fn after_load(self) -> LoadStatus {
        LoadStatus { spinner: false, panel: self.panel && self.failed, ..self }
    }

    pub fn finished(&mut self)
        ensures
            *final(self) == old(self).after_load(),
    {
        self.spinner = false;
        if !self.failed {
            self.panel = false;
        }
    }

    /// The strip after a load ended with an error. One that another navigation or the policy
    /// cut short is no failure.
    pub open spec fn after_error(self, cancelled: bool, interrupted: bool) -> LoadStatus {
        if cancelled || interrupted { self } else { LoadStatus::stopped() }
    }

    pub fn load_failed(&mut self, cancelled: bool, interrupted: bool)
        ensures
            *final(self) == old(self).after_error(cancelled, interrupted),
    {
        if !cancelled && !interrupted {
            self.fail();
        }
    }
}

/// A failure is shown until the next page begins to load, whatever ends in between.
pub proof fn failures_stay_on_show(cancelled: bool, interrupted: bool)
    ensures
        LoadStatus::stopped().after_load() == LoadStatus::stopped(),
        LoadStatus::stopped().after_error(cancelled, interrupted) == LoadStatus::stopped(),
        LoadStatus::busy().after_load() == LoadStatus::hidden(),
{
}

/// No document loads with the account's own credentials, none whose address is not told, and none that
/// is not the provider's.
pub proof fn windows_load_only_account_documents(provider: Provider, destination: Seq<char>, has_authorization: bool)
    ensures
        !window_permits(provider, Some(destination), true),
        !window_permits(provider, None, has_authorization),
        window_permits(provider, Some(destination), false) == spec_allowed_document(provider, destination),
{
}

/// A navigation that succeeded says whether the window came back; a window that came back is hidden
/// from then on, one that was hidden stays so since it was, and a failure changes nothing.
pub proof fn returning_windows_hide(
    before: LoginCompletion,
    after: LoginCompletion,
    success: bool,
    returned: bool,
    now: u64,
)
    requires
        completed_from(after, before, success, returned, now),
    ensures
        !success ==> after == before,
        success ==> after.returned == returned,
        success && returned && before.hidden_since is None ==> after.hidden_since == Some(now),
        before.hidden_since is Some ==> after.hidden_since == before.hidden_since,
        success && !returned ==> after.hidden_since == before.hidden_since,
        after.navigation == before.navigation && after.observed == before.observed,
        !before.observed ==> !after.complete(),
{
}

/// The strip turns while a page loads, goes away once it has, and offers another try after a failure
/// that nothing else cut short.
pub proof fn strips_show_what_happens(status: LoadStatus)
    ensures
        LoadStatus::busy().panel && LoadStatus::busy().spinner && !LoadStatus::busy().retry,
        !LoadStatus::hidden().panel && !LoadStatus::hidden().spinner && !LoadStatus::hidden().retry
            && !LoadStatus::hidden().failed,
        LoadStatus::stopped().panel && LoadStatus::stopped().retry && !LoadStatus::stopped().spinner
            && LoadStatus::stopped().failed,
        !status.after_load().spinner,
        !status.failed ==> !status.after_load().panel,
        status.failed ==> status.after_load().panel == status.panel && status.after_load().retry == status.retry,
        status.after_error(true, false) == status && status.after_error(false, true) == status,
        status.after_error(false, false) == LoadStatus::stopped(),
{
}

} // verus!
