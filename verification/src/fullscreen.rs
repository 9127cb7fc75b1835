//! Expanding the media child inside Brick's own window.
use crate::text::same_text;
use vstd::prelude::*;

verus! {

/// Whether the player fills the window, and whether it may.
#[derive(Clone, Copy, Debug, PartialEq, Eq, Structural)]
pub struct Controller {
    pub active: bool,
    pub enabled: bool,
}

impl Controller {
    /// The layout after the provider or the user asks for `fullscreen`.
    pub open spec fn requested(self, fullscreen: bool) -> Controller {
        if fullscreen && !self.enabled {
            self
        } else {
            Controller { active: fullscreen, ..self }
        }
    }

    /// The layout after the player is enabled or disabled.
    pub open spec fn with_enabled(self, enabled: bool) -> Controller {
        Controller { active: self.active && enabled, enabled }
    }

    pub fn new() -> (control: Controller)
        ensures
            control == (Controller { active: false, enabled: true }),
    {
        Controller { active: false, enabled: true }
    }

    pub fn active(&self) -> (active: bool)
        ensures
            active == self.active,
    {
        self.active
    }

    /// Takes a request; whether the layout has to be drawn again.
    pub fn request(&mut self, fullscreen: bool) -> (repaint: bool)
        ensures
            *final(self) == old(self).requested(fullscreen),
            repaint == (final(self).active != old(self).active),
    {
        if (fullscreen && !self.enabled) || self.active == fullscreen {
            return false;
        }
        self.active = fullscreen;
        true
    }

    /// Opens or shuts the expanded view to requests; shutting it leaves it.
    pub fn set_enabled(&mut self, enabled: bool) -> (repaint: bool)
        ensures
            *final(self) == old(self).with_enabled(enabled),
            repaint == (final(self).active != old(self).active),
    {
        self.enabled = enabled;
        if !enabled {
            self.request(false)
        } else {
            false
        }
    }

    /// The layout after a message of the document's fullscreen script.
    pub open spec fn told(self, text: Seq<char>) -> Controller {
        if text == "enter"@ {
            self.requested(true)
        } else if text == "exit"@ {
            self.requested(false)
        } else {
            self
        }
    }

    /// Takes a message of the document's fullscreen script. Other texts change nothing.
    pub fn message(&mut self, text: &str) -> (repaint: bool)
        ensures
            *final(self) == old(self).told(text@),
            repaint == (final(self).active != old(self).active),
    {
        proof {
            reveal_strlit("enter");
            reveal_strlit("exit");
        }
        if same_text(text, "enter") {
            self.request(true)
        } else if same_text(text, "exit") {
            self.request(false)
        } else {
            false
        }
    }
}

/// An expanded view is always an enabled one, whatever is asked.
pub proof fn expanded_only_while_enabled(control: Controller, fullscreen: bool, enabled: bool)
    requires
        control.active ==> control.enabled,
    ensures
        control.requested(fullscreen).active ==> control.requested(fullscreen).enabled,
        control.with_enabled(enabled).active ==> control.with_enabled(enabled).enabled,
{
}

/// After hiding or closing, a late request cannot expand the view, and a repeated request
/// is the same as one.
pub proof fn late_and_repeated_requests_change_nothing(control: Controller, fullscreen: bool)
    ensures
        !control.with_enabled(false).requested(fullscreen).active,
        control.requested(fullscreen).requested(fullscreen) == control.requested(fullscreen),
{
}

/// An enabled view expands and shrinks as asked; a disabled one only shrinks. Disabling it shrinks it,
/// and enabling it does not expand it.
pub proof fn enabled_views_expand_as_asked(control: Controller)
    ensures
        control.enabled ==> control.requested(true).active,
        !control.enabled ==> control.requested(true) == control,
        !control.requested(false).active,
        control.requested(true).enabled == control.enabled && control.requested(false).enabled == control.enabled,
        !control.with_enabled(false).active && !control.with_enabled(false).enabled,
        control.with_enabled(true).enabled && control.with_enabled(true).active == control.active,
{
}

/// Only two words of the document count: one expands an enabled view and the other shrinks it.
pub proof fn documents_ask_with_two_words(control: Controller, text: Seq<char>)
    ensures
        control.enabled ==> control.told("enter"@).active,
        !control.told("exit"@).active,
        text != "enter"@ && text != "exit"@ ==> control.told(text) == control,
        control.told(text).enabled == control.enabled,
{
    reveal_strlit("enter");
    reveal_strlit("exit");
    assert("enter"@.len() == 5 && "exit"@.len() == 4);
}

} // verus!
