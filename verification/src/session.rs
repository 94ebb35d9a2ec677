//! The session façade and its lifecycle state machine:
//! `Uninitialized → Provisioning → Ready → Stopped`. `stop` moves any
//! state to `Stopped`, is idempotent, and tears the sandbox down only when
//! provisioning had begun — so stopping a session that was never started
//! is a no-op success, as is stopping twice.

use vstd::prelude::*;
use vstd::string::StringExecFns;
use crate::daemon::Daemon;
use crate::daemon::DaemonSettings;
use crate::daemon::default_coordinate_prompt;
use crate::daemon::default_visible_text_prompt;
use crate::ids::new_session_id;

verus! {

#[derive(Debug, Clone, Copy, PartialEq, Eq, Structural)]
pub enum SessionState {
    Uninitialized,
    Provisioning,
    Ready,
    Stopped,
}

#[derive(Debug, Clone, Copy, PartialEq, Eq, Structural)]
pub enum StopAction {
    /// Nothing was provisioned, or teardown already ran: do nothing.
    NoTeardown,
    /// Provisioning had begun: tear the sandbox down.
    Teardown,
}

/// What `stop` does in a given state.
pub open spec fn stop_action_spec(s: SessionState) -> StopAction {
    if s is Provisioning || s is Ready {
        StopAction::Teardown
    } else {
        StopAction::NoTeardown
    }
}

/// Stop always lands in `Stopped` and never fails by itself.
pub open spec fn stop_transition(s: SessionState) -> (SessionState, StopAction) {
    (SessionState::Stopped, stop_action_spec(s))
}

/// Stopping a session that was never started performs no teardown, and a
/// second stop in a row never performs one either: both are no-op
/// successes, whatever came before.
pub proof fn lemma_stop_idempotent(s: SessionState)
    ensures
        stop_transition(s).0 is Stopped,
        s is Uninitialized ==> stop_transition(s).1 is NoTeardown,
        stop_transition(stop_transition(s).0).1 is NoTeardown,
{
}

/// The session façade: its opaque id, the actuation client core, and the
/// lifecycle state.
pub struct George {
    pub id: String,
    pub daemon: Daemon,
    pub state: SessionState,
}

impl George {
    /// A fresh session against the given vision endpoint, not yet started.
    pub fn new(vision_llm_url: &str) -> (g: Self)
        ensures
            g.state is Uninitialized,
            g.id@.len() == 36,
            g.daemon.port is None,
            g.daemon.settings.vision_llm_url@ == vision_llm_url@,
            g.daemon.settings.vision_coordinate_prompt@ == default_coordinate_prompt(),
            g.daemon.settings.is_text_visible_prompt@ == default_visible_text_prompt(),
            g.daemon.settings.vision_llm_auth_token@ == Seq::<char>::empty(),
    {
        George {
            id: new_session_id(),
            daemon: Daemon::new(vision_llm_url),
            state: SessionState::Uninitialized,
        }
    }

    /// A fresh session with custom resolver settings, not yet started.
    pub fn with_daemon_settings(daemon_settings: DaemonSettings) -> (g: Self)
        ensures
            g.state is Uninitialized,
            g.id@.len() == 36,
            g.daemon.port is None,
            g.daemon.settings == daemon_settings,
    {
        George {
            id: new_session_id(),
            daemon: Daemon::with_settings(daemon_settings),
            state: SessionState::Uninitialized,
        }
    }

    /// Replace the vision credential, leaving everything else unchanged.
    pub fn set_vision_llm_auth_token(&mut self, token: &str)
        ensures
            final(self).daemon.settings.vision_llm_auth_token@ == token@,
            final(self).daemon.settings.vision_llm_url == old(self).daemon.settings.vision_llm_url,
            final(self).daemon.settings.vision_coordinate_prompt == old(
                self,
            ).daemon.settings.vision_coordinate_prompt,
            final(self).daemon.settings.is_text_visible_prompt == old(
                self,
            ).daemon.settings.is_text_visible_prompt,
            final(self).daemon.port == old(self).daemon.port,
            final(self).id == old(self).id,
            final(self).state == old(self).state,
    {
        let settings = DaemonSettings {
            vision_coordinate_prompt: self.daemon.settings.vision_coordinate_prompt.clone(),
            vision_llm_url: self.daemon.settings.vision_llm_url.clone(),
            is_text_visible_prompt: self.daemon.settings.is_text_visible_prompt.clone(),
            vision_llm_auth_token: String::from_str(token),
        };
        self.daemon.settings = settings;
    }

    /// Provisioning has begun: from now on `stop` tears the sandbox down.
    pub fn mark_provisioning(&mut self)
        ensures
            final(self).state is Provisioning,
            final(self).id == old(self).id,
            final(self).daemon == old(self).daemon,
    {
        self.state = SessionState::Provisioning;
    }

    /// The sandbox is up and its port resolved: bind the port and become
    /// ready.
    pub fn mark_ready(&mut self, port: String)
        ensures
            final(self).state is Ready,
            final(self).daemon.port == Some(port),
            final(self).daemon.settings == old(self).daemon.settings,
            final(self).id == old(self).id,
    {
        self.daemon.set_port(port);
        self.state = SessionState::Ready;
    }

    /// Move to `Stopped` from any state and say whether teardown is owed.
    /// Safe to call before start and more than once.
    pub fn on_stop(&mut self) -> (a: StopAction)
        ensures
            final(self).state is Stopped,
            a == stop_action_spec(old(self).state),
            final(self).id == old(self).id,
            final(self).daemon == old(self).daemon,
    {
        let a = if matches!(self.state, SessionState::Provisioning) || matches!(
            self.state,
            SessionState::Ready,
        ) {
            StopAction::Teardown
        } else {
            StopAction::NoTeardown
        };
        self.state = SessionState::Stopped;
        a
    }
}

/// The command that opens the browser on a URL inside the sandbox.
pub fn chrome_command(url: &str) -> (r: String)
    ensures
        r@ == ("google-chrome ")@ + url@ + (" --no-sandbox --no-first-run --no-default-browser-check")@,
{
    let mut s = String::from_str("google-chrome ");
    s.append(url);
    s.append(" --no-sandbox --no-first-run --no-default-browser-check");
    proof {
        assert(s@ =~= ("google-chrome ")@ + url@ + (
        " --no-sandbox --no-first-run --no-default-browser-check"
        )@);
    }
    s
}

/// The command that closes the browser inside the sandbox.
pub fn close_chrome_command() -> (r: String)
    ensures
        r@ == ("pkill google-chrome")@,
{
    String::from_str("pkill google-chrome")
}

} // verus!
