//! The incoming-call notification: which window to show for the call that is
//! ringing, and what answering it asks of the call service.
use vstd::prelude::*;

verus! {

/// The user who calls.
#[derive(Clone, Debug)]
pub struct Caller {
    pub id: u64,
    pub github_login: String,
    pub avatar: Option<Vec<u8>>,
}

/// A call invitation, with the project to join once the call is accepted.
#[derive(Clone, Debug)]
pub struct IncomingCall {
    pub caller: Caller,
    pub initial_project_id: Option<u64>,
}

/// What the window layer is asked to do.
#[derive(Clone, Debug)]
pub enum WindowAction {
    Close { window: u64 },
    Open { call: IncomingCall },
}

/// Tracks the one notification window that may be open.
#[derive(Clone, Debug)]
pub struct CallNotifier {
    pub window: Option<u64>,
}

impl CallNotifier {
    pub fn new() -> (r: CallNotifier)
        ensures
            r.window is None,
    {
        CallNotifier { window: None }
    }

    /// The call store reports the call that now rings, if any: the window that
    /// is open closes, and one opens for the new call.
    pub fn on_incoming_call(&mut self, call: Option<IncomingCall>) -> (actions: Vec<WindowAction>)
        ensures
            final(self).window is None,
            actions@.len() == (if old(self).window is Some { 1int } else { 0int }) + (if call is Some {
                1int
            } else {
                0int
            }),
            old(self).window is Some ==> actions@[0] == (WindowAction::Close {
                window: old(self).window->0,
            }),
            call is Some ==> actions@[actions@.len() - 1] == (WindowAction::Open { call: call->0 }),
    {
        let mut actions: Vec<WindowAction> = Vec::new();
        if let Some(window) = self.window {
            actions.push(WindowAction::Close { window });
        }
        self.window = None;
        if let Some(call) = call {
            actions.push(WindowAction::Open { call });
        }
        actions
    }

    /// The window asked for by the last `Open` now shows, under `window`.
    pub fn on_window_opened(&mut self, window: u64)
        ensures
            final(self).window == Some(window),
    {
        self.window = Some(window);
    }

    /// The window `window` closed on its own, after the user answered.
    pub fn on_window_closed(&mut self, window: u64)
        ensures
            final(self).window == if old(self).window == Some(window) {
                None
            } else {
                old(self).window
            },
    {
        if self.window == Some(window) {
            self.window = None;
        }
    }
}

/// What answering a call asks of the services; the window closes either way.
#[derive(Clone, Debug, PartialEq, Eq, Structural)]
pub enum CallAction {
    /// Start joining the call; the outcome is reported later.
    JoinCall,
    /// Decline the call; a failure is only logged.
    DeclineCall,
    CloseWindow,
}

/// Join project `project_id` and follow user `follow_user_id`.
#[derive(Clone, Copy, Debug, PartialEq, Eq, Structural)]
pub struct JoinProject {
    pub project_id: u64,
    pub follow_user_id: u64,
}

/// The window that shows one incoming call.
#[derive(Clone, Debug)]
pub struct IncomingCallNotification {
    pub call: IncomingCall,
}

impl IncomingCallNotification {
    pub fn new(call: IncomingCall) -> (r: IncomingCallNotification)
        ensures
            r.call == call,
    {
        IncomingCallNotification { call }
    }

    /// The user clicked Accept (`accept`) or Decline: first the request to
    /// the call service or user store, then the window closes at once.
    pub fn respond_to_call(&self, accept: bool) -> (actions: Vec<CallAction>)
        ensures
            actions@ == if accept {
                seq![CallAction::JoinCall, CallAction::CloseWindow]
            } else {
                seq![CallAction::DeclineCall, CallAction::CloseWindow]
            },
    {
        let first = if accept {
            CallAction::JoinCall
        } else {
            CallAction::DeclineCall
        };
        let actions = vec![first, CallAction::CloseWindow];
        actions
    }

    /// The join that accepting started finished, successfully or not: after
    /// success, a call that names a project asks to join it and follow the
    /// caller; a failure asks for nothing more.
    pub fn join_finished(&self, joined: bool) -> (r: Option<JoinProject>)
        ensures
            r == if joined && self.call.initial_project_id is Some {
                Some(
                    JoinProject {
                        project_id: self.call.initial_project_id->0,
                        follow_user_id: self.call.caller.id,
                    },
                )
            } else {
                None::<JoinProject>
            },
    {
        if joined {
            match self.call.initial_project_id {
                Some(project_id) => Some(
                    JoinProject { project_id, follow_user_id: self.call.caller.id },
                ),
                None => None,
            }
        } else {
            None
        }
    }
}

} // verus!
