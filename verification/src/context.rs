//! The hotkey state machine, wired into one application context.
//!
//! Press and release events arrive from the OS listener's callback path,
//! which must never block; the handlers here only move bookkeeping state and
//! queue work, and the blocking engine pass runs later from an asynchronous
//! task (see [`crate::transcription`]). A press begins a capture session and
//! shows the recording indicator; a release ends the session, resets the
//! indicator, and submits the captured buffer for transcription. Duplicate
//! presses and stray releases are no-ops.

use vstd::prelude::*;
use crate::recording::{spec_stop, spec_try_start, RecordingCoordinator};
use crate::shortcut::ShortcutCenter;
use crate::transcription::{spec_submit, GatewayModel, TranscriptionManager};

verus! {

/// What the visual indicator (tray icon) shows.
#[derive(Clone, Copy, Debug, PartialEq, Eq, Structural)]
pub enum FeedbackState {
    Idle,
    Recording,
}

/// The application context handed into every handler: the binding center,
/// the recording coordinator, the inference gateway, the visual indicator,
/// and the session token the hotkey drives.
pub struct AppContext<B> {
    pub shortcuts: ShortcutCenter,
    pub recorder: RecordingCoordinator,
    pub engine: TranscriptionManager<B>,
    pub feedback: FeedbackState,
    pub token: String,
}

impl<B> AppContext<B> {
    pub open spec fn wf(&self) -> bool {
        &&& self.shortcuts.wf()
        &&& self.recorder.wf()
        &&& self.engine.wf()
    }

    /// A fresh context around an initialized binding center: no session is
    /// active, nothing is queued, the indicator shows idle.
    pub fn new(shortcuts: ShortcutCenter, token: String) -> (r: AppContext<B>)
        requires
            shortcuts.wf(),
        ensures
            r.wf(),
            r.shortcuts == shortcuts,
            r.token == token,
            r.feedback == FeedbackState::Idle,
            r.recorder@ == Set::<Seq<char>>::empty(),
            r.engine@ == (GatewayModel::<B> {
                waiting: Seq::empty(),
                current: None,
                submitted: Seq::empty(),
                completed: Seq::empty(),
                delivered: Seq::empty(),
            }),
    {
        AppContext {
            shortcuts,
            recorder: RecordingCoordinator::new(),
            engine: TranscriptionManager::new(),
            feedback: FeedbackState::Idle,
            token,
        }
    }

    /// The hotkey went down: begin a capture session for the token, and only
    /// when one actually began, show the recording indicator. A duplicate
    /// press changes nothing.
    pub fn handle_press(&mut self) -> (started: bool)
        requires
            old(self).wf(),
        ensures
            final(self).wf(),
            started == spec_try_start(old(self).recorder@, old(self).token@).1,
            final(self).recorder@ == spec_try_start(old(self).recorder@, old(self).token@).0,
            final(self).feedback == (if started {
                FeedbackState::Recording
            } else {
                old(self).feedback
            }),
            final(self).shortcuts == old(self).shortcuts,
            final(self).engine == old(self).engine,
            final(self).token == old(self).token,
    {
        let token = self.token.clone();
        let started = self.recorder.try_start(&token);
        if started {
            self.feedback = FeedbackState::Recording;
        }
        started
    }

    /// The hotkey came up: end the session if one was active, reset the
    /// indicator, and when the backend captured a buffer, submit it for
    /// transcription. The submitted job id is returned. A release with no
    /// active session changes nothing.
    pub fn handle_release(&mut self, captured: Option<B>) -> (job: Option<u64>)
        requires
            old(self).wf(),
        ensures
            final(self).wf(),
            final(self).recorder@ == spec_stop(old(self).recorder@, old(self).token@).0,
            final(self).feedback == (if old(self).recorder@.contains(old(self).token@) {
                FeedbackState::Idle
            } else {
                old(self).feedback
            }),
            (if old(self).recorder@.contains(old(self).token@) && captured is Some {
                job == Some(spec_submit(old(self).engine@, captured.unwrap()).1)
                    && final(self).engine@ == spec_submit(
                    old(self).engine@,
                    captured.unwrap(),
                ).0
            } else {
                job is None && final(self).engine == old(self).engine
            }),
            final(self).shortcuts == old(self).shortcuts,
            final(self).token == old(self).token,
    {
        let token = self.token.clone();
        let was_active = self.recorder.is_active(&token);
        let got = self.recorder.stop(&token, captured);
        if was_active {
            self.feedback = FeedbackState::Idle;
        }
        match got {
            Some(buf) => Some(self.engine.submit(buf)),
            None => None,
        }
    }

    /// An event from the OS listener: only a combination that is currently
    /// registered reaches the handlers; anything else changes nothing.
    pub fn on_hotkey_event(&mut self, combo: &String, pressed: bool, captured: Option<B>) -> (job:
        Option<u64>)
        requires
            old(self).wf(),
        ensures
            final(self).wf(),
            final(self).shortcuts == old(self).shortcuts,
            final(self).token == old(self).token,
            ({
                let t = old(self).token@;
                let registered = old(self).shortcuts@.registered.contains(combo@);
                if !registered {
                    *final(self) == *old(self) && job is None
                } else if pressed {
                    &&& job is None
                    &&& final(self).recorder@ == spec_try_start(old(self).recorder@, t).0
                    &&& final(self).feedback == (if spec_try_start(old(self).recorder@, t).1 {
                        FeedbackState::Recording
                    } else {
                        old(self).feedback
                    })
                    &&& final(self).engine == old(self).engine
                } else {
                    &&& final(self).recorder@ == spec_stop(old(self).recorder@, t).0
                    &&& final(self).feedback == (if old(self).recorder@.contains(t) {
                        FeedbackState::Idle
                    } else {
                        old(self).feedback
                    })
                    &&& (if old(self).recorder@.contains(t) && captured is Some {
                        job == Some(spec_submit(old(self).engine@, captured.unwrap()).1)
                            && final(self).engine@ == spec_submit(
                            old(self).engine@,
                            captured.unwrap(),
                        ).0
                    } else {
                        job is None && final(self).engine == old(self).engine
                    })
                }
            }),
    {
        if !self.shortcuts.triggers(combo) {
            return None;
        }
        if pressed {
            let _started = self.handle_press();
            None
        } else {
            self.handle_release(captured)
        }
    }
}

} // verus!
