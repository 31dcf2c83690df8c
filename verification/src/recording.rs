//! The recording coordinator: capture-session bookkeeping per session token.
//!
//! The audio backend that actually buffers samples is an external
//! collaborator; the coordinator owns only the rule that at most one capture
//! session is active per token. `try_start` begins a session exactly when
//! none is active; `stop` ends it and passes through whatever the backend
//! captured. The view of the coordinator is the set of active tokens.

use vstd::prelude::*;
use crate::strset::StrSet;

verus! {

/// One `try_start` step over the set of active tokens: the session begins
/// exactly when none is active for the token.
pub open spec fn spec_try_start(sessions: Set<Seq<char>>, token: Seq<char>) -> (Set<
    Seq<char>,
>, bool) {
    if sessions.contains(token) {
        (sessions, false)
    } else {
        (sessions.insert(token), true)
    }
}

/// One `stop` step: the token's session ends if one was active.
pub open spec fn spec_stop(sessions: Set<Seq<char>>, token: Seq<char>) -> (Set<Seq<char>>, bool) {
    if sessions.contains(token) {
        (sessions.remove(token), true)
    } else {
        (sessions, false)
    }
}

pub struct RecordingCoordinator {
    active: StrSet,
}

impl View for RecordingCoordinator {
    type V = Set<Seq<char>>;

    closed spec fn view(&self) -> Set<Seq<char>> {
        self.active@
    }
}

impl RecordingCoordinator {
    pub closed spec fn wf(&self) -> bool {
        self.active.wf()
    }

    pub fn new() -> (r: RecordingCoordinator)
        ensures
            r.wf(),
            r@ == Set::<Seq<char>>::empty(),
    {
        RecordingCoordinator { active: StrSet::new() }
    }

    pub fn is_active(&self, token: &String) -> (r: bool)
        ensures
            r == self@.contains(token@),
    {
        self.active.contains(token)
    }

    /// Begins a capture session for `token`, unless one is already active;
    /// reports whether a session began. A refused start has no side effect.
    pub fn try_start(&mut self, token: &String) -> (r: bool)
        requires
            old(self).wf(),
        ensures
            final(self).wf(),
            r == spec_try_start(old(self)@, token@).1,
            final(self)@ == spec_try_start(old(self)@, token@).0,
    {
        let r = self.active.insert(token.clone());
        proof {
            if old(self)@.contains(token@) {
                assert(old(self)@.insert(token@) =~= old(self)@);
            }
        }
        r
    }

    /// Ends the session for `token` and hands through what the backend
    /// captured; yields nothing when no session was active.
    pub fn stop<B>(&mut self, token: &String, captured: Option<B>) -> (r: Option<B>)
        requires
            old(self).wf(),
        ensures
            final(self).wf(),
            final(self)@ == spec_stop(old(self)@, token@).0,
            r == (if old(self)@.contains(token@) {
                captured
            } else {
                None::<B>
            }),
    {
        if self.active.remove(token) {
            captured
        } else {
            None
        }
    }
}

/// A stop for a token with no active session — a duplicate release, or one
/// that arrives after the session already ended — is a full no-op: the
/// session set is unchanged and nothing is yielded.
pub proof fn lemma_stray_stop_is_no_op(sessions: Set<Seq<char>>, token: Seq<char>)
    ensures
        !sessions.contains(token) ==> spec_stop(sessions, token) == (sessions, false),
{
}

/// A second `try_start` for the same token, with no `stop` between, never
/// begins a second session: it is refused and leaves the sessions unchanged.
pub proof fn lemma_no_duplicate_session(sessions: Set<Seq<char>>, token: Seq<char>)
    ensures
        ({
            let (s1, started1) = spec_try_start(sessions, token);
            let (s2, started2) = spec_try_start(s1, token);
            started1 ==> !started2 && s2 == s1
        }),
{
}

} // verus!
