//! The inference gateway: one serialized `transcribe` pass per recording.
//!
//! The native engine's decoding state tolerates no concurrent access. Each
//! finished recording is submitted as a pending job; a job enters the engine
//! only when no other job is inside (a refused acquire models a task that
//! keeps waiting), and jobs enter in arrival order. The engine itself is an
//! external collaborator: the outcome of one decoding pass reaches the
//! gateway as the recognized segments, or as a failure.

use vstd::prelude::*;
use crate::errors::CoreError;
use crate::text::{join_segments, spec_transcript};

verus! {

/// What one decoding pass of the external engine came back with.
pub enum EngineOutcome {
    /// The recognized segments, in order.
    Decoded(Vec<String>),
    /// The engine refused or failed on this buffer.
    Failed,
}

/// The gateway's mathematical state. `B` is the audio-buffer payload.
#[verifier::ext_equal]
pub ghost struct GatewayModel<B> {
    /// Jobs waiting for the engine, in arrival order, with their buffers.
    pub waiting: Seq<(u64, B)>,
    /// The job holding the engine, if any.
    pub current: Option<u64>,
    /// Every job ever submitted, in arrival order.
    pub submitted: Seq<u64>,
    /// Jobs whose pass has finished, in completion order.
    pub completed: Seq<u64>,
    /// Texts handed onward for injection, each with the cycle that
    /// produced it, in completion order.
    pub delivered: Seq<(u64, Seq<char>)>,
}

pub open spec fn current_seq<B>(m: GatewayModel<B>) -> Seq<u64> {
    match m.current {
        Some(id) => seq![id],
        None => Seq::empty(),
    }
}

pub open spec fn waiting_ids<B>(m: GatewayModel<B>) -> Seq<u64> {
    m.waiting.map_values(|p: (u64, B)| p.0)
}

/// Job ids are handed out in submission order, and every submitted job is in
/// exactly one place: completed, inside the engine, or waiting.
pub open spec fn gateway_wf<B>(m: GatewayModel<B>) -> bool {
    &&& m.submitted =~= m.completed + current_seq(m) + waiting_ids(m)
    &&& forall|i: int| 0 <= i < m.submitted.len() ==> m.submitted[i] as int == i
    &&& forall|i: int| 0 <= i < m.delivered.len() ==> m.delivered[i].0 < m.completed.len()
    &&& forall|i: int, j: int|
        0 <= i < j < m.delivered.len() ==> m.delivered[i].0 < m.delivered[j].0
}

/// A finished recording arrives: it takes the next id and waits.
pub open spec fn spec_submit<B>(m: GatewayModel<B>, audio: B) -> (GatewayModel<B>, u64) {
    let id = m.submitted.len() as u64;
    (
        GatewayModel {
            waiting: m.waiting.push((id, audio)),
            submitted: m.submitted.push(id),
            ..m
        },
        id,
    )
}

/// A waiting job enters the engine only when the engine is free; otherwise
/// nothing changes and the job keeps waiting.
pub open spec fn spec_acquire<B>(m: GatewayModel<B>) -> (GatewayModel<B>, Option<(u64, B)>) {
    if m.current is Some || m.waiting.len() == 0 {
        (m, None)
    } else {
        let job = m.waiting[0];
        (GatewayModel { waiting: m.waiting.drop_first(), current: Some(job.0), ..m }, Some(job))
    }
}

/// The engine pass of the current job ends: on success its text is delivered,
/// on failure nothing is; either way the engine is released.
pub open spec fn spec_complete<B>(m: GatewayModel<B>, text: Option<Seq<char>>) -> GatewayModel<
    B,
> {
    GatewayModel {
        current: None,
        completed: m.completed.push(m.current.unwrap()),
        delivered: match text {
            Some(t) => m.delivered.push((m.current.unwrap(), t)),
            None => m.delivered,
        },
        ..m
    }
}

/// The text an engine outcome delivers, if any.
pub open spec fn spec_outcome_text(outcome: EngineOutcome) -> Option<Seq<char>> {
    match outcome {
        EngineOutcome::Decoded(segs) => Some(spec_transcript(segs.deep_view())),
        EngineOutcome::Failed => None,
    }
}

/// Owns the engine's decoding state and serializes access to it.
pub struct TranscriptionManager<B> {
    waiting: Vec<(u64, B)>,
    current: Option<u64>,
    submitted: Vec<u64>,
    completed: Vec<u64>,
    delivered: Vec<(u64, String)>,
}

impl<B> View for TranscriptionManager<B> {
    type V = GatewayModel<B>;

    closed spec fn view(&self) -> GatewayModel<B> {
        GatewayModel {
            waiting: self.waiting@,
            current: self.current,
            submitted: self.submitted@,
            completed: self.completed@,
            delivered: Seq::new(
                self.delivered@.len(),
                |i: int| (self.delivered@[i].0, self.delivered@[i].1@),
            ),
        }
    }
}

impl<B> TranscriptionManager<B> {
    pub open spec fn wf(&self) -> bool {
        gateway_wf(self@)
    }

    pub fn new() -> (r: TranscriptionManager<B>)
        ensures
            r.wf(),
            r@ == (GatewayModel::<B> {
                waiting: Seq::empty(),
                current: None,
                submitted: Seq::empty(),
                completed: Seq::empty(),
                delivered: Seq::empty(),
            }),
    {
        let r = TranscriptionManager {
            waiting: Vec::new(),
            current: None,
            submitted: Vec::new(),
            completed: Vec::new(),
            delivered: Vec::new(),
        };
        proof {
            assert(r@ =~= GatewayModel::<B> {
                waiting: Seq::empty(),
                current: None,
                submitted: Seq::empty(),
                completed: Seq::empty(),
                delivered: Seq::empty(),
            });
            assert(r@.submitted =~= r@.completed + current_seq(r@) + waiting_ids(r@));
        }
        r
    }

    /// The asynchronous task of one finished recording arrives with its
    /// buffer and queues up for the engine.
    pub fn submit(&mut self, audio: B) -> (id: u64)
        requires
            old(self).wf(),
        ensures
            final(self).wf(),
            ({
                let (m2, sid) = spec_submit(old(self)@, audio);
                final(self)@ == m2 && id == sid
            }),
    {
        let id: u64 = self.submitted.len() as u64;
        self.submitted.push(id);
        self.waiting.push((id, audio));
        proof {
            let (m2, _) = spec_submit(old(self)@, audio);
            assert(self@ =~= m2);
            assert(waiting_ids(self@) =~= waiting_ids(old(self)@).push(id));
            assert(self@.submitted =~= self@.completed + current_seq(self@) + waiting_ids(self@));
        }
        id
    }

    /// Takes the engine for the frontmost waiting job. While another job
    /// holds the engine nothing happens: the callers keep waiting.
    pub fn acquire(&mut self) -> (r: Option<(u64, B)>)
        requires
            old(self).wf(),
        ensures
            final(self).wf(),
            ({
                let (m2, rr) = spec_acquire(old(self)@);
                final(self)@ == m2 && r == rr
            }),
    {
        if self.current.is_some() {
            return None;
        }
        if self.waiting.len() == 0 {
            return None;
        }
        let (id, buf) = self.waiting.remove(0);
        self.current = Some(id);
        proof {
            let (m2, _) = spec_acquire(old(self)@);
            assert(self@.waiting =~= old(self)@.waiting.drop_first());
            assert(self@ =~= m2);
            assert(waiting_ids(self@) =~= waiting_ids(old(self)@).drop_first());
            assert(self@.submitted =~= self@.completed + current_seq(self@) + waiting_ids(self@));
        }
        Some((id, buf))
    }

    /// The engine pass of the current job has ended with `outcome`. On
    /// success the joined transcript is recorded as delivered and returned;
    /// on failure the cycle delivers nothing. The engine is released either
    /// way.
    pub fn complete(&mut self, outcome: EngineOutcome) -> (r: Result<String, CoreError>)
        requires
            old(self).wf(),
            old(self)@.current is Some,
        ensures
            final(self).wf(),
            final(self)@ == spec_complete(old(self)@, spec_outcome_text(outcome)),
            match r {
                Ok(t) => outcome is Decoded && Some(t@) == spec_outcome_text(outcome),
                Err(e) => outcome is Failed && e == CoreError::EngineError,
            },
    {
        let id = self.current.unwrap();
        self.current = None;
        self.completed.push(id);
        match outcome {
            EngineOutcome::Decoded(segs) => {
                let text = join_segments(&segs);
                self.delivered.push((id, text.clone()));
                proof {
                    let out = spec_outcome_text(EngineOutcome::Decoded(segs));
                    assert(self@.delivered =~= old(self)@.delivered.push((id, text@)));
                    assert(self@ =~= spec_complete(old(self)@, out));
                    lemma_complete_wf(old(self)@, out);
                }
                Ok(text)
            },
            EngineOutcome::Failed => {
                proof {
                    assert(self@.delivered =~= old(self)@.delivered);
                    assert(self@ =~= spec_complete(old(self)@, None));
                    lemma_complete_wf(old(self)@, None);
                }
                Err(CoreError::EngineError)
            },
        }
    }

    /// One whole serialized transcription call, issued when the engine is
    /// idle and no earlier job is waiting: the buffer is queued, enters the
    /// engine at once, and the pass runs to its outcome.
    pub fn transcribe(&mut self, audio: B, outcome: EngineOutcome) -> (r: Result<
        String,
        CoreError,
    >)
        requires
            old(self).wf(),
            old(self)@.current is None,
            old(self)@.waiting.len() == 0,
        ensures
            final(self).wf(),
            ({
                let (m1, id) = spec_submit(old(self)@, audio);
                let (m2, job) = spec_acquire(m1);
                final(self)@ == spec_complete(m2, spec_outcome_text(outcome))
            }),
            match r {
                Ok(t) => outcome is Decoded && Some(t@) == spec_outcome_text(outcome),
                Err(e) => outcome is Failed && e == CoreError::EngineError,
            },
    {
        let _id = self.submit(audio);
        let got = self.acquire();
        match got {
            Some(_) => self.complete(outcome),
            None => {
                proof {
                    assert(false);
                }
                Err(CoreError::EngineError)
            },
        }
    }

    /// Jobs finished so far, in completion order.
    pub fn completed_ids(&self) -> (r: &Vec<u64>)
        ensures
            r@ == self@.completed,
    {
        &self.completed
    }

    /// Texts handed onward for injection, each with its cycle id, in
    /// completion order.
    pub fn delivered_texts(&self) -> (r: &Vec<(u64, String)>)
        ensures
            r@.len() == self@.delivered.len(),
            forall|i: int|
                0 <= i < r@.len() ==> (r@[i].0, r@[i].1@) == self@.delivered[i],
    {
        &self.delivered
    }

    /// Whether a job currently holds the engine.
    pub fn is_busy(&self) -> (r: bool)
        ensures
            r == (self@.current is Some),
    {
        self.current.is_some()
    }
}

proof fn lemma_complete_wf<B>(m: GatewayModel<B>, text: Option<Seq<char>>)
    requires
        gateway_wf(m),
        m.current is Some,
    ensures
        gateway_wf(spec_complete(m, text)),
{
    let m2 = spec_complete(m, text);
    let id = m.current.unwrap();
    assert(m2.submitted =~= m2.completed + current_seq(m2) + waiting_ids(m2)) by {
        assert(m.submitted =~= m.completed + seq![id] + waiting_ids(m));
        assert(m2.completed =~= m.completed.push(id));
        assert(m2.completed + current_seq(m2) + waiting_ids(m2) =~= m.completed + seq![
            id,
        ] + waiting_ids(m));
    }
    assert(id as int == m.completed.len() as int) by {
        assert(m.submitted =~= m.completed + seq![id] + waiting_ids(m));
        assert(m.submitted[m.completed.len() as int] == id);
    }
    if text is Some {
        assert(m2.delivered =~= m.delivered.push((id, text.unwrap())));
        assert(m2.delivered[m.delivered.len() as int].0 == id);
        assert(forall|i: int|
            0 <= i < m.delivered.len() ==> m2.delivered[i] == m.delivered[i]);
    }
}

/// One engine pass at a time: while a job holds the engine, any further
/// attempt to enter changes nothing and admits nobody.
pub proof fn lemma_transcribe_serialized<B>(m: GatewayModel<B>)
    requires
        m.current is Some,
    ensures
        spec_acquire(m) == (m, None::<(u64, B)>),
{
}

/// A round of `n` competing acquire attempts with no completion between
/// them: at most one attempt is admitted into the engine, however many
/// asynchronous tasks contend.
pub open spec fn spec_acquire_round<B>(m: GatewayModel<B>, n: nat) -> (GatewayModel<B>, nat)
    decreases n,
{
    if n == 0 {
        (m, 0)
    } else {
        let (m1, got) = spec_acquire(m);
        let (m2, admitted) = spec_acquire_round(m1, (n - 1) as nat);
        (m2, admitted + if got is Some { 1nat } else { 0nat })
    }
}

pub proof fn lemma_engine_admits_one<B>(m: GatewayModel<B>, n: nat)
    ensures
        m.current is Some ==> spec_acquire_round(m, n).1 == 0,
        spec_acquire_round(m, n).1 <= 1,
    decreases n,
{
    if n > 0 {
        let (m1, got) = spec_acquire(m);
        lemma_engine_admits_one(m1, (n - 1) as nat);
    }
}

/// Results are produced in the order the recordings were stopped: what has
/// completed is always the first stretch of what was submitted, in order.
pub proof fn lemma_results_in_stop_order<B>(m: GatewayModel<B>)
    requires
        gateway_wf(m),
    ensures
        m.completed =~= m.submitted.take(m.completed.len() as int),
{
    assert(m.submitted =~= m.completed + current_seq(m) + waiting_ids(m));
}

/// Texts are delivered in the order their recordings were stopped: every
/// delivered text belongs to a completed cycle, and texts delivered earlier
/// belong to cycles stopped earlier.
pub proof fn lemma_delivery_in_stop_order<B>(m: GatewayModel<B>)
    requires
        gateway_wf(m),
    ensures
        forall|i: int|
            0 <= i < m.delivered.len() ==> m.completed.contains(#[trigger] m.delivered[i].0),
        forall|i: int, j: int|
            0 <= i < j < m.delivered.len() ==> m.delivered[i].0 < m.delivered[j].0,
{
    assert(m.submitted =~= m.completed + current_seq(m) + waiting_ids(m));
    assert forall|i: int|
        0 <= i < m.delivered.len() implies m.completed.contains(
        #[trigger] m.delivered[i].0,
    ) by {
        let k = m.delivered[i].0 as int;
        assert(m.completed[k] == m.submitted[k]);
        assert(m.submitted[k] as int == k);
        assert(m.completed[k] == m.delivered[i].0);
    }
}

} // verus!
