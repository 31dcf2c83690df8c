use ptt_core::context::{AppContext, FeedbackState};
use ptt_core::errors::CoreError;
use ptt_core::recording::RecordingCoordinator;
use ptt_core::shortcut::{init_shortcuts, OsResponse, ShortcutBinding};
use ptt_core::text::{join_segments, trim_whitespace};
use ptt_core::transcription::{EngineOutcome, TranscriptionManager};

fn token() -> String {
    "transcribe".to_string()
}

fn context() -> AppContext<Vec<f32>> {
    let center = init_shortcuts(
        vec![ShortcutBinding {
            id: "ptt".to_string(),
            current_binding: "Alt+Space".to_string(),
            default_binding: "Alt+Space".to_string(),
        }],
        vec![OsResponse::Accepted],
    );
    AppContext::new(center, token())
}

fn segments(parts: &[&str]) -> EngineOutcome {
    EngineOutcome::Decoded(parts.iter().map(|p| p.to_string()).collect())
}

#[test]
fn second_start_without_stop_fails() {
    let mut rec = RecordingCoordinator::new();
    assert!(rec.try_start(&token()));
    assert!(!rec.try_start(&token()));
    let out = rec.stop(&token(), Some(vec![0.25f32]));
    assert_eq!(out, Some(vec![0.25f32]));
    assert!(rec.try_start(&token()));
}

#[test]
fn stop_yields_the_buffer_exactly_once() {
    let mut rec = RecordingCoordinator::new();
    assert!(rec.try_start(&token()));
    let out = rec.stop(&token(), Some(vec![0.5f32, -0.5f32]));
    assert_eq!(out, Some(vec![0.5f32, -0.5f32]));
    let again = rec.stop(&token(), Some(vec![1.0f32]));
    assert_eq!(again, None);
}

#[test]
fn independent_tokens_do_not_interfere() {
    let mut rec = RecordingCoordinator::new();
    assert!(rec.try_start(&"transcribe".to_string()));
    assert!(rec.try_start(&"dictate".to_string()));
    let out = rec.stop::<Vec<f32>>(&"dictate".to_string(), None);
    assert_eq!(out, None);
    assert!(rec.is_active(&"transcribe".to_string()));
    assert!(!rec.is_active(&"dictate".to_string()));
}

#[test]
fn engine_is_never_entered_concurrently() {
    let mut tm: TranscriptionManager<Vec<f32>> = TranscriptionManager::new();
    tm.submit(vec![0.1f32]);
    tm.submit(vec![0.2f32]);
    let first = tm.acquire();
    assert_eq!(first.as_ref().map(|j| j.0), Some(0));
    assert!(tm.is_busy());
    // While the first job holds the engine, nothing else gets in.
    assert!(tm.acquire().is_none());
    assert!(tm.acquire().is_none());
    let r = tm.complete(segments(&["one"]));
    assert_eq!(r.unwrap(), "one");
    assert!(!tm.is_busy());
    let second = tm.acquire();
    assert_eq!(second.as_ref().map(|j| j.0), Some(1));
}

#[test]
fn results_come_in_the_order_recordings_stopped() {
    let mut ctx = context();
    let texts = ["first", "second", "third"];
    for (i, _) in texts.iter().enumerate() {
        let job = ctx.on_hotkey_event(&"Alt+Space".to_string(), true, None);
        assert!(job.is_none());
        let job = ctx.on_hotkey_event(
            &"Alt+Space".to_string(),
            false,
            Some(vec![i as f32]),
        );
        assert_eq!(job, Some(i as u64));
    }
    // Three cycles stopped before any inference finished; now the engine
    // serves them one by one, in arrival order.
    for text in texts.iter() {
        let job = ctx.engine.acquire();
        assert!(job.is_some());
        let r = ctx.engine.complete(segments(&[text]));
        assert_eq!(r.unwrap(), *text);
    }
    assert_eq!(ctx.engine.completed_ids().as_slice(), &[0, 1, 2]);
    assert_eq!(
        ctx.engine.delivered_texts().as_slice(),
        &[
            (0u64, "first".to_string()),
            (1u64, "second".to_string()),
            (2u64, "third".to_string()),
        ]
    );
}

#[test]
fn engine_failure_delivers_no_text() {
    let mut tm: TranscriptionManager<Vec<f32>> = TranscriptionManager::new();
    // An empty buffer the engine refuses: the cycle ends with an error, no
    // text is delivered, and the gateway is free again.
    let r = tm.transcribe(vec![], EngineOutcome::Failed);
    assert_eq!(r, Err(CoreError::EngineError));
    assert!(tm.delivered_texts().is_empty());
    assert_eq!(tm.completed_ids().as_slice(), &[0]);
    assert!(!tm.is_busy());
    let r = tm.transcribe(vec![0.5f32], segments(&[" hello"]));
    assert_eq!(r.unwrap(), "hello");
}

#[test]
fn release_without_a_session_is_a_no_op() {
    let mut ctx = context();
    let job = ctx.on_hotkey_event(&"Alt+Space".to_string(), false, Some(vec![0.5f32]));
    assert!(job.is_none());
    assert_eq!(ctx.feedback, FeedbackState::Idle);
    assert!(ctx.engine.completed_ids().is_empty());
}

#[test]
fn release_with_nothing_captured_submits_nothing() {
    let mut ctx = context();
    ctx.on_hotkey_event(&"Alt+Space".to_string(), true, None);
    assert_eq!(ctx.feedback, FeedbackState::Recording);
    let job = ctx.on_hotkey_event(&"Alt+Space".to_string(), false, None);
    assert!(job.is_none());
    assert_eq!(ctx.feedback, FeedbackState::Idle);
    assert!(!ctx.recorder.is_active(&token()));
}

#[test]
fn a_new_recording_may_begin_while_inference_waits() {
    let mut ctx = context();
    ctx.on_hotkey_event(&"Alt+Space".to_string(), true, None);
    let job = ctx.on_hotkey_event(&"Alt+Space".to_string(), false, Some(vec![0.1f32]));
    assert_eq!(job, Some(0));
    // The first cycle's inference has not run, yet a new capture starts.
    let started = ctx.on_hotkey_event(&"Alt+Space".to_string(), true, None);
    assert!(started.is_none());
    assert!(ctx.recorder.is_active(&token()));
    assert_eq!(ctx.engine.completed_ids().len(), 0);
}

#[test]
fn transcript_joins_segments_with_spaces_and_trims_the_ends() {
    let segs: Vec<String> = vec![" Hello".to_string(), " world ".to_string()];
    assert_eq!(join_segments(&segs), "Hello  world");
    let one: Vec<String> = vec!["hi".to_string()];
    assert_eq!(join_segments(&one), "hi");
    let none: Vec<String> = vec![];
    assert_eq!(join_segments(&none), "");
    let blank: Vec<String> = vec!["   ".to_string(), " ".to_string()];
    assert_eq!(join_segments(&blank), "");
}

#[test]
fn trim_removes_only_the_outer_whitespace() {
    assert_eq!(trim_whitespace(&"  a b  ".to_string()), "a b");
    assert_eq!(trim_whitespace(&"ab".to_string()), "ab");
    assert_eq!(trim_whitespace(&"   ".to_string()), "");
    assert_eq!(trim_whitespace(&"".to_string()), "");
    assert_eq!(trim_whitespace(&"\t x y \n".to_string()), "x y");
    assert_eq!(trim_whitespace(&"\u{00A0}z\u{3000}".to_string()), "z");
}

#[test]
fn trim_matches_the_standard_trim() {
    for s in ["  a b  ", "\n\thi\r\n", "a\n", " \u{2028}mixed\u{205F} ", "inner \t kept"] {
        assert_eq!(trim_whitespace(&s.to_string()), s.trim());
    }
}

#[test]
fn transcript_sheds_a_trailing_newline() {
    let mut tm: TranscriptionManager<Vec<f32>> = TranscriptionManager::new();
    let r = tm.transcribe(vec![0.5f32], segments(&["a\n"]));
    assert_eq!(r.unwrap(), "a");
}
