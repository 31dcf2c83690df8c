//! Orchestration core for push-to-talk voice capture.
//!
//! A global hotkey arms an audio-capture session while held; on release the
//! captured buffer is handed to a speech-to-text engine whose output goes to
//! the focused application. This crate verifies the coordination layer: the
//! hotkey state machine, the recording session bookkeeping, the serialized
//! inference gateway, and the binding lifecycle manager. The collaborators
//! that own the OS listener, the audio backend and the native engine are
//! driven from outside; their outcomes enter the core as plain values.

pub mod context;
pub mod errors;
pub mod recording;
pub mod shortcut;
pub mod strset;
pub mod text;
pub mod transcription;
