use ptt_core::context::{AppContext, FeedbackState};
use ptt_core::errors::CoreError;
use ptt_core::shortcut::{
    change_binding, init_shortcuts, reset_binding, BindingResponse, OsResponse, ShortcutBinding,
};

fn binding(id: &str, current: &str, default: &str) -> ShortcutBinding {
    ShortcutBinding {
        id: id.to_string(),
        current_binding: current.to_string(),
        default_binding: default.to_string(),
    }
}

fn ok(resp: &BindingResponse) -> &ShortcutBinding {
    assert!(resp.success);
    assert!(resp.error.is_none());
    resp.binding.as_ref().unwrap()
}

fn failed(resp: &BindingResponse, message: &str) {
    assert!(!resp.success);
    assert!(resp.binding.is_none());
    assert_eq!(resp.error.as_deref(), Some(message));
}

#[test]
fn change_binding_success_updates_record() {
    let mut center = init_shortcuts(
        vec![binding("ptt", "Alt+Space", "Alt+Space")],
        vec![OsResponse::Accepted],
    );
    let resp = change_binding(
        &mut center,
        &"ptt".to_string(),
        "Ctrl+Shift+R".to_string(),
        OsResponse::Accepted,
        OsResponse::Accepted,
    );
    let b = ok(&resp);
    assert_eq!(b.id, "ptt");
    assert_eq!(b.current_binding, "Ctrl+Shift+R");
    assert_eq!(b.default_binding, "Alt+Space");
    assert_eq!(center.bindings[0].current_binding, "Ctrl+Shift+R");
    assert!(center.triggers(&"Ctrl+Shift+R".to_string()));
    assert!(!center.triggers(&"Alt+Space".to_string()));
}

#[test]
fn rebinding_twice_leaves_only_the_last_combination() {
    let mut center = init_shortcuts(
        vec![binding("ptt", "Alt+Space", "Alt+Space")],
        vec![OsResponse::Accepted],
    );
    let first = change_binding(
        &mut center,
        &"ptt".to_string(),
        "Ctrl+X".to_string(),
        OsResponse::Accepted,
        OsResponse::Accepted,
    );
    ok(&first);
    let second = change_binding(
        &mut center,
        &"ptt".to_string(),
        "Ctrl+Y".to_string(),
        OsResponse::Accepted,
        OsResponse::Accepted,
    );
    ok(&second);
    assert!(center.triggers(&"Ctrl+Y".to_string()));
    assert!(!center.triggers(&"Ctrl+X".to_string()));
    assert!(!center.triggers(&"Alt+Space".to_string()));
}

#[test]
fn reset_restores_the_original_default() {
    let mut center = init_shortcuts(
        vec![binding("ptt", "Alt+Space", "Alt+Space")],
        vec![OsResponse::Accepted],
    );
    for combo in ["Ctrl+A", "Ctrl+B", "Ctrl+C"] {
        let resp = change_binding(
            &mut center,
            &"ptt".to_string(),
            combo.to_string(),
            OsResponse::Accepted,
            OsResponse::Accepted,
        );
        ok(&resp);
    }
    let resp = reset_binding(
        &mut center,
        &"ptt".to_string(),
        OsResponse::Accepted,
        OsResponse::Accepted,
    );
    let b = ok(&resp);
    assert_eq!(b.current_binding, "Alt+Space");
    assert_eq!(center.bindings[0].current_binding, "Alt+Space");
    assert!(center.triggers(&"Alt+Space".to_string()));
    assert!(!center.triggers(&"Ctrl+C".to_string()));
}

#[test]
fn unknown_id_is_reported_not_found() {
    let mut center = init_shortcuts(
        vec![binding("ptt", "Alt+Space", "Alt+Space")],
        vec![OsResponse::Accepted],
    );
    let resp = change_binding(
        &mut center,
        &"other".to_string(),
        "Ctrl+X".to_string(),
        OsResponse::Accepted,
        OsResponse::Accepted,
    );
    failed(&resp, "Binding with id 'other' not found");
    let resp = reset_binding(
        &mut center,
        &"other".to_string(),
        OsResponse::Accepted,
        OsResponse::Accepted,
    );
    failed(&resp, "Binding with id 'other' not found");
}

#[test]
fn rejected_unregistration_changes_nothing() {
    let mut center = init_shortcuts(
        vec![binding("ptt", "Alt+Space", "Alt+Space")],
        vec![OsResponse::Accepted],
    );
    let resp = change_binding(
        &mut center,
        &"ptt".to_string(),
        "Ctrl+X".to_string(),
        OsResponse::RejectedOs,
        OsResponse::Accepted,
    );
    failed(&resp, "shortcut registration refused");
    assert!(center.triggers(&"Alt+Space".to_string()));
    assert_eq!(center.bindings[0].current_binding, "Alt+Space");
}

#[test]
fn unparseable_combination_is_a_parse_error() {
    let mut center = init_shortcuts(
        vec![binding("ptt", "Alt+Space", "Alt+Space")],
        vec![OsResponse::Accepted],
    );
    let resp = change_binding(
        &mut center,
        &"ptt".to_string(),
        "NotAKey".to_string(),
        OsResponse::Accepted,
        OsResponse::RejectedParse,
    );
    failed(&resp, "invalid key combination");
}

#[test]
fn failed_registration_leaves_the_id_orphaned() {
    let mut center = init_shortcuts(
        vec![binding("ptt", "Alt+Space", "Alt+Space")],
        vec![OsResponse::Accepted],
    );
    let resp = change_binding(
        &mut center,
        &"ptt".to_string(),
        "Ctrl+X".to_string(),
        OsResponse::Accepted,
        OsResponse::RejectedOs,
    );
    failed(&resp, "shortcut registration refused");
    // The old combination was unregistered and no new one installed.
    assert!(!center.triggers(&"Alt+Space".to_string()));
    assert!(!center.triggers(&"Ctrl+X".to_string()));
    // The stored record keeps its previous combination.
    assert_eq!(center.bindings[0].current_binding, "Alt+Space");
}

#[test]
fn registering_a_combination_in_use_is_refused() {
    let mut center = init_shortcuts(
        vec![
            binding("ptt", "Alt+Space", "Alt+Space"),
            binding("mute", "Ctrl+M", "Ctrl+M"),
        ],
        vec![OsResponse::Accepted, OsResponse::Accepted],
    );
    let resp = change_binding(
        &mut center,
        &"ptt".to_string(),
        "Ctrl+M".to_string(),
        OsResponse::Accepted,
        OsResponse::Accepted,
    );
    failed(&resp, "shortcut registration refused");
    assert!(center.triggers(&"Ctrl+M".to_string()));
    assert!(!center.triggers(&"Alt+Space".to_string()));
}

#[test]
fn init_registers_only_accepted_bindings() {
    let center = init_shortcuts(
        vec![
            binding("ptt", "Alt+Space", "Alt+Space"),
            binding("mute", "Bad", "Bad"),
        ],
        vec![OsResponse::Accepted, OsResponse::RejectedParse],
    );
    assert!(center.triggers(&"Alt+Space".to_string()));
    assert!(!center.triggers(&"Bad".to_string()));
}

#[test]
fn error_messages_read_one_line_each() {
    assert_eq!(CoreError::NotFound.message(), "binding not found");
    assert_eq!(CoreError::ParseError.message(), "invalid key combination");
    assert_eq!(
        CoreError::RegistrationError.message(),
        "shortcut registration refused"
    );
    assert_eq!(CoreError::EngineError.message(), "inference engine failure");
}

#[test]
fn rebound_hotkey_drives_the_state_machine() {
    let center = init_shortcuts(
        vec![binding("ptt", "Alt+Space", "Alt+Space")],
        vec![OsResponse::Accepted],
    );
    let mut ctx: AppContext<Vec<f32>> = AppContext::new(center, "transcribe".to_string());
    let resp = change_binding(
        &mut ctx.shortcuts,
        &"ptt".to_string(),
        "Ctrl+Shift+R".to_string(),
        OsResponse::Accepted,
        OsResponse::Accepted,
    );
    ok(&resp);
    // The superseded combination triggers nothing.
    let job = ctx.on_hotkey_event(&"Alt+Space".to_string(), true, None);
    assert!(job.is_none());
    assert!(!ctx.recorder.is_active(&"transcribe".to_string()));
    assert_eq!(ctx.feedback, FeedbackState::Idle);
    // The new combination starts the capture session.
    let job = ctx.on_hotkey_event(&"Ctrl+Shift+R".to_string(), true, None);
    assert!(job.is_none());
    assert!(ctx.recorder.is_active(&"transcribe".to_string()));
    assert_eq!(ctx.feedback, FeedbackState::Recording);
}
