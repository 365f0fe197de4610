use pinentry_windows::dialog::{
    button_label, client_height, client_width, confirm_content, confirm_result, control_id,
    getpin_content, getpin_result, layout, pin_text, scale, wlen, ControlKind, ControlPlacement,
    DialogMode, BTN_CANCEL, BTN_NOTOK, BTN_OK, EDIT_PIN, STATIC_DESC, STATIC_ERROR, STATIC_PROMPT,
};
use pinentry_windows::error::{GPG_ERR_CANCELED, GPG_ERR_NOT_CONFIRMED};
use pinentry_windows::state::PinentryState;

fn at(kind: ControlKind, x: i32, y: i32, width: i32, height: i32) -> ControlPlacement {
    ControlPlacement { kind, x, y, width, height }
}

#[test]
fn scale_rounds_toward_zero() {
    assert_eq!(scale(16, 96), 16);
    assert_eq!(scale(440, 144), 660);
    assert_eq!(scale(7, 100), 7);
    assert_eq!(scale(-100, 144), -150);
    assert_eq!(scale(-1, 95), 0);
    assert_eq!(scale(0, u32::MAX), 0);
    assert_eq!(client_width(192), 880);
}

#[test]
fn getpin_layout_at_96_dpi() {
    let mut state = PinentryState::new();
    state.desc = "Unlock key".to_string();
    state.error_text = "Bad passphrase".to_string();
    let c = getpin_content(&state);
    assert_eq!(c.mode, DialogMode::GetPin);
    assert!(c.has_desc && c.has_error && !c.has_notok && !c.one_button);
    assert_eq!(
        layout(&c, 96),
        vec![
            at(ControlKind::DescLabel, 16, 16, 408, 68),
            at(ControlKind::ErrorLabel, 16, 92, 408, 20),
            at(ControlKind::PromptLabel, 16, 124, 100, 20),
            at(ControlKind::PinEdit, 124, 120, 300, 26),
            at(ControlKind::OkButton, 332, 174, 92, 28),
            at(ControlKind::CancelButton, 232, 174, 92, 28),
        ]
    );
    assert_eq!(client_height(&c, 96), 218);
}

#[test]
fn confirm_layout_with_no_button_at_144_dpi() {
    let mut state = PinentryState::new();
    state.notok_set = true;
    let c = confirm_content(&state);
    assert_eq!(c.mode, DialogMode::Confirm);
    assert!(!c.has_desc && c.has_notok);
    assert_eq!(
        layout(&c, 144),
        vec![
            at(ControlKind::OkButton, 498, 42, 138, 42),
            at(ControlKind::CancelButton, 348, 42, 138, 42),
            at(ControlKind::NotOkButton, 198, 42, 138, 42),
        ]
    );
    assert_eq!(client_height(&c, 144), 24 + 18 + 42 + 24);
}

#[test]
fn message_layout_has_only_ok() {
    let mut state = PinentryState::new();
    state.one_button = true;
    state.notok_set = true;
    let c = confirm_content(&state);
    assert_eq!(c.mode, DialogMode::Message);
    assert!(c.has_desc && c.one_button);
    assert_eq!(c.desc, "PIN:");
    assert_eq!(
        layout(&c, 96),
        vec![
            at(ControlKind::DescLabel, 16, 16, 408, 68),
            at(ControlKind::OkButton, 332, 104, 92, 28),
        ]
    );
}

#[test]
fn dialog_texts_and_labels() {
    let mut state = PinentryState::new();
    let c = getpin_content(&state);
    assert_eq!(
        (c.title.as_str(), c.prompt.as_str(), c.ok_label.as_str(), c.cancel_label.as_str(), c.notok_label.as_str()),
        ("Enter Passphrase", "PIN:", "OK", "Cancel", "No")
    );
    assert_eq!((c.desc.as_str(), c.error.as_str()), ("", ""));
    state.ok_button = "_OK".to_string();
    state.cancel_button = "__Cancel".to_string();
    state.desc = "d".to_string();
    state.title = "T".to_string();
    let c = confirm_content(&state);
    assert_eq!((c.ok_label.as_str(), c.cancel_label.as_str(), c.desc.as_str(), c.title.as_str()), ("OK", "Cancel", "d", "T"));
    assert_eq!(button_label("A_B"), "A_B");
    assert_eq!(button_label("___"), "");
}

#[test]
fn dialog_outcomes() {
    assert_eq!(getpin_result(true, false), Ok(()));
    assert_eq!(getpin_result(true, true), Err(GPG_ERR_CANCELED));
    assert_eq!(getpin_result(false, false), Err(GPG_ERR_CANCELED));
    assert_eq!(confirm_result(true, false), Ok(true));
    assert_eq!(confirm_result(true, true), Err(GPG_ERR_NOT_CONFIRMED));
    assert_eq!(confirm_result(false, true), Err(GPG_ERR_CANCELED));
}

#[test]
fn wide_length_and_ids() {
    assert_eq!(wlen(&[104, 105, 0, 5]), 2);
    assert_eq!(wlen(&[1, 2]), 2);
    assert_eq!(wlen(&[]), 0);
    let ids: Vec<i32> = [
        ControlKind::DescLabel,
        ControlKind::ErrorLabel,
        ControlKind::PromptLabel,
        ControlKind::PinEdit,
        ControlKind::OkButton,
        ControlKind::CancelButton,
        ControlKind::NotOkButton,
    ]
    .iter()
    .map(|k| control_id(*k))
    .collect();
    assert_eq!(ids, vec![STATIC_DESC, STATIC_ERROR, STATIC_PROMPT, EDIT_PIN, BTN_OK, BTN_CANCEL, BTN_NOTOK]);
    assert_eq!(ids, vec![101, 102, 103, 100, 1, 2, 10]);
}

#[test]
fn pin_text_stops_at_nul() {
    let buf: Vec<u16> = "p\u{e4}ss\u{1F511}".encode_utf16().chain([0u16, 65, 0]).collect();
    assert_eq!(pin_text(&buf), "p\u{e4}ss\u{1F511}");
    assert_eq!(pin_text(&[]), "");
    assert_eq!(pin_text(&[0xD800, 65]), "\u{FFFD}A");
}
