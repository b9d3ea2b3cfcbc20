use swiss_knife::gui::app::{ShutdownAction, SwissKnifeApp};
use swiss_knife::gui::argon2::{
    Argon2Params, Argon2Settings, MAX_M_COST, MAX_P_COST, MAX_T_COST, MIN_M_COST, MIN_P_COST,
    MIN_T_COST,
};
use swiss_knife::gui::modals::{LoadingWindow, MsgWindow};
use swiss_knife::gui::panels::left_panel::{select, Tool};
use swiss_knife::gui::GUI;

#[test]
fn argon2_settings_start_balanced() {
    let mut settings = Argon2Settings::new();
    assert!(!settings.is_open());
    assert_eq!(
        settings.params,
        Argon2Params { m_cost: 1_024_000, t_cost: 8, p_cost: 1, hash_length: 64 }
    );
    settings.open();
    assert!(settings.is_open());
    settings.close();
    assert!(!settings.is_open());
    assert!(MIN_M_COST <= settings.params.m_cost && settings.params.m_cost <= MAX_M_COST);
    assert!(MIN_T_COST <= settings.params.t_cost && settings.params.t_cost <= MAX_T_COST);
    assert!(MIN_P_COST <= settings.params.p_cost && settings.params.p_cost <= MAX_P_COST);
}

#[test]
fn loading_window() {
    let mut w = LoadingWindow::new();
    assert!(!w.is_open());
    assert_eq!(w.msg, "");
    w.open("Encrypting...".to_string());
    assert!(w.is_open());
    assert_eq!(w.msg, "Encrypting...");
    w.reset();
    assert!(!w.is_open());
    assert_eq!(w.msg, "");
}

#[test]
fn message_window() {
    let mut w = MsgWindow::new();
    assert!(!w.is_open());
    w.open("done".to_string());
    assert!(w.is_open());
    assert_eq!(w.message, "done");
    w.reset();
    assert!(!w.is_open());
    assert_eq!(w.message, "done");
}

#[test]
fn default_gui_shows_the_encryption_window() {
    let gui = GUI::default();
    assert!(gui.file_encryption_ui.is_open());
    assert!(!gui.text_hashing_ui.is_open());
    assert!(!gui.argon2.is_open());
    assert!(!gui.loading_window.is_open());
    assert!(!gui.msg_window.is_open());
}

#[test]
fn side_panel_shows_exactly_one_tool() {
    let mut gui = GUI::default();
    gui.file_encryption_ui.file_path = "kept".to_string();
    select(&mut gui, Tool::Hash);
    assert!(gui.text_hashing_ui.is_open());
    assert!(!gui.file_encryption_ui.is_open());
    select(&mut gui, Tool::Hash);
    assert!(gui.text_hashing_ui.is_open());
    assert!(!gui.file_encryption_ui.is_open());
    select(&mut gui, Tool::Encrypt);
    assert!(gui.file_encryption_ui.is_open());
    assert!(!gui.text_hashing_ui.is_open());
    assert_eq!(gui.file_encryption_ui.file_path, "kept");
}

#[test]
fn message_through_the_gui() {
    let mut gui = GUI::default();
    gui.open_msg_window("hello".to_string());
    assert!(gui.msg_window.is_open());
    assert_eq!(gui.msg_window.message, "hello");
}

#[test]
fn shutdown_cleans_up_once() {
    let mut app = SwissKnifeApp::new();
    assert!(!app.style_has_been_set);
    assert_eq!(app.on_shutdown(false, false), ShutdownAction::Nothing);
    assert_eq!(app.on_shutdown(true, false), ShutdownAction::CancelCloseAndCleanUp);
    assert_eq!(app.on_shutdown(true, false), ShutdownAction::CancelClose);
    assert_eq!(app.on_shutdown(false, false), ShutdownAction::Nothing);
    assert_eq!(app.on_shutdown(true, false), ShutdownAction::CancelClose);
    assert_eq!(app.on_shutdown(true, true), ShutdownAction::Nothing);
}

#[test]
fn allowed_close_goes_through_at_once() {
    let mut app = SwissKnifeApp::new();
    assert_eq!(app.on_shutdown(true, true), ShutdownAction::Nothing);
    assert_eq!(app.on_shutdown(true, false), ShutdownAction::CancelCloseAndCleanUp);
}

#[test]
fn style_is_applied_once() {
    let mut app = SwissKnifeApp::new();
    assert!(app.style_once());
    assert!(app.style_has_been_set);
    assert!(!app.style_once());
    assert!(!app.style_once());
}
