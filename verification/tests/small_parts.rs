use editor_core::collab::{format_stat, pick_default_screen, ScreenMetadata};
use editor_core::context_server_tool::ContextServerTool;
use editor_core::edit_prediction_registry::EditorRegistry;
use editor_core::onboarding_modal::{Overflow, SignInStatus, ZedPredictModal};

#[test]
fn statistics() {
    assert_eq!(format_stat(Some(1.25f64), |v| format!("{v:.1} ms")), "1.2 ms");
    assert_eq!(format_stat(None::<f64>, |v| format!("{v}")), "—");
}

fn screen(is_main: Option<bool>) -> Option<ScreenMetadata> {
    Some(ScreenMetadata { is_main })
}

#[test]
fn the_main_screen_is_shared() {
    let sources = vec![screen(None), None, screen(Some(false)), screen(Some(true)), screen(Some(true))];
    assert_eq!(pick_default_screen(&sources), Some(3));
    assert_eq!(pick_default_screen(&vec![None, screen(Some(false))]), Some(0));
    assert_eq!(pick_default_screen(&vec![]), None);
}

#[test]
fn tools_keep_what_they_are_made_of() {
    let tool = ContextServerTool::new(5u64, "server".into(), "search".to_string());
    assert_eq!(tool.server_manager, 5);
    assert_eq!(&*tool.server_id, "server");
    assert_eq!(tool.tool, "search");
}

#[test]
fn full_editors_in_windows_are_registered() {
    let mut registry = EditorRegistry::new();
    assert!(registry.observe_new(1, true, Some(10)));
    assert!(!registry.observe_new(2, false, Some(10)));
    assert!(!registry.observe_new(3, true, None));
    assert_eq!(registry.window_of(1), Some(10));
    assert_eq!(registry.window_of(2), None);
    assert_eq!(registry.window_of(3), None);
    registry.on_release(1);
    assert_eq!(registry.window_of(1), None);
}

#[test]
fn signing_in_from_the_dialog() {
    let mut modal = ZedPredictModal::new();
    assert_eq!(modal.sign_in_status, SignInStatus::Idle);
    modal.sign_in();
    assert_eq!(modal.sign_in_status, SignInStatus::Waiting);
    modal.sign_in_finished(true);
    assert_eq!(modal.sign_in_status, SignInStatus::SignedIn);
    modal.sign_in_finished(false);
    assert_eq!(modal.sign_in_status, SignInStatus::Idle);
    assert_eq!(modal.view_blog(), "https://zed.dev/blog/edit-prediction");
    assert_eq!(modal.overflow(), Overflow::Hidden);
    modal.data_collection_expanded = true;
    assert_eq!(modal.overflow(), Overflow::Scroll);
}
