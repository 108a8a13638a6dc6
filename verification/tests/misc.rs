use weezterm::cursor_blink::{clamp_interval, MAX_BLINK_INTERVAL_MS, MIN_BLINK_INTERVAL_MS};
use weezterm::devcontainer_overlay::{ContainerInfo, DevContainerAction, DevContainerStep, OverlayState};
use weezterm::input::{Key, KeyPress, Mods};
use weezterm::toast::{
    confirm_open_url_notification, expire_timeout_ms, notification_actions, offers_show_action,
    persistent_toast_notification, persistent_toast_notification_with_click_to_open_url, supports_actions, Reason,
};
use weezterm::version::release_tag;

#[test]
fn blink_interval_is_clamped() {
    assert_eq!(clamp_interval(0), MIN_BLINK_INTERVAL_MS);
    assert_eq!(clamp_interval(500), 500);
    assert_eq!(clamp_interval(u64::MAX), MAX_BLINK_INTERVAL_MS);
}

#[test]
fn release_tags() {
    assert_eq!(release_tag("0.2.0"), "v0.2.0");
    assert_eq!(release_tag("0.2.0-dev.20240203.abc12345"), "v0.2.0-dev.20240203.abc12345");
}

#[test]
fn notifications() {
    let n = persistent_toast_notification_with_click_to_open_url("t", "m", "https://x");
    assert_eq!(n.url.as_deref(), Some("https://x"));
    assert_eq!(n.timeout_secs, None);
    let p = persistent_toast_notification("t", "m");
    assert!(p.url.is_none());
    assert!(offers_show_action(&n, true));
    assert!(!offers_show_action(&n, false));
    assert!(!offers_show_action(&p, true));
    assert_eq!(notification_actions(true), vec!["show", "Show"]);
    assert!(notification_actions(false).is_empty());
    assert!(supports_actions(&vec!["body".to_string(), "actions".to_string()]));
    assert!(!supports_actions(&vec!["body".to_string()]));
    assert_eq!(expire_timeout_ms(None), 0);
    assert_eq!(expire_timeout_ms(Some(3)), 3000);
    assert!(matches!(Reason::new(1), Reason::Expired));
    assert!(matches!(Reason::new(2), Reason::Dismissed));
    assert!(matches!(Reason::new(3), Reason::Closed));
    assert!(matches!(Reason::new(9), Reason::Unknown(9)));
    let c = confirm_open_url_notification("https://example.com", 15);
    assert_eq!(c.url.as_deref(), Some("https://example.com"));
    assert_eq!(c.timeout_secs, Some(15));
}

fn container(id: &str, name: &str, running: bool) -> ContainerInfo {
    ContainerInfo {
        container_id: id.to_string(),
        container_name: name.to_string(),
        image: "mcr.microsoft.com/devcontainers/rust".to_string(),
        local_folder: format!("/src/{}", name),
        workspace_folder: None,
        running,
    }
}

fn devcontainers() -> OverlayState {
    OverlayState {
        entries: vec![container("a1", "api", true), container("b2", "Web", false)],
        selected: 0,
        filter: String::new(),
        primary_container_id: Some("a1".to_string()),
        domain_name: "dev".to_string(),
        host_label: "local".to_string(),
        expanded: None,
        create_input: None,
        default_workspace_folder: Some("/src".to_string()),
    }
}

fn key(k: Key) -> KeyPress {
    KeyPress { key: k, mods: Mods::Plain }
}

#[test]
fn devcontainer_keys() {
    let mut st = devcontainers();
    assert!(st.is_primary("a1"));
    assert_eq!(st.total_rows(), 3);
    assert!(matches!(st.handle_key(key(Key::Char('c'))), DevContainerStep::Finish(DevContainerAction::Connect { container_id }) if container_id == "a1"));
    assert!(matches!(st.handle_key(key(Key::Char('s'))), DevContainerStep::Continue));
    st.handle_key(key(Key::Enter));
    assert_eq!(st.expanded.as_deref(), Some("a1"));
    st.handle_key(key(Key::Enter));
    assert_eq!(st.expanded, None);
    st.handle_key(key(Key::Char('j')));
    assert!(matches!(st.handle_key(key(Key::Char('d'))), DevContainerStep::Finish(DevContainerAction::DeleteContainer { container_id }) if container_id == "b2"));
    st.handle_key(key(Key::Char('j')));
    assert!(st.is_create_row());
    st.handle_key(key(Key::Enter));
    assert_eq!(st.create_input.as_deref(), Some("/src"));
    st.handle_key(key(Key::Char('x')));
    match st.handle_key(key(Key::Enter)) {
        DevContainerStep::Finish(DevContainerAction::CreateContainer { workspace_folder }) => {
            assert_eq!(workspace_folder, "/srcx")
        }
        other => panic!("unexpected {:?}", other),
    }
    st.handle_key(key(Key::Escape));
    assert!(st.create_input.is_none());
    st.handle_key(key(Key::UpArrow));
    assert_eq!(st.selected, 1);
    st.selected = 0;
    st.handle_key(key(Key::UpArrow));
    assert_eq!(st.selected, 2);
    assert!(matches!(st.handle_key(key(Key::Escape)), DevContainerStep::Finish(DevContainerAction::Close)));
}

#[test]
fn devcontainer_filter_matches_any_field_case_insensitively() {
    let mut st = devcontainers();
    st.filter = "WEB".to_string();
    assert_eq!(st.filtered_entries(), vec![1]);
    st.filter = "devcontainers".to_string();
    assert_eq!(st.filtered_entries(), vec![0, 1]);
    st.handle_key(key(Key::Backspace));
    assert_eq!(st.filter, "devcontainer");
    st.handle_key(key(Key::Char('/')));
    assert_eq!(st.filter, "");
}

#[test]
fn notification_watcher_closes_after_timeout_or_cancel() {
    assert_eq!(weezterm::toast::close_after_secs(Some(30)), 30);
    assert_eq!(weezterm::toast::close_after_secs(None), 120);
    assert!(!weezterm::toast::should_close(100, 30_000, false));
    assert!(weezterm::toast::should_close(30_000, 30_000, false));
    assert!(weezterm::toast::should_close(100, 30_000, true));
}
