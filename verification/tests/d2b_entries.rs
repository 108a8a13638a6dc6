//! The launcher's entries for targets as the discovery reports them: the
//! availability and the warning are those the target's status gives.
use weezterm::d2b_picker::{build_entries, EntryAction, PickerKind, SessionInfo, TargetInfo};

fn session(name: &str, is_default: bool) -> SessionInfo {
    SessionInfo {
        id: name.to_string(),
        label: name.to_string(),
        is_default,
        attached: false,
        detached: true,
        state_name: "detached".to_string(),
    }
}

fn discovered(domain: &str, target: &str, available: bool, warning: Option<&str>, sessions: Vec<SessionInfo>, generated: &str) -> TargetInfo {
    TargetInfo {
        domain_name: domain.to_string(),
        target_label: target.to_string(),
        available,
        warning: warning.map(|w| w.to_string()),
        generated_name: generated.to_string(),
        generated_label: generated.to_string(),
        sessions,
    }
}

#[test]
fn entries_disable_offline_targets_without_open_actions() {
    let entries = build_entries(
        &vec![discovered("d2b-work", "work", false, Some("offline"), vec![], "work-shell")],
        PickerKind::AllTargets,
    );
    assert_eq!(entries.len(), 1);
    assert!(entries[0].disabled);
    assert_eq!(entries[0].action, EntryAction::Disabled);
}

#[test]
fn entries_include_generated_manual_and_existing_sessions() {
    let entries = build_entries(
        &vec![discovered(
            "d2b-work",
            "work",
            true,
            None,
            vec![session("default", true), session("build", false)],
            "work-shell",
        )],
        PickerKind::AllTargets,
    );
    assert!(entries.iter().any(|entry| entry.label.contains("work-shell")));
    assert!(entries.iter().any(|entry| matches!(entry.action, EntryAction::Manual { .. })));
    assert!(entries.iter().any(|entry| entry.label.contains("work:default")));
    assert!(entries.iter().all(|entry| !entry.disabled));
}

#[test]
fn entries_warn_that_unsafe_local_has_no_isolation() {
    let entries = build_entries(
        &vec![discovered(
            "host-tools",
            "tools.host.d2b",
            true,
            Some("UNSAFE LOCAL — NO ISOLATION"),
            vec![],
            "d2b-tools-shell",
        )],
        PickerKind::AllTargets,
    );
    assert!(entries.iter().all(|entry| !entry.disabled));
    assert!(entries.iter().all(|entry| entry.label.contains("UNSAFE LOCAL — NO ISOLATION")));
}

#[test]
fn helper_unavailable_is_visible_and_disables_target() {
    let entries = build_entries(
        &vec![discovered(
            "host-tools",
            "tools.host.d2b",
            false,
            Some("UNSAFE LOCAL — NO ISOLATION; helper unavailable"),
            vec![],
            "d2b-tools-shell",
        )],
        PickerKind::AllTargets,
    );
    assert_eq!(entries.len(), 1);
    assert!(entries[0].disabled);
    assert!(entries[0].label.contains("UNSAFE LOCAL — NO ISOLATION"));
    assert!(entries[0].label.contains("helper unavailable"));
}

#[test]
fn scoped_entries_create_immediately_and_only_reattach_detached_shells() {
    let mut attached = session("attached", false);
    attached.attached = true;
    attached.detached = false;
    attached.state_name = "attached".to_string();
    let mut killed = session("killed", false);
    killed.detached = false;
    killed.state_name = "killed".to_string();
    let entries = build_entries(
        &vec![discovered(
            "host-tools",
            "tools.host.d2b",
            true,
            None,
            vec![session("detached", false), attached, killed, session("default", true)],
            "new-shell",
        )],
        PickerKind::CurrentTarget,
    );
    assert_eq!(entries.len(), 3);
    assert!(entries[0].label.contains("[tools.host.d2b:new-shell]"));
    assert!(matches!(&entries[0].action, EntryAction::Open { name, .. } if name == "new-shell"));
    assert!(entries.iter().all(|entry| !matches!(entry.action, EntryAction::Manual { .. })));
    let labels = entries.iter().map(|entry| entry.label.as_str()).collect::<Vec<_>>().join("\n");
    assert!(labels.contains("detached"));
    assert!(labels.contains("default"));
    assert!(!labels.contains("attached"));
    assert!(!labels.contains("killed"));
}
