use weezterm::d2b_picker::{
    build_entries, prompt_lines, D2bPicker, Entry, EntryAction, Mode, PickerAction, PickerInput,
    PickerKind, SessionInfo, TargetInfo,
};
use weezterm::input::{Key, KeyPress, Mods};

fn session(id: &str, is_default: bool, attached: bool, detached: bool, state: &str) -> SessionInfo {
    SessionInfo {
        id: id.to_string(),
        label: id.to_string(),
        is_default,
        attached,
        detached,
        state_name: state.to_string(),
    }
}

fn target(available: bool, warning: Option<&str>, sessions: Vec<SessionInfo>) -> TargetInfo {
    TargetInfo {
        domain_name: "d2b-work".to_string(),
        target_label: "work".to_string(),
        available,
        warning: warning.map(|w| w.to_string()),
        generated_name: "work-shell".to_string(),
        generated_label: "work-shell".to_string(),
        sessions,
    }
}

fn open(domain: &str, name: &str) -> EntryAction {
    EntryAction::Open { domain: domain.to_string(), name: name.to_string() }
}

fn key(k: Key, mods: Mods) -> PickerInput {
    PickerInput::Key(KeyPress { key: k, mods })
}

#[test]
fn all_targets_offer_new_named_and_existing_shells() {
    let t = target(
        true,
        None,
        vec![session("build", false, false, true, "detached"), session("default", true, true, false, "attached")],
    );
    let e = build_entries(&vec![t], PickerKind::AllTargets);
    let labels: Vec<&str> = e.iter().map(|x| x.label.as_str()).collect();
    assert_eq!(
        labels,
        vec![
            "New d2b shell on `work` (work-shell)",
            "Name new d2b shell on `work`…",
            "Open d2b shell `work:default` (default)",
            "Open d2b shell `work:build` (detached)",
        ]
    );
    assert_eq!(e[0].action, open("d2b-work", "work-shell"));
    assert_eq!(
        e[1].action,
        EntryAction::Manual { domain: "d2b-work".to_string(), default_name: "work-shell".to_string() }
    );
    assert_eq!(e[3].action, open("d2b-work", "build"));
    assert!(e.iter().all(|x| !x.disabled));
}

#[test]
fn unavailable_target_is_one_disabled_entry() {
    let e = build_entries(&vec![target(false, Some("offline"), vec![])], PickerKind::AllTargets);
    assert_eq!(
        e,
        vec![Entry { label: "Unavailable d2b target `work` (offline)".to_string(), disabled: true, action: EntryAction::Disabled }]
    );
    let e = build_entries(&vec![target(false, None, vec![])], PickerKind::CurrentTarget);
    assert_eq!(e[0].label, "Unavailable d2b target `work` (unavailable)");
}

#[test]
fn warning_follows_every_label() {
    let e = build_entries(&vec![target(true, Some("UNSAFE LOCAL — NO ISOLATION"), vec![])], PickerKind::AllTargets);
    assert_eq!(e.len(), 2);
    assert!(e.iter().all(|x| x.label.ends_with(" — UNSAFE LOCAL — NO ISOLATION")));
}

#[test]
fn one_target_offers_new_shell_and_detached_shells() {
    let t = target(
        true,
        None,
        vec![
            session("detached", false, false, true, "detached"),
            session("attached", false, true, false, "attached"),
            session("killed", false, false, false, "killed"),
            session("default", true, false, true, "detached"),
        ],
    );
    let e = build_entries(&vec![t], PickerKind::CurrentTarget);
    let labels: Vec<&str> = e.iter().map(|x| x.label.as_str()).collect();
    assert_eq!(
        labels,
        vec![
            "New d2b shell `[work:work-shell]`",
            "Reattach d2b shell `[work:default]`",
            "Reattach d2b shell `[work:detached]`",
        ]
    );
    assert_eq!(e[2].action, open("d2b-work", "detached"));
}

fn picker() -> D2bPicker {
    let t = target(true, None, vec![session("a", false, false, true, "detached")]);
    let mut p = D2bPicker::new(build_entries(&vec![t], PickerKind::AllTargets), PickerKind::AllTargets);
    assert_eq!(p.fit_to_screen(10), Some(3));
    p.set_labels(vec!["1".to_string(), "2".to_string(), "3".to_string()]);
    p
}

#[test]
fn typing_a_label_opens_its_entry() {
    let mut p = picker();
    let a = p.handle_event(key(Key::Char('3'), Mods::Plain), Ok(()));
    assert_eq!(a, PickerAction::Open { domain: "d2b-work".to_string(), name: "a".to_string() });
    assert_eq!(p.active_idx, 2);
    assert!(p.is_done());
}

#[test]
fn naming_a_new_shell() {
    let mut p = picker();
    p.handle_event(key(Key::Char('j'), Mods::Plain), Ok(()));
    assert_eq!(p.active_idx, 1);
    p.handle_event(key(Key::Enter, Mods::Plain), Ok(()));
    assert_eq!(
        p.mode,
        Mode::Prompt { domain: "d2b-work".to_string(), input: "work-shell".to_string(), error: None }
    );
    p.handle_event(key(Key::Backspace, Mods::Plain), Ok(()));
    p.handle_event(key(Key::Char('!'), Mods::Plain), Ok(()));
    let a = p.handle_event(key(Key::Enter, Mods::Plain), Err("bad character".to_string()));
    assert_eq!(a, PickerAction::Nothing);
    assert_eq!(
        p.mode,
        Mode::Prompt {
            domain: "d2b-work".to_string(),
            input: "work-shel!".to_string(),
            error: Some("bad character".to_string())
        }
    );
    assert!(!p.is_done());
    p.handle_event(key(Key::Backspace, Mods::Plain), Ok(()));
    let a = p.handle_event(key(Key::Enter, Mods::Plain), Ok(()));
    assert_eq!(a, PickerAction::Open { domain: "d2b-work".to_string(), name: "work-shel".to_string() });
    assert!(p.is_done());
}

#[test]
fn shifted_n_names_and_escape_leaves() {
    let mut p = picker();
    p.handle_event(key(Key::DownArrow, Mods::Plain), Ok(()));
    p.handle_event(key(Key::Char('n'), Mods::Shift), Ok(()));
    assert!(matches!(p.mode, Mode::Prompt { .. }));
    p.handle_event(key(Key::Escape, Mods::Plain), Ok(()));
    assert_eq!(p.mode, Mode::Pick);
    assert!(!p.is_done());
    p.handle_event(key(Key::Char('k'), Mods::Plain), Ok(()));
    assert_eq!(p.active_idx, 0);
    p.handle_event(key(Key::Escape, Mods::Plain), Ok(()));
    assert!(p.is_done());
    let mut q = picker();
    q.handle_event(key(Key::Char('G'), Mods::Ctrl), Ok(()));
    assert!(q.is_done());
}

#[test]
fn wheel_scrolls_and_points() {
    let mut p = picker();
    p.handle_event(PickerInput::Wheel { up: false, y: 2 }, Ok(()));
    assert_eq!((p.top_row, p.active_idx), (0, 1));
    p.handle_event(PickerInput::Wheel { up: true, y: 9 }, Ok(()));
    assert_eq!((p.top_row, p.active_idx), (0, 1));
}

#[test]
fn picker_lines_and_prompt() {
    let mut p = picker();
    p.active_idx = 1;
    let (header, rows) = p.picker_lines();
    assert_eq!(header, "d2b sessions: Enter=open  n=name new  Esc=cancel\r\n");
    assert_eq!(rows.len(), 3);
    assert_eq!(rows[0].prefix, " 1. ");
    assert!(!rows[0].reverse);
    assert!(rows[1].reverse);
    assert_eq!(rows[2].text, "Open d2b shell `work:a` (detached)");
    p.set_labels(vec!["1".to_string(), "22".to_string()]);
    let (_, rows) = p.picker_lines();
    assert_eq!(rows[0].prefix, "  1. ");
    assert_eq!(rows[1].prefix, " 22. ");
    assert_eq!(rows[2].prefix, "     ");
    assert_eq!(
        prompt_lines("ab", Some("too long")),
        vec![
            "Name new d2b shell (1-64 bytes, [A-Za-z0-9._-]); Enter=open Esc=cancel\r\n".to_string(),
            "> ab".to_string(),
            "\r\nInvalid name: too long".to_string(),
        ]
    );
    assert_eq!(prompt_lines("", None).len(), 2);
}
