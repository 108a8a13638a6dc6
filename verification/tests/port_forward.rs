use weezterm::input::{Key, KeyPress, Mods};
use weezterm::port_forward::{OverlayState, PortDisplayEntry, PortForwardAction, PortStep};

fn two_ports(selected: usize, filter: &str) -> OverlayState {
    OverlayState {
        entries: vec![
            PortDisplayEntry {
                remote_port: 3000,
                local_port: 3000,
                remote_host: "127.0.0.1".into(),
                label: None,
                is_forwarded: true,
                is_error: false,
                error_msg: None,
            },
            PortDisplayEntry {
                remote_port: 8080,
                local_port: 8080,
                remote_host: "0.0.0.0".into(),
                label: Some("webpack".into()),
                is_forwarded: false,
                is_error: false,
                error_msg: None,
            },
        ],
        selected,
        filter: filter.into(),
        action: None,
    }
}

fn key(k: Key) -> KeyPress {
    KeyPress { key: k, mods: Mods::Plain }
}

#[test]
fn test_overlay_state_filtering() {
    let state = two_ports(0, "80");
    let filtered = state.filtered_entries();
    assert_eq!(filtered.len(), 1);
    assert_eq!(filtered[0].remote_port, 8080);
}

#[test]
fn test_overlay_state_selection_wrapping() {
    let state = two_ports(1, "");
    assert_eq!(state.selected_entry().unwrap().remote_port, 8080);
}

#[test]
fn up_from_top_wraps_to_last_and_down_wraps_back() {
    let mut state = two_ports(0, "");
    assert!(matches!(state.handle_key(key(Key::UpArrow)), PortStep::Continue));
    assert_eq!(state.selected, 1);
    state.handle_key(key(Key::Char('j')));
    assert_eq!(state.selected, 0);
}

#[test]
fn enter_starts_or_stops_forwarding() {
    let mut state = two_ports(1, "");
    match state.handle_key(key(Key::Enter)) {
        PortStep::Finish(PortForwardAction::StartForward { remote_port, remote_host, preferred_local_port }) => {
            assert_eq!(remote_port, 8080);
            assert_eq!(remote_host, "0.0.0.0");
            assert_eq!(preferred_local_port, 8080);
        }
        other => panic!("unexpected {:?}", other),
    }
    let mut state = two_ports(0, "");
    assert!(matches!(
        state.handle_key(key(Key::Enter)),
        PortStep::Finish(PortForwardAction::StopForward { remote_port: 3000 })
    ));
}

#[test]
fn digits_filter_and_other_keys() {
    let mut state = two_ports(1, "");
    state.handle_key(key(Key::Char('3')));
    assert_eq!(state.filter, "3");
    assert_eq!(state.selected, 0);
    state.handle_key(key(Key::Char('x')));
    assert_eq!(state.filter, "3");
    state.handle_key(key(Key::Backspace));
    assert_eq!(state.filter, "");
    assert!(matches!(state.handle_key(key(Key::Char('q'))), PortStep::Finish(PortForwardAction::Close)));
    assert!(matches!(state.handle_key(key(Key::Char('f'))), PortStep::Finish(PortForwardAction::ManualForward)));
    assert!(matches!(
        state.handle_key(key(Key::Char('d'))),
        PortStep::Finish(PortForwardAction::Exclude { remote_port: 3000 })
    ));
    let mut state = two_ports(1, "");
    assert!(matches!(state.handle_key(key(Key::Char('s'))), PortStep::Continue));
}
