use weezterm::config_overlay::{DynValue, Panel, ADD_DOMAIN_FIELD_NAME};
use weezterm::input::{Key, KeyPress, Mods};
use weezterm::overlay_data::{get_field_defs, DomainEntry, DomainSource, SshDomainConfig};
use weezterm::overlay_events::{OverlayInput, OverlayStep};
use weezterm::overlay_state::{extract_values, OverlayState};

fn press(key: Key) -> OverlayInput {
    OverlayInput::Key(KeyPress { key, mods: Mods::Plain })
}

fn shifted(c: char) -> OverlayInput {
    OverlayInput::Key(KeyPress { key: Key::Char(c), mods: Mods::Shift })
}

fn lua_domain(name: &str) -> DomainEntry {
    DomainEntry {
        config: SshDomainConfig { name: name.to_string(), remote_address: format!("{}:22", name), ..Default::default() },
        source: DomainSource::Lua,
        expanded: false,
    }
}

fn overlay() -> OverlayState {
    let effective = vec![
        ("automatically_reload_config".to_string(), DynValue::Bool(true)),
        ("win32_system_backdrop".to_string(), DynValue::String("Acrylic".to_string())),
    ];
    let saved = vec![SshDomainConfig { name: "saved".to_string(), ..Default::default() }];
    OverlayState::new(effective, vec![], saved, vec![lua_domain("lua")], get_field_defs())
}

fn select(st: &mut OverlayState, section: usize, row: usize) {
    st.selected_section = section;
    st.active_panel = Panel::Settings;
    st.selected_setting = row;
}

#[test]
fn new_state_merges_saved_domains_after_lua_ones() {
    let saved = vec![
        SshDomainConfig { name: "lua".to_string(), ..Default::default() },
        SshDomainConfig { name: "mine".to_string(), ..Default::default() },
        SshDomainConfig { name: "mine".to_string(), ..Default::default() },
    ];
    let st = OverlayState::new(vec![], vec![], saved, vec![lua_domain("lua")], get_field_defs());
    let names: Vec<&str> = st.domains.entries.iter().map(|e| e.config.name.as_str()).collect();
    assert_eq!(names, vec!["lua", "mine"]);
    assert_eq!(st.domains.entries[1].source, DomainSource::Overlay);
    assert!(!st.dirty);
    assert_eq!(st.active_panel, Panel::Settings);
}

#[test]
fn domains_section_lists_headers_and_add_row() {
    let mut st = overlay();
    st.selected_section = 6;
    let rows = st.visible_settings();
    let headers: Vec<&str> = rows.iter().filter(|r| r.domain_header.is_some()).map(|r| r.display_name.as_str()).collect();
    assert_eq!(headers, vec!["lua", "saved"]);
    assert_eq!(rows.last().unwrap().field_name, ADD_DOMAIN_FIELD_NAME);
    assert_eq!(rows[rows.len() - 3].field_name, "__domain_header_0__");
}

#[test]
fn space_toggles_a_bool_and_toggling_twice_restores_it() {
    let mut st = overlay();
    select(&mut st, 0, 8);
    assert!(!st.dirty);
    assert!(matches!(st.step(shifted('s')), OverlayStep::Continue));
    assert!(matches!(st.step(press(Key::Char(' '))), OverlayStep::Continue));
    assert!(matches!(st.proposals[0].1, DynValue::Bool(false)));
    assert!(st.dirty);
    // The proposal now differs from the Lua value, so the row is fixed.
    st.step(press(Key::Char(' ')));
    assert!(matches!(st.proposals[0].1, DynValue::Bool(false)));
    st.toggle_bool("automatically_reload_config");
    assert!(matches!(st.proposals[0].1, DynValue::Bool(true)));
    assert!(matches!(st.step(shifted('s')), OverlayStep::Save));
}

#[test]
fn right_cycles_an_enum_and_cycling_wraps() {
    let mut st = overlay();
    select(&mut st, 0, 4);
    st.step(press(Key::RightArrow));
    assert!(matches!(&st.proposals[0].1, DynValue::String(s) if s == "Mica"));
    // The proposal now differs from the Lua value: the row is fixed.
    st.step(press(Key::LeftArrow));
    assert!(matches!(&st.proposals[0].1, DynValue::String(s) if s == "Mica"));
    st.cycle_enum("win32_system_backdrop", -1);
    assert!(matches!(&st.proposals[0].1, DynValue::String(s) if s == "Acrylic"));
    st.cycle_enum("win32_system_backdrop", -1);
    st.cycle_enum("win32_system_backdrop", -1);
    st.cycle_enum("win32_system_backdrop", -1);
    assert!(matches!(&st.proposals[0].1, DynValue::String(s) if s == "Tabbed"));
}

#[test]
fn enter_on_enum_opens_picker_and_choice_is_proposed() {
    let mut st = overlay();
    select(&mut st, 0, 11);
    st.step(press(Key::Enter));
    assert_eq!(st.enum_picker.as_ref().unwrap().selected, 0);
    st.step(press(Key::DownArrow));
    st.step(press(Key::Enter));
    assert!(st.enum_picker.is_none());
    assert_eq!(st.proposals[0].0, "window_close_confirmation");
    assert!(matches!(&st.proposals[0].1, DynValue::String(s) if s == "NeverPrompt"));
    assert!(matches!(st.step(shifted('p')), OverlayStep::Preview));
    st.step(shifted('r'));
    assert!(st.proposals.is_empty());
}

#[test]
fn integer_edit_parses_and_float_edit_is_handed_back() {
    let mut st = overlay();
    select(&mut st, 2, 4);
    st.step(press(Key::Enter));
    assert_eq!(st.inline_edit.as_ref().unwrap().field_name, "tab_max_width");
    assert_eq!(st.inline_edit.as_ref().unwrap().buffer, "-");
    st.step(press(Key::Backspace));
    for c in "-12".chars() {
        st.step(press(Key::Char(c)));
    }
    st.step(press(Key::Enter));
    assert!(matches!(st.proposals[0].1, DynValue::I64(-12)));
    select(&mut st, 1, 0);
    st.step(press(Key::Enter));
    st.step(press(Key::Char('9')));
    match st.step(press(Key::Enter)) {
        OverlayStep::ParseFloat { field_name, buffer } => {
            assert_eq!(field_name, "font_size");
            assert_eq!(buffer, "-9");
        }
        other => panic!("unexpected {:?}", other),
    }
}

#[test]
fn color_scheme_row_asks_for_the_picker() {
    let mut st = overlay();
    select(&mut st, 0, 0);
    assert!(matches!(st.step(press(Key::Enter)), OverlayStep::OpenSchemePicker));
    st.open_scheme_picker(vec!["Dracula".to_string(), "Nord".to_string(), "Solarized".to_string()]);
    st.step(press(Key::Char('o')));
    assert_eq!(st.scheme_picker.as_ref().unwrap().filtered, vec![1, 2]);
    st.step(OverlayInput::Key(KeyPress { key: Key::Char('j'), mods: Mods::Ctrl }));
    st.step(press(Key::Enter));
    assert!(st.scheme_picker.is_none());
    assert!(matches!(&st.proposals[0].1, DynValue::String(s) if s == "Solarized"));
}

#[test]
fn adding_a_domain_names_it_and_saves_it() {
    let mut st = overlay();
    st.selected_section = 6;
    let count = st.visible_settings().len();
    select(&mut st, 6, count - 1);
    st.step(press(Key::Enter));
    assert!(st.domains.adding.is_some());
    for c in "box".chars() {
        st.step(press(Key::Char(c)));
    }
    st.step(press(Key::Enter));
    assert!(st.domains.adding.is_none());
    let added = st.domains.entries.last().unwrap();
    assert_eq!(added.config.name, "box");
    assert!(added.expanded);
    let saved: Vec<String> = st.overlay_domains().into_iter().map(|c| c.name).collect();
    assert_eq!(saved, vec!["saved".to_string(), "box".to_string()]);
    // A second domain under a name in use is discarded.
    st.finalize_add_domain("box".to_string());
    assert_eq!(st.domains.entries.len(), 3);
}

#[test]
fn editing_a_domain_field_only_touches_overlay_domains() {
    let mut st = overlay();
    st.apply_domain_field_edit("__domain_1_username__", "bob");
    assert_eq!(st.domains.entries[1].config.username, "bob");
    st.apply_domain_field_edit("__domain_0_username__", "eve");
    assert_eq!(st.domains.entries[0].config.username, "");
    st.toggle_domain_bool(1, "no_agent_auth");
    assert!(st.domains.entries[1].config.no_agent_auth);
    assert!(st.domains.dirty);
}

#[test]
fn filter_mode_and_escape() {
    let mut st = overlay();
    st.step(press(Key::Char('/')));
    assert!(st.filter_active);
    st.step(press(Key::Char('t')));
    st.step(press(Key::Char('a')));
    assert_eq!(st.filter, "ta");
    st.step(press(Key::Escape));
    assert_eq!(st.filter, "");
    assert!(st.filter_active);
    st.step(press(Key::Escape));
    assert!(!st.filter_active);
    assert!(matches!(st.step(press(Key::Escape)), OverlayStep::Close));
}

#[test]
fn clicking_a_section_selects_it() {
    let mut st = overlay();
    // 120x40 terminal: overlay 108x36 at (6, 2); body starts on row 4.
    let step = st.step(OverlayInput::LeftClick { x: 10, y: 7, width: 120, height: 40 });
    assert!(matches!(step, OverlayStep::Continue));
    assert_eq!(st.selected_section, 3);
    assert_eq!(st.active_panel, Panel::Sections);
    assert!(matches!(st.step(OverlayInput::Resized), OverlayStep::Resized));
}

#[test]
fn clamp_selection_keeps_the_row_in_range() {
    let mut st = overlay();
    st.selected_setting = 500;
    st.clamp_selection();
    assert_eq!(st.selected_setting, 11);
}

#[test]
fn known_settings_are_extracted_from_a_config_object() {
    let obj = vec![
        ("font_size".to_string(), DynValue::I64(12)),
        ("not_a_setting".to_string(), DynValue::Bool(true)),
        ("enable_tab_bar".to_string(), DynValue::Bool(false)),
        ("color_scheme".to_string(), DynValue::String("Dracula".to_string())),
    ];
    let values = extract_values(Some(&obj));
    assert_eq!(values.len(), 3);
    let get = |k: &str| values.iter().find(|(n, _)| n == k).map(|(_, v)| v);
    assert!(matches!(get("font_size"), Some(DynValue::I64(12))));
    assert!(matches!(get("enable_tab_bar"), Some(DynValue::Bool(false))));
    assert!(matches!(get("color_scheme"), Some(DynValue::String(s)) if s == "Dracula"));
    assert!(get("not_a_setting").is_none());
    assert!(extract_values(None).is_empty());
}
