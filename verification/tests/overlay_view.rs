use weezterm::config_overlay::{
    DomainHeaderInfo, EnumPicker, FieldStatus, InlineEdit, Panel, ADD_DOMAIN_FIELD_NAME,
};
use weezterm::overlay_data::{DomainSource, FieldDef, FieldKind, Section};
use weezterm::overlay_state::{ColorSchemePicker, SettingRow};
use weezterm::overlay_view::{
    detail_lines, detail_rows, edit_popup, enum_picker_popup, footer_spans, overlay_rect_pub,
    scheme_picker_view, search_spans, section_items, settings_table, title_spans, Rect, Span,
    Style,
};

fn sp(text: &str, style: Style) -> Span {
    Span { text: text.to_string(), style }
}

fn row(field: &str, display: &str, current: &str, proposed: Option<&str>, status: FieldStatus) -> SettingRow {
    SettingRow {
        field_name: field.to_string(),
        display_name: display.to_string(),
        current_value: current.to_string(),
        proposed_value: proposed.map(|s| s.to_string()),
        status,
        kind: FieldKind::Text,
        domain_header: None,
        domain_child: None,
    }
}

fn header_row() -> SettingRow {
    SettingRow {
        domain_header: Some(DomainHeaderInfo { domain_index: 0, source: DomainSource::Lua, expanded: false }),
        ..row("__domain_header_0__", "myhost", "myhost:22", None, FieldStatus::Inherited)
    }
}

fn defs() -> Vec<FieldDef> {
    vec![FieldDef {
        name: "font_size",
        display_name: "Font Size",
        section: Section::FontAndText,
        kind: FieldKind::Float,
        doc: "Font size in points",
    }]
}

#[test]
fn overlay_geometry() {
    assert_eq!(overlay_rect_pub(120, 40), (Rect { x: 6, y: 2, width: 108, height: 36 }, 6, 2));
    assert_eq!(overlay_rect_pub(80, 24), (Rect { x: 0, y: 0, width: 80, height: 24 }, 0, 0));
    assert_eq!(overlay_rect_pub(300, 100), (Rect { x: 15, y: 5, width: 270, height: 90 }, 15, 5));
    assert_eq!(detail_rows(Section::Monitors), 8);
    assert_eq!(detail_rows(Section::General), 4);
}

#[test]
fn title_search_sections_footer() {
    assert_eq!(
        title_spans(Section::General, true),
        vec![sp(" Configure WeezTerm ── General ", Style::Header), sp(" [modified] ", Style::BadgeFixed)]
    );
    assert_eq!(title_spans(Section::Rendering, false).len(), 1);
    assert_eq!(search_spans(false, "", None), vec![sp(" / search…", Style::TextDim)]);
    assert_eq!(
        search_spans(true, "fo", Some("12")),
        vec![sp(" / fo▏", Style::Text), sp("    Edit: 12▏", Style::ValueProposed)]
    );
    assert_eq!(search_spans(false, "x", None), vec![sp(" / x", Style::TextDim)]);
    let sections = vec![Section::General, Section::Rendering];
    assert_eq!(
        section_items(&sections, 1, Panel::Sections),
        vec![sp("   General", Style::SectionInactive), sp(" ▸ Rendering", Style::SectionActive)]
    );
    assert_eq!(section_items(&sections, 1, Panel::Settings)[1], sp(" ▸ Rendering", Style::TextBold));
    let footer = footer_spans();
    assert_eq!(footer.len(), 24);
    assert_eq!(footer[0], sp(" ", Style::Plain));
    assert_eq!(footer[1], sp("↑↓", Style::FooterKey));
    assert_eq!(footer[2], sp(" Navigate", Style::Footer));
    assert_eq!(footer[3], sp("  ", Style::Footer));
    assert_eq!(footer[23], sp(" Close", Style::Footer));
}

#[test]
fn settings_table_rows() {
    let rows = vec![
        row("font_size", "Font Size", "14", None, FieldStatus::Inherited),
        row("font_size", "Font Size", "14", Some("16"), FieldStatus::Editable),
        row("term", "Term", "", None, FieldStatus::FixedByLua),
        header_row(),
        row(ADD_DOMAIN_FIELD_NAME, "Add SSH Domain", "", None, FieldStatus::Editable),
        row("__delete_domain___0", "Delete", "", None, FieldStatus::Editable),
    ];
    let t = settings_table(&rows, 1, Panel::Settings, 60);
    assert_eq!(t.len(), 6);
    assert_eq!(
        t[0].name,
        vec![sp("   Font Size", Style::Text), sp(" ", Style::Dots), sp(&"·".repeat(18), Style::Dots)]
    );
    assert_eq!(t[0].value, sp("14", Style::Value));
    assert_eq!(t[0].badge, sp("inherited", Style::BadgeInherited));
    assert_eq!(
        t[1].name,
        vec![
            sp(" ▸ Font Size", Style::Selected),
            sp(" ", Style::DotsSelected),
            sp(&"·".repeat(16), Style::DotsSelected)
        ]
    );
    assert_eq!(t[1].value, sp("16", Style::SelectedValue));
    assert_eq!(t[1].badge, sp("modified", Style::SelectedBadge));
    assert_eq!(t[2].value, sp("—", Style::Value));
    assert_eq!(t[2].badge, sp("lua", Style::BadgeFixed));
    assert_eq!(t[3].name, vec![sp(" ▸ myhost ", Style::TextBold), sp(&"─".repeat(19), Style::Border)]);
    assert_eq!(t[3].value, sp("myhost:22", Style::Value));
    assert_eq!(t[3].badge, sp("lua", Style::BadgeInherited));
    assert_eq!(t[4].name, vec![sp("   + Add SSH Domain", Style::ValueProposed)]);
    assert_eq!(t[4].value, sp("", Style::Plain));
    assert_eq!(t[5].name, vec![sp("     ✗ Delete Domain", Style::BadgeFixed)]);
    let narrow = settings_table(&rows, 0, Panel::Sections, 10);
    assert_eq!(narrow[0].name[0], sp("   Font Size", Style::Text));
    assert_eq!(narrow[0].name[2], sp("·", Style::Dots));
}

#[test]
fn details_panel() {
    assert_eq!(detail_lines(None, &defs()), vec![vec![sp(" Select a setting to view details", Style::TextDim)]]);
    let r = row("font_size", "Font Size", "14", None, FieldStatus::FixedByLua);
    assert_eq!(
        detail_lines(Some(&r), &defs()),
        vec![
            vec![
                sp(" Font Size ", Style::DetailTitle),
                sp("(font_size)  ", Style::Detail),
                sp("type: float", Style::TextDim)
            ],
            vec![sp(" value: 14  ", Style::Value), sp("status: Fixed by Lua", Style::Detail)],
            vec![sp(" Font size in points", Style::TextDim)],
        ]
    );
    let child = SettingRow { domain_child: Some(0), ..row("__domain_0_username__", "Username", "me", None, FieldStatus::Editable) };
    let lines = detail_lines(Some(&child), &defs());
    assert_eq!(lines[0][2], sp("type: text", Style::TextDim));
    assert_eq!(lines[1][1], sp("status: Editable", Style::Detail));
    assert_eq!(lines[2], vec![sp(" SSH username", Style::TextDim)]);
    assert_eq!(
        detail_lines(Some(&header_row()), &defs()),
        vec![
            vec![sp(" Domain: myhost ", Style::DetailTitle)],
            vec![sp(" Host: myhost:22  Source: Lua config", Style::Detail)],
            vec![sp(" Enter to expand/collapse", Style::TextDim)],
        ]
    );
    let add = row(ADD_DOMAIN_FIELD_NAME, "Add", "", None, FieldStatus::Editable);
    assert_eq!(detail_lines(Some(&add), &defs())[0], vec![sp(" Add SSH Domain", Style::DetailTitle)]);
}

#[test]
fn edit_popup_layout() {
    let parent = Rect { x: 0, y: 0, width: 100, height: 30 };
    let edit = InlineEdit { field_name: "font_size".to_string(), buffer: "14".to_string(), kind: FieldKind::Float };
    let p = edit_popup(parent, &edit, &defs());
    assert_eq!(p.area, Rect { x: 28, y: 11, width: 44, height: 7 });
    assert_eq!(p.title, sp(" Edit: Font Size ", Style::Header));
    assert_eq!(
        p.lines,
        vec![
            vec![sp(" 14|", Style::ValueProposed)],
            vec![sp("", Style::Plain)],
            vec![sp(" Enter a number (e.g. 14.0)", Style::TextDim)],
            vec![sp(" Enter to confirm, Esc to cancel", Style::TextDim)],
        ]
    );
    let edit = InlineEdit {
        field_name: "mode".to_string(),
        buffer: String::new(),
        kind: FieldKind::Enum(vec![("A".to_string(), "x".to_string()), ("B".to_string(), String::new())]),
    };
    let p = edit_popup(Rect { x: 0, y: 0, width: 10, height: 6 }, &edit, &defs());
    assert_eq!(p.area, Rect { x: 2, y: 2, width: 6, height: 2 });
    assert_eq!(p.title, sp(" Edit: mode ", Style::Header));
    assert_eq!(p.lines[3], vec![sp(" Options: A, B", Style::TextDim)]);
}

#[test]
fn enum_picker_layout() {
    let picker = EnumPicker {
        field_name: "cursor_style".to_string(),
        variants: vec![("Block".to_string(), "Solid block".to_string()), ("Bar".to_string(), String::new())],
        selected: 1,
    };
    let p = enum_picker_popup(Rect { x: 0, y: 0, width: 100, height: 30 }, &picker, &defs());
    assert_eq!(p.area, Rect { x: 35, y: 12, width: 30, height: 6 });
    assert_eq!(p.title, sp(" cursor_style ", Style::Header));
    assert_eq!(
        p.lines,
        vec![
            vec![sp("   Block ", Style::Text), sp("  Solid block", Style::TextDim)],
            vec![sp(" ▸ Bar   ", Style::Selected)],
            vec![],
            vec![sp(" Enter select  Space cycle  Esc cancel", Style::TextDim)],
        ]
    );
}

#[test]
fn scheme_picker_layout() {
    let picker = ColorSchemePicker {
        schemes: vec!["Dracula".to_string(), "Nord".to_string(), "Solarized".to_string()],
        filtered: vec![2, 0],
        selected: 1,
        filter: String::new(),
        scroll_offset: 0,
    };
    let v = scheme_picker_view(Rect { x: 0, y: 0, width: 100, height: 40 }, &picker, "Color Scheme");
    assert_eq!(v.area, Rect { x: 10, y: 5, width: 80, height: 30 });
    assert_eq!(v.title, " Color Scheme (2/3) ");
    assert_eq!(v.filter, " / type to filter...");
    assert_eq!(v.rows.len(), 2);
    assert_eq!((v.rows[0].scheme, v.rows[0].selected), (2, false));
    assert_eq!(v.rows[0].name, "   Solarized");
    assert_eq!(v.rows[0].padding, " ".repeat(48));
    assert_eq!((v.rows[1].scheme, v.rows[1].selected), (0, true));
    assert_eq!(v.rows[1].name, " ▸ Dracula");
    assert_eq!(v.rows[1].padding, " ".repeat(48));
    assert_eq!(v.example, "   user@host:~ $ echo hello");
    assert_eq!(v.example_padding, " ".repeat(51));
}

#[test]
fn scheme_picker_cuts_and_scrolls() {
    let schemes: Vec<String> = (0..10).map(|i| format!("A very long color scheme name {}", i)).collect();
    let picker = ColorSchemePicker {
        schemes,
        filtered: (0..10).collect(),
        selected: 8,
        filter: "long".to_string(),
        scroll_offset: 0,
    };
    let v = scheme_picker_view(Rect { x: 0, y: 0, width: 44, height: 20 }, &picker, "Monitor");
    assert_eq!(v.area, Rect { x: 2, y: 2, width: 40, height: 16 });
    assert_eq!(v.filter, " / long|");
    assert_eq!(v.rows.len(), 6);
    assert_eq!(v.rows[0].scheme, 3);
    assert_eq!(v.rows[0].name, "   A very long co...");
    assert_eq!(v.rows[0].padding, "");
    assert!(v.rows[5].selected);
    assert_eq!(v.rows[5].scheme, 8);
    assert_eq!(v.example, "   user@host:~ $ echo hello");
    assert_eq!(v.example_padding, " ".repeat(11));
}
