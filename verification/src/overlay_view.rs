//! What the config overlay shows: its geometry, and the text and style
//! role of every piece of every panel. Drawing these with a widget library
//! is the caller's; each style role maps to a theme style there.
use vstd::prelude::*;
use vstd::utf8::{decode_utf8, encode_utf8, encode_utf8_decode_utf8, is_char_boundary};

use crate::config_overlay::{FieldStatus, Panel, ADD_DOMAIN_FIELD_NAME, DELETE_DOMAIN_FIELD_NAME};
use crate::config_overlay::{EnumPicker, InlineEdit};
use crate::overlay_data::{
    defs_view, domain_field_defs, domain_field_table, row_defs_view, DomainSource, FieldDef,
    FieldDefView, FieldKind, FieldKindView, Section,
};
use crate::overlay_state::{starts_with, starts_with_exec, ColorSchemePicker, SettingRow, SettingRowView};
use crate::text::{chars_of, decimal_of, push_char, push_decimal, push_str_chars, str_eq, string_from_range};

verus! {

/// A rectangle of terminal cells.
#[derive(Debug, Clone, Copy, PartialEq, Eq, Structural)]
pub struct Rect {
    pub x: u16,
    pub y: u16,
    pub width: u16,
    pub height: u16,
}

/// The widest and tallest the overlay gets, unless the terminal is larger
/// still (it then takes nine tenths of it).
pub const MAX_WIDTH: u16 = 100;
pub const MAX_HEIGHT: u16 = 35;
/// Width of the sections column.
pub const SECTION_W: u16 = 20;
/// Height of the details panel.
pub const DETAIL_ROWS: u16 = 4;

/// One side of the overlay: at most the maximum, at least nine tenths of
/// the terminal, never more than the terminal.
pub open spec fn overlay_extent(total: int, max: int) -> int {
    let a = if total <= max { total } else { max };
    let b = if a >= total * 9 / 10 { a } else { total * 9 / 10 };
    if b <= total { b } else { total }
}

/// The overlay's area in a terminal of `total`, centred, with its left and
/// top offsets.
pub open spec fn spec_overlay_rect(total: Rect) -> (Rect, u16, u16) {
    let w = overlay_extent(total.width as int, MAX_WIDTH as int);
    let h = overlay_extent(total.height as int, MAX_HEIGHT as int);
    let x = (total.width - w) / 2;
    let y = (total.height - h) / 2;
    (Rect { x: x as u16, y: y as u16, width: w as u16, height: h as u16 }, x as u16, y as u16)
}

fn extent(total: u16, max: u16) -> (r: u16)
    requires
        total as int * 9 <= u16::MAX,
    ensures
        r == overlay_extent(total as int, max as int),
{
    let a = if total <= max { total } else { max };
    let tenth = total * 9 / 10;
    let b = if a >= tenth { a } else { tenth };
    if b <= total { b } else { total }
}

/// The overlay's area, centred in `total` and sized as `overlay_extent`
/// says; `total`'s sides must stay small enough for nine times them to fit
/// in a `u16`.
pub fn overlay_rect(total: Rect) -> (r: (Rect, u16, u16))
    requires
        total.width as int * 9 <= u16::MAX,
        total.height as int * 9 <= u16::MAX,
    ensures
        r == spec_overlay_rect(total),
{
    let w = extent(total.width, MAX_WIDTH);
    let h = extent(total.height, MAX_HEIGHT);
    let x = (total.width - w) / 2;
    let y = (total.height - h) / 2;
    (Rect { x, y, width: w, height: h }, x, y)
}

/// The overlay's area in a `width` × `height` terminal.
pub fn overlay_rect_pub(width: u16, height: u16) -> (r: (Rect, u16, u16))
    requires
        width as int * 9 <= u16::MAX,
        height as int * 9 <= u16::MAX,
    ensures
        r == spec_overlay_rect(Rect { x: 0, y: 0, width, height }),
{
    overlay_rect(Rect { x: 0, y: 0, width, height })
}

/// The theme style a piece of text is drawn with.
#[derive(Debug, Clone, Copy, PartialEq, Eq, Structural)]
pub enum Style {
    /// No style of its own.
    Plain,
    Header,
    Border,
    Text,
    /// `Text` in bold.
    TextBold,
    TextDim,
    Value,
    ValueProposed,
    BadgeFixed,
    BadgeInherited,
    BadgeEditable,
    SectionActive,
    SectionInactive,
    Selected,
    SelectedValue,
    SelectedBadge,
    Dots,
    /// `Dots` on the selection background.
    DotsSelected,
    Detail,
    DetailTitle,
    Footer,
    FooterKey,
}

/// A piece of text in one style.
#[derive(Debug, PartialEq, Eq)]
pub struct Span {
    pub text: String,
    pub style: Style,
}

pub open spec fn span_view(s: Span) -> (Seq<char>, Style) {
    (s.text@, s.style)
}

pub open spec fn spans_view(v: Seq<Span>) -> Seq<(Seq<char>, Style)> {
    v.map_values(|s: Span| span_view(s))
}

fn span(text: &str, style: Style) -> (r: Span)
    ensures
        r.text@ == text@,
        r.style == style,
{
    Span { text: text.to_owned(), style }
}

fn concat(a: &str, b: &str) -> (r: String)
    ensures
        r@ == a@ + b@,
{
    let mut s = String::new();
    assert(s@ =~= Seq::<char>::empty());
    push_str_chars(&mut s, a);
    push_str_chars(&mut s, b);
    s
}

/// `n` copies of `c`.
pub open spec fn repeated(c: char, n: nat) -> Seq<char> {
    Seq::new(n, |i: int| c)
}

fn repeat_char(c: char, n: usize) -> (r: String)
    ensures
        r@ == repeated(c, n as nat),
{
    let mut s = String::new();
    assert(s@ =~= Seq::<char>::empty());
    let mut i: usize = 0;
    while i < n
        invariant
            i <= n,
            s@ == repeated(c, i as nat),
        decreases n - i,
    {
        push_char(&mut s, c);
        assert(s@ =~= repeated(c, (i + 1) as nat));
        i += 1;
    }
    s
}

/// The length in bytes of the UTF-8 encoding of `s`, as `str::len` gives it.
pub open spec fn utf8_len(s: Seq<char>) -> int {
    (encode_utf8(s).len() as usize) as int
}

pub(crate) fn byte_len(s: &String) -> (r: usize)
    ensures
        r == utf8_len(s@),
{
    s.as_str().len()
}

/// `a - b`, or zero when `b` is larger.
pub open spec fn sat_sub(a: int, b: int) -> int {
    if a >= b { a - b } else { 0 }
}

/// The overlay's title line: the section name, then a badge when there
/// are unsaved changes.
pub open spec fn spec_title_spans(section: Seq<char>, dirty: bool) -> Seq<(Seq<char>, Style)> {
    let title = (" Configure WeezTerm ── "@ + section + " "@, Style::Header);
    if dirty {
        seq![title, (" [modified] "@, Style::BadgeFixed)]
    } else {
        seq![title]
    }
}

pub fn title_spans(section: Section, dirty: bool) -> (r: Vec<Span>)
    ensures
        spans_view(r@) == spec_title_spans(crate::overlay_data::section_name(section), dirty),
{
    let mut title = concat(" Configure WeezTerm ── ", section.display_name());
    push_str_chars(&mut title, " ");
    let mut v: Vec<Span> = Vec::new();
    v.push(Span { text: title, style: Style::Header });
    if dirty {
        v.push(span(" [modified] ", Style::BadgeFixed));
    }
    assert(spans_view(v@) =~= spec_title_spans(crate::overlay_data::section_name(section), dirty));
    v
}

/// The height of the details panel: the Monitors section gets room for its
/// layout diagram.
pub fn detail_rows(section: Section) -> (r: u16)
    ensures
        r == (if section == Section::Monitors { 8u16 } else { DETAIL_ROWS }),
{
    match section {
        Section::Monitors => 8,
        _ => DETAIL_ROWS,
    }
}

/// The search bar: the filter with a cursor while typing, a hint when
/// there is no filter, and the buffer of an inline edit.
pub open spec fn spec_search_spans(active: bool, filter: Seq<char>, edit: Option<Seq<char>>) -> Seq<(Seq<char>, Style)> {
    let text = if active || filter.len() > 0 {
        " / "@ + filter + (if active { "▏"@ } else { ""@ })
    } else {
        " / search…"@
    };
    let first = (text, if active { Style::Text } else { Style::TextDim });
    match edit {
        Some(b) => seq![first, ("    Edit: "@ + b + "▏"@, Style::ValueProposed)],
        None => seq![first],
    }
}

pub fn search_spans(active: bool, filter: &str, edit: Option<&str>) -> (r: Vec<Span>)
    ensures
        spans_view(r@) == spec_search_spans(active, filter@, match edit {
            Some(b) => Some(b@),
            None => None,
        }),
{
    let text = if active || !filter.is_empty() {
        let mut t = concat(" / ", filter);
        if active {
            push_str_chars(&mut t, "▏");
        } else {
            push_str_chars(&mut t, "");
        }
        t
    } else {
        " / search…".to_owned()
    };
    let mut v: Vec<Span> = Vec::new();
    v.push(Span { text, style: if active { Style::Text } else { Style::TextDim } });
    if let Some(b) = edit {
        let mut t = concat("    Edit: ", b);
        push_str_chars(&mut t, "▏");
        v.push(Span { text: t, style: Style::ValueProposed });
    }
    let ghost ev = match edit {
        Some(b) => Some(b@),
        None => None,
    };
    assert(spans_view(v@) =~= spec_search_spans(active, filter@, ev));
    v
}

/// A line of the sections column: a marker on the current section, which
/// is highlighted while the column has the focus and bold otherwise.
pub open spec fn spec_section_item(name: Seq<char>, current: bool, focused: bool) -> (Seq<char>, Style) {
    let prefix = if current { " ▸ "@ } else { "   "@ };
    let style = if current && focused {
        Style::SectionActive
    } else if current {
        Style::TextBold
    } else {
        Style::SectionInactive
    };
    (prefix + name, style)
}

/// The lines of the sections column.
pub fn section_items(sections: &Vec<Section>, selected: usize, panel: Panel) -> (r: Vec<Span>)
    ensures
        r@.len() == sections@.len(),
        forall|i: int|
            0 <= i < sections@.len() ==> span_view(#[trigger] r@[i]) == spec_section_item(
                crate::overlay_data::section_name(sections@[i]),
                i == selected,
                panel == Panel::Sections,
            ),
{
    let mut v: Vec<Span> = Vec::new();
    let mut i: usize = 0;
    while i < sections.len()
        invariant
            i <= sections@.len(),
            v@.len() == i,
            forall|k: int|
                0 <= k < i ==> span_view(#[trigger] v@[k]) == spec_section_item(
                    crate::overlay_data::section_name(sections@[k]),
                    k == selected,
                    panel == Panel::Sections,
                ),
        decreases sections@.len() - i,
    {
        let current = i == selected;
        let prefix = if current { " ▸ " } else { "   " };
        let style = if current && panel == Panel::Sections {
            Style::SectionActive
        } else if current {
            Style::TextBold
        } else {
            Style::SectionInactive
        };
        let text = concat(prefix, sections[i].display_name());
        v.push(Span { text, style });
        i += 1;
    }
    v
}

/// The key hints of the footer.
pub open spec fn footer_hints() -> Seq<(Seq<char>, Seq<char>)> {
    seq![
        ("↑↓"@, "Navigate"@),
        ("Tab"@, "Switch pane"@),
        ("Enter"@, "Edit"@),
        ("/"@, "Search"@),
        ("S"@, "Save"@),
        ("P"@, "Preview"@),
        ("R"@, "Reset"@),
        ("Esc"@, "Close"@),
    ]
}

/// The footer after its leading blank: for each hint, a gap (but before
/// the first), the key, and the action.
pub open spec fn footer_tail(hints: Seq<(Seq<char>, Seq<char>)>) -> Seq<(Seq<char>, Style)>
    decreases hints.len(),
{
    if hints.len() == 0 {
        Seq::empty()
    } else {
        let prev = footer_tail(hints.drop_last());
        let h = hints.last();
        let gap = if hints.len() > 1 { seq![("  "@, Style::Footer)] } else { Seq::empty() };
        prev + gap + seq![(h.0, Style::FooterKey), (" "@ + h.1, Style::Footer)]
    }
}

pub fn footer_spans() -> (r: Vec<Span>)
    ensures
        spans_view(r@) == seq![(" "@, Style::Plain)] + footer_tail(footer_hints()),
{
    let hints: [(&str, &str); 8] = [
        ("↑↓", "Navigate"),
        ("Tab", "Switch pane"),
        ("Enter", "Edit"),
        ("/", "Search"),
        ("S", "Save"),
        ("P", "Preview"),
        ("R", "Reset"),
        ("Esc", "Close"),
    ];
    let ghost hv = hints@.map_values(|h: (&str, &str)| (h.0@, h.1@));
    assert(hv =~= footer_hints());
    let mut v: Vec<Span> = Vec::new();
    v.push(span(" ", Style::Plain));
    let mut i: usize = 0;
    while i < 8
        invariant
            i <= 8,
            hints@.len() == 8,
            hv == hints@.map_values(|h: (&str, &str)| (h.0@, h.1@)),
            spans_view(v@) == seq![(" "@, Style::Plain)] + footer_tail(hv.take(i as int)),
        decreases 8 - i,
    {
        let ghost before = v@;
        assert(hv.take(i + 1).drop_last() =~= hv.take(i as int));
        if i > 0 {
            v.push(span("  ", Style::Footer));
        }
        let (key, action) = hints[i];
        assert(hv[i as int] == (key@, action@));
        let ghost t = hv.take(i + 1);
        assert(t.len() == i + 1 && t.last() == hv[i as int]);
        v.push(span(key, Style::FooterKey));
        v.push(Span { text: concat(" ", action), style: Style::Footer });
        let ghost gap: Seq<(Seq<char>, Style)> = if i > 0 { seq![("  "@, Style::Footer)] } else { Seq::empty() };
        let ghost last: Seq<(Seq<char>, Style)> = seq![(key@, Style::FooterKey), (" "@ + action@, Style::Footer)];
        assert(footer_tail(t) == footer_tail(t.drop_last()) + gap + last);
        assert(spans_view(v@) =~= spans_view(before) + gap + last);
        assert(spans_view(v@) =~= seq![(" "@, Style::Plain)] + footer_tail(hv.take(i + 1)));
        i += 1;
    }
    assert(hv.take(8) =~= hv);
    v
}

/// The cells of a row of the settings table.
#[derive(Debug, PartialEq, Eq)]
pub struct TableRow {
    pub name: Vec<Span>,
    pub value: Span,
    pub badge: Span,
}

pub type TableRowView = (Seq<(Seq<char>, Style)>, (Seq<char>, Style), (Seq<char>, Style));

pub open spec fn table_row_view(r: TableRow) -> TableRowView {
    (spans_view(r.name@), span_view(r.value), span_view(r.badge))
}

/// The width of the name column of a settings table `width` cells wide:
/// what the value (16) and badge (10) columns and their spacing (3) leave.
pub open spec fn name_width(width: int) -> int {
    sat_sub(width, 29int)
}

/// The row prefix: a marker on the selected row.
pub open spec fn row_prefix(selected: bool) -> Seq<char> {
    if selected { " ▸ "@ } else { "   "@ }
}

/// A row of the settings table for `row`, `selected` or not, with a name
/// column `name_w` cells wide.
pub open spec fn spec_table_row(row: SettingRowView, selected: bool, name_w: int) -> TableRowView {
    match row.domain_header {
        Some(h) => {
            let arrow = if h.expanded { "▾"@ } else { "▸"@ };
            let label = " "@ + arrow + " "@ + row.display_name + " "@;
            let badge = match h.source {
                DomainSource::Lua => "lua"@,
                DomainSource::Overlay => "editable"@,
            };
            let sep = repeated('─', (if sat_sub(name_w, utf8_len(label)) >= 1 { sat_sub(name_w, utf8_len(label)) } else { 1 }) as nat);
            let (ns, vs, bs) = if selected {
                (Style::Selected, Style::SelectedValue, Style::SelectedBadge)
            } else {
                (Style::TextBold, Style::Value, match h.source {
                    DomainSource::Lua => Style::BadgeInherited,
                    DomainSource::Overlay => Style::BadgeEditable,
                })
            };
            (seq![(label, ns), (sep, Style::Border)], (row.current_value, vs), (badge, bs))
        },
        None => if row.field_name == ADD_DOMAIN_FIELD_NAME@ {
            let label = row_prefix(selected) + "+ "@ + row.display_name;
            (
                seq![(label, if selected { Style::Selected } else { Style::ValueProposed })],
                (""@, Style::Plain),
                (""@, Style::Plain),
            )
        } else if starts_with(row.field_name, DELETE_DOMAIN_FIELD_NAME@) {
            let label = row_prefix(selected) + "  ✗ Delete Domain"@;
            (
                seq![(label, if selected { Style::Selected } else { Style::BadgeFixed })],
                (""@, Style::Plain),
                (""@, Style::Plain),
            )
        } else {
            let raw = match row.proposed_value {
                Some(p) => p,
                None => row.current_value,
            };
            let value = if raw.len() == 0 { "—"@ } else { raw };
            let badge = match row.status {
                FieldStatus::Inherited => "inherited"@,
                FieldStatus::Editable => "modified"@,
                FieldStatus::FixedByLua => "lua"@,
            };
            let label = row_prefix(selected) + row.display_name;
            let n = sat_sub(name_w, utf8_len(label) + 1);
            let dots = repeated('·', (if n >= 1 { n } else { 1 }) as nat);
            let (ns, ds, vs, bs) = if selected {
                (Style::Selected, Style::DotsSelected, Style::SelectedValue, Style::SelectedBadge)
            } else {
                (
                    Style::Text,
                    Style::Dots,
                    if row.proposed_value is Some { Style::ValueProposed } else { Style::Value },
                    match row.status {
                        FieldStatus::Inherited => Style::BadgeInherited,
                        FieldStatus::Editable => Style::BadgeEditable,
                        FieldStatus::FixedByLua => Style::BadgeFixed,
                    },
                )
            };
            (seq![(label, ns), (" "@, ds), (dots, ds)], (value, vs), (badge, bs))
        },
    }
}

fn table_row(row: &SettingRow, selected: bool, name_w: usize) -> (r: TableRow)
    ensures
        table_row_view(r) == spec_table_row(row@, selected, name_w as int),
{
    let prefix = if selected { " ▸ " } else { "   " };
    match row.domain_header {
        Some(h) => {
            let arrow = if h.expanded { "▾" } else { "▸" };
            let mut label = concat(" ", arrow);
            push_str_chars(&mut label, " ");
            push_str_chars(&mut label, row.display_name.as_str());
            push_str_chars(&mut label, " ");
            let badge = match h.source {
                DomainSource::Lua => "lua",
                DomainSource::Overlay => "editable",
            };
            let n = name_w.saturating_sub(byte_len(&label));
            let sep = repeat_char('─', if n >= 1 { n } else { 1 });
            let (ns, vs, bs) = if selected {
                (Style::Selected, Style::SelectedValue, Style::SelectedBadge)
            } else {
                (Style::TextBold, Style::Value, match h.source {
                    DomainSource::Lua => Style::BadgeInherited,
                    DomainSource::Overlay => Style::BadgeEditable,
                })
            };
            let mut name: Vec<Span> = Vec::new();
            name.push(Span { text: label, style: ns });
            name.push(Span { text: sep, style: Style::Border });
            let r = TableRow {
                name,
                value: Span { text: row.current_value.clone(), style: vs },
                badge: span(badge, bs),
            };
            assert(spans_view(r.name@) =~= spec_table_row(row@, selected, name_w as int).0);
            r
        },
        None => {
            if str_eq(row.field_name.as_str(), ADD_DOMAIN_FIELD_NAME) {
                let mut label = concat(prefix, "+ ");
                push_str_chars(&mut label, row.display_name.as_str());
                let mut name: Vec<Span> = Vec::new();
                name.push(Span { text: label, style: if selected { Style::Selected } else { Style::ValueProposed } });
                let r = TableRow { name, value: span("", Style::Plain), badge: span("", Style::Plain) };
                assert(spans_view(r.name@) =~= spec_table_row(row@, selected, name_w as int).0);
                r
            } else if starts_with_exec(row.field_name.as_str(), DELETE_DOMAIN_FIELD_NAME) {
                let label = concat(prefix, "  ✗ Delete Domain");
                let mut name: Vec<Span> = Vec::new();
                name.push(Span { text: label, style: if selected { Style::Selected } else { Style::BadgeFixed } });
                let r = TableRow { name, value: span("", Style::Plain), badge: span("", Style::Plain) };
                assert(spans_view(r.name@) =~= spec_table_row(row@, selected, name_w as int).0);
                r
            } else {
                let raw: &str = match &row.proposed_value {
                    Some(p) => p.as_str(),
                    None => row.current_value.as_str(),
                };
                let value: &str = if raw.is_empty() { "—" } else { raw };
                let badge = match row.status {
                    FieldStatus::Inherited => "inherited",
                    FieldStatus::Editable => "modified",
                    FieldStatus::FixedByLua => "lua",
                };
                let label = concat(prefix, row.display_name.as_str());
                let n = name_w.saturating_sub(byte_len(&label).saturating_add(1));
                let dots = repeat_char('·', if n >= 1 { n } else { 1 });
                let (ns, ds, vs, bs) = if selected {
                    (Style::Selected, Style::DotsSelected, Style::SelectedValue, Style::SelectedBadge)
                } else {
                    (
                        Style::Text,
                        Style::Dots,
                        if row.proposed_value.is_some() { Style::ValueProposed } else { Style::Value },
                        match row.status {
                            FieldStatus::Inherited => Style::BadgeInherited,
                            FieldStatus::Editable => Style::BadgeEditable,
                            FieldStatus::FixedByLua => Style::BadgeFixed,
                        },
                    )
                };
                let mut name: Vec<Span> = Vec::new();
                name.push(Span { text: label, style: ns });
                name.push(span(" ", ds));
                name.push(Span { text: dots, style: ds });
                let r = TableRow { name, value: span(value, vs), badge: span(badge, bs) };
                assert(spans_view(r.name@) =~= spec_table_row(row@, selected, name_w as int).0);
                r
            }
        },
    }
}

/// The rows of the settings table, `width` cells wide; row `selected` is
/// marked while the settings panel has the focus.
pub fn settings_table(rows: &Vec<SettingRow>, selected: usize, panel: Panel, width: u16) -> (r: Vec<TableRow>)
    ensures
        r@.len() == rows@.len(),
        forall|i: int|
            0 <= i < rows@.len() ==> table_row_view(#[trigger] r@[i]) == spec_table_row(
                rows@[i]@,
                i == selected && panel == Panel::Settings,
                name_width(width as int),
            ),
{
    let name_w: usize = width.saturating_sub(16 + 10 + 3) as usize;
    let mut v: Vec<TableRow> = Vec::new();
    let mut i: usize = 0;
    while i < rows.len()
        invariant
            i <= rows@.len(),
            v@.len() == i,
            name_w == name_width(width as int),
            forall|k: int|
                0 <= k < i ==> table_row_view(#[trigger] v@[k]) == spec_table_row(
                    rows@[k]@,
                    k == selected && panel == Panel::Settings,
                    name_width(width as int),
                ),
        decreases rows@.len() - i,
    {
        let sel = i == selected && panel == Panel::Settings;
        v.push(table_row(&rows[i], sel, name_w));
        i += 1;
    }
    v
}

/// The first field definition named `name`.
pub open spec fn find_def(defs: Seq<FieldDefView>, name: Seq<char>) -> Option<FieldDefView>
    decreases defs.len(),
{
    if defs.len() == 0 {
        None
    } else if defs[0].name == name {
        Some(defs[0])
    } else {
        find_def(defs.skip(1), name)
    }
}

fn find_def_exec(defs: &Vec<FieldDef>, name: &str) -> (r: Option<usize>)
    ensures
        match r {
            Some(i) => i < defs@.len() && find_def(defs_view(defs@), name@) == Some(defs@[i as int]@),
            None => find_def(defs_view(defs@), name@) is None,
        },
{
    let ghost dv = defs_view(defs@);
    let mut j: usize = 0;
    assert(dv.skip(0) =~= dv);
    while j < defs.len()
        invariant
            j <= defs@.len(),
            dv == defs_view(defs@),
            find_def(dv, name@) == find_def(dv.skip(j as int), name@),
        decreases defs@.len() - j,
    {
        assert(dv.skip(j as int)[0] == defs@[j as int]@);
        if str_eq(defs[j].name, name) {
            return Some(j);
        }
        assert(dv.skip(j as int).skip(1) =~= dv.skip(j + 1));
        j += 1;
    }
    None
}

/// `s` ends with `p`.
pub open spec fn ends_with(s: Seq<char>, p: Seq<char>) -> bool {
    s.len() >= p.len() && s.skip(s.len() - p.len()) == p
}

fn ends_with_exec(s: &str, p: &str) -> (r: bool)
    ensures
        r == ends_with(s@, p@),
{
    let a = chars_of(s);
    let b = chars_of(p);
    if a.len() < b.len() {
        return false;
    }
    let off = a.len() - b.len();
    let alen = a.len();
    let mut k: usize = 0;
    while k < b.len()
        invariant
            k <= b@.len(),
            alen == a@.len(),
            a@ == s@,
            b@ == p@,
            off + b@.len() == a@.len(),
            forall|q: int| 0 <= q < k ==> a@[off + q] == b@[q],
        decreases b@.len() - k,
    {
        assert(off + k < a@.len());
        if a[off + k] != b[k] {
            assert(s@.skip(off as int)[k as int] != p@[k as int]);
            return false;
        }
        k += 1;
    }
    assert(s@.skip(off as int) =~= p@);
    true
}

/// The doc of the first domain field whose key, followed by `__`, ends
/// the field name.
pub open spec fn find_domain_doc(table: Seq<(Seq<char>, Seq<char>, FieldKindView, Seq<char>)>, field: Seq<char>) -> Option<Seq<char>>
    decreases table.len(),
{
    if table.len() == 0 {
        None
    } else if ends_with(field, table[0].0 + "__"@) {
        Some(table[0].3)
    } else {
        find_domain_doc(table.skip(1), field)
    }
}

fn find_domain_doc_exec(field: &str) -> (r: Option<&'static str>)
    ensures
        match r {
            Some(d) => find_domain_doc(domain_field_table(), field@) == Some(d@),
            None => find_domain_doc(domain_field_table(), field@) is None,
        },
{
    let table = domain_field_defs();
    let ghost tv = row_defs_view(table@);
    let mut j: usize = 0;
    assert(tv.skip(0) =~= tv);
    while j < table.len()
        invariant
            j <= table@.len(),
            tv == row_defs_view(table@),
            tv == domain_field_table(),
            find_domain_doc(tv, field@) == find_domain_doc(tv.skip(j as int), field@),
        decreases table@.len() - j,
    {
        let (key, _, _, doc) = &table[j];
        assert(tv.skip(j as int)[0] == (key@, table@[j as int].1@, table@[j as int].2@, doc@));
        let suffix = concat(key, "__");
        if ends_with_exec(field, suffix.as_str()) {
            return Some(*doc);
        }
        assert(tv.skip(j as int).skip(1) =~= tv.skip(j + 1));
        j += 1;
    }
    None
}

/// The short name of a field kind.
pub open spec fn kind_label(k: FieldKindView) -> Seq<char> {
    match k {
        FieldKindView::Bool => "bool"@,
        FieldKindView::Float => "float"@,
        FieldKindView::Integer => "int"@,
        FieldKindView::Text => "text"@,
        FieldKindView::Enum(_) => "enum"@,
        FieldKindView::ColorScheme => "scheme"@,
    }
}

fn kind_label_exec(k: &FieldKind) -> (r: &'static str)
    ensures
        r@ == kind_label(k@),
{
    match k {
        FieldKind::Bool => "bool",
        FieldKind::Float => "float",
        FieldKind::Integer => "int",
        FieldKind::Text => "text",
        FieldKind::Enum(_) => "enum",
        FieldKind::ColorScheme => "scheme",
    }
}

/// The details panel's lines for the selected row, if any. A setting shows
/// its name, key and kind (from its definition where there is one), its
/// value and status, and its documentation; a domain field shows the
/// documentation of the domain setting it edits.
pub open spec fn spec_detail_lines(row: Option<SettingRowView>, defs: Seq<FieldDefView>) -> Seq<Seq<(Seq<char>, Style)>> {
    match row {
        None => seq![seq![(" Select a setting to view details"@, Style::TextDim)]],
        Some(row) => match row.domain_header {
            Some(h) => seq![
                seq![(" Domain: "@ + row.display_name + " "@, Style::DetailTitle)],
                seq![(" Host: "@ + row.current_value + "  Source: "@ + (match h.source {
                    DomainSource::Lua => "Lua config"@,
                    DomainSource::Overlay => "User-added"@,
                }), Style::Detail)],
                seq![(" Enter to expand/collapse"@, Style::TextDim)],
            ],
            None => if row.field_name == ADD_DOMAIN_FIELD_NAME@ {
                seq![
                    seq![(" Add SSH Domain"@, Style::DetailTitle)],
                    seq![(" Press Enter to create a new SSH domain"@, Style::Detail)],
                ]
            } else if starts_with(row.field_name, DELETE_DOMAIN_FIELD_NAME@) {
                seq![
                    seq![(" Delete Domain"@, Style::DetailTitle)],
                    seq![(" Press Enter to remove this domain"@, Style::Detail)],
                ]
            } else {
                let def = find_def(defs, row.field_name);
                let kind = match def {
                    Some(d) => kind_label(d.kind),
                    None => kind_label(row.kind),
                };
                let status = match row.status {
                    FieldStatus::Inherited => "Inherited"@,
                    FieldStatus::Editable => "Editable"@,
                    FieldStatus::FixedByLua => "Fixed by Lua"@,
                };
                let val = match row.proposed_value {
                    Some(p) => p,
                    None => row.current_value,
                };
                let doc = match def {
                    Some(d) => d.doc,
                    None => ""@,
                };
                let doc = if row.domain_child is Some {
                    match find_domain_doc(domain_field_table(), row.field_name) {
                        Some(d) => d,
                        None => doc,
                    }
                } else {
                    doc
                };
                seq![
                    seq![
                        (" "@ + row.display_name + " "@, Style::DetailTitle),
                        ("("@ + row.field_name + ")  "@, Style::Detail),
                        ("type: "@ + kind, Style::TextDim),
                    ],
                    seq![(" value: "@ + val + "  "@, Style::Value), ("status: "@ + status, Style::Detail)],
                    seq![(" "@ + doc, Style::TextDim)],
                ]
            }
        },
    }
}

pub open spec fn lines_view(v: Seq<Vec<Span>>) -> Seq<Seq<(Seq<char>, Style)>> {
    v.map_values(|l: Vec<Span>| spans_view(l@))
}

fn line1(text: String, style: Style) -> (r: Vec<Span>)
    ensures
        spans_view(r@) == seq![(text@, style)],
{
    let mut v: Vec<Span> = Vec::new();
    v.push(Span { text, style });
    assert(spans_view(v@) =~= seq![(text@, style)]);
    v
}

fn concat3(a: &str, b: &str, c: &str) -> (r: String)
    ensures
        r@ == a@ + b@ + c@,
{
    let mut s = concat(a, b);
    push_str_chars(&mut s, c);
    s
}

/// The lines of the details panel for the selected row.
pub fn detail_lines(row: Option<&SettingRow>, defs: &Vec<FieldDef>) -> (r: Vec<Vec<Span>>)
    ensures
        lines_view(r@) == spec_detail_lines(
            match row {
                Some(x) => Some(x@),
                None => None,
            },
            defs_view(defs@),
        ),
{
    let mut out: Vec<Vec<Span>> = Vec::new();
    match row {
        None => {
            out.push(line1(" Select a setting to view details".to_owned(), Style::TextDim));
        },
        Some(row) => match row.domain_header {
            Some(h) => {
                out.push(line1(concat3(" Domain: ", row.display_name.as_str(), " "), Style::DetailTitle));
                let source = match h.source {
                    DomainSource::Lua => "Lua config",
                    DomainSource::Overlay => "User-added",
                };
                let mut host = concat3(" Host: ", row.current_value.as_str(), "  Source: ");
                push_str_chars(&mut host, source);
                out.push(line1(host, Style::Detail));
                out.push(line1(" Enter to expand/collapse".to_owned(), Style::TextDim));
            },
            None => {
                if str_eq(row.field_name.as_str(), ADD_DOMAIN_FIELD_NAME) {
                    out.push(line1(" Add SSH Domain".to_owned(), Style::DetailTitle));
                    out.push(line1(" Press Enter to create a new SSH domain".to_owned(), Style::Detail));
                } else if starts_with_exec(row.field_name.as_str(), DELETE_DOMAIN_FIELD_NAME) {
                    out.push(line1(" Delete Domain".to_owned(), Style::DetailTitle));
                    out.push(line1(" Press Enter to remove this domain".to_owned(), Style::Detail));
                } else {
                    let def = find_def_exec(defs, row.field_name.as_str());
                    let kind = match def {
                        Some(i) => kind_label_exec(&defs[i].kind),
                        None => kind_label_exec(&row.kind),
                    };
                    let status = match row.status {
                        FieldStatus::Inherited => "Inherited",
                        FieldStatus::Editable => "Editable",
                        FieldStatus::FixedByLua => "Fixed by Lua",
                    };
                    let val: &str = match &row.proposed_value {
                        Some(p) => p.as_str(),
                        None => row.current_value.as_str(),
                    };
                    let doc: &str = match def {
                        Some(i) => defs[i].doc,
                        None => "",
                    };
                    let doc: &str = if row.domain_child.is_some() {
                        match find_domain_doc_exec(row.field_name.as_str()) {
                            Some(d) => d,
                            None => doc,
                        }
                    } else {
                        doc
                    };
                    let mut first: Vec<Span> = Vec::new();
                    first.push(Span { text: concat3(" ", row.display_name.as_str(), " "), style: Style::DetailTitle });
                    first.push(Span { text: concat3("(", row.field_name.as_str(), ")  "), style: Style::Detail });
                    first.push(Span { text: concat("type: ", kind), style: Style::TextDim });
                    let mut second: Vec<Span> = Vec::new();
                    second.push(Span { text: concat3(" value: ", val, "  "), style: Style::Value });
                    second.push(Span { text: concat("status: ", status), style: Style::Detail });
                    let ghost l1 = spans_view(first@);
                    let ghost l2 = spans_view(second@);
                    out.push(first);
                    out.push(second);
                    out.push(line1(concat(" ", doc), Style::TextDim));
                    assert(l1 =~= spec_detail_lines(Some(row@), defs_view(defs@))[0]);
                    assert(l2 =~= spec_detail_lines(Some(row@), defs_view(defs@))[1]);
                }
            },
        },
    }
    let ghost rv = match row {
        Some(x) => Some(x@),
        None => None,
    };
    assert(lines_view(out@) =~= spec_detail_lines(rv, defs_view(defs@)));
    out
}

/// Where a popup of at most `w` × `h` cells goes in `parent`: centred.
pub open spec fn centred(parent: Rect, w: int, h: int) -> Rect {
    Rect {
        x: (parent.x + sat_sub(parent.width as int, w) / 2) as u16,
        y: (parent.y + sat_sub(parent.height as int, h) / 2) as u16,
        width: w as u16,
        height: h as u16,
    }
}

/// A rectangle whose far corner is still on the `u16` grid.
pub open spec fn rect_ok(r: Rect) -> bool {
    r.x + r.width <= u16::MAX && r.y + r.height <= u16::MAX
}

fn centre(parent: Rect, w: u16, h: u16) -> (r: Rect)
    requires
        rect_ok(parent),
    ensures
        r == centred(parent, w as int, h as int),
{
    Rect {
        x: parent.x + parent.width.saturating_sub(w) / 2,
        y: parent.y + parent.height.saturating_sub(h) / 2,
        width: w,
        height: h,
    }
}

/// The hint under the edit buffer for a field kind.
pub open spec fn kind_hint(k: FieldKindView) -> Seq<char> {
    match k {
        FieldKindView::Bool => "Toggle with Enter or Space"@,
        FieldKindView::Float => "Enter a number (e.g. 14.0)"@,
        FieldKindView::Integer => "Enter a whole number"@,
        FieldKindView::Text => "Type a value"@,
        FieldKindView::Enum(_) => "Choose from options below"@,
        FieldKindView::ColorScheme => "Type a color scheme name"@,
    }
}

/// The names of enum variants joined by `, `.
pub open spec fn joined_names(v: Seq<(Seq<char>, Seq<char>)>) -> Seq<char>
    decreases v.len(),
{
    if v.len() == 0 {
        Seq::empty()
    } else if v.len() == 1 {
        v[0].0
    } else {
        joined_names(v.drop_last()) + ", "@ + v.last().0
    }
}

/// A popup: where it goes, its title, and its lines.
#[derive(Debug, PartialEq, Eq)]
pub struct Popup {
    pub area: Rect,
    pub title: Span,
    pub lines: Vec<Vec<Span>>,
}

/// The inline edit popup over `parent`: titled by the field's display name
/// (or its key), it shows the buffer with a cursor, a hint for the kind,
/// and the options of an enum or how to confirm.
pub open spec fn spec_edit_popup(parent: Rect, field: Seq<char>, buffer: Seq<char>, kind: FieldKindView, defs: Seq<FieldDefView>) -> (Rect, (Seq<char>, Style), Seq<Seq<(Seq<char>, Style)>>) {
    let title = match find_def(defs, field) {
        Some(d) => d.display_name,
        None => field,
    };
    let w = if 44 <= sat_sub(parent.width as int, 4) { 44 } else { sat_sub(parent.width as int, 4) };
    let h = if 7 <= sat_sub(parent.height as int, 4) { 7 } else { sat_sub(parent.height as int, 4) };
    let last = match kind {
        FieldKindView::Enum(vs) => (" Options: "@ + joined_names(vs), Style::TextDim),
        _ => (" Enter to confirm, Esc to cancel"@, Style::TextDim),
    };
    (
        centred(parent, w, h),
        (" Edit: "@ + title + " "@, Style::Header),
        seq![
            seq![(" "@ + buffer + "|"@, Style::ValueProposed)],
            seq![(""@, Style::Plain)],
            seq![(" "@ + kind_hint(kind), Style::TextDim)],
            seq![last],
        ],
    )
}

fn kind_hint_exec(k: &FieldKind) -> (r: &'static str)
    ensures
        r@ == kind_hint(k@),
{
    match k {
        FieldKind::Bool => "Toggle with Enter or Space",
        FieldKind::Float => "Enter a number (e.g. 14.0)",
        FieldKind::Integer => "Enter a whole number",
        FieldKind::Text => "Type a value",
        FieldKind::Enum(_) => "Choose from options below",
        FieldKind::ColorScheme => "Type a color scheme name",
    }
}

fn join_names(v: &Vec<(String, String)>) -> (r: String)
    ensures
        r@ == joined_names(crate::overlay_data::pairs_view(v@)),
{
    let ghost pv = crate::overlay_data::pairs_view(v@);
    let mut s = String::new();
    assert(s@ =~= Seq::<char>::empty());
    let mut i: usize = 0;
    while i < v.len()
        invariant
            i <= v@.len(),
            pv == crate::overlay_data::pairs_view(v@),
            s@ == joined_names(pv.take(i as int)),
        decreases v@.len() - i,
    {
        assert(pv.take(i + 1).drop_last() =~= pv.take(i as int));
        assert(pv.take(i + 1).last() == pv[i as int]);
        if i > 0 {
            push_str_chars(&mut s, ", ");
        }
        push_str_chars(&mut s, v[i].0.as_str());
        i += 1;
    }
    assert(pv.take(v@.len() as int) =~= pv);
    s
}

/// The inline edit popup.
pub fn edit_popup(parent: Rect, edit: &InlineEdit, defs: &Vec<FieldDef>) -> (r: Popup)
    requires
        rect_ok(parent),
    ensures
        ({
            let (area, title, lines) = spec_edit_popup(parent, edit.field_name@, edit.buffer@, edit.kind@, defs_view(defs@));
            &&& r.area == area
            &&& span_view(r.title) == title
            &&& lines_view(r.lines@) == lines
        }),
{
    let title: &str = match find_def_exec(defs, edit.field_name.as_str()) {
        Some(i) => defs[i].display_name,
        None => edit.field_name.as_str(),
    };
    let pw = parent.width.saturating_sub(4);
    let ph = parent.height.saturating_sub(4);
    let w = if 44 <= pw { 44 } else { pw };
    let h = if 7 <= ph { 7 } else { ph };
    let area = centre(parent, w, h);
    let mut lines: Vec<Vec<Span>> = Vec::new();
    lines.push(line1(concat3(" ", edit.buffer.as_str(), "|"), Style::ValueProposed));
    lines.push(line1(String::new(), Style::Plain));
    lines.push(line1(concat(" ", kind_hint_exec(&edit.kind)), Style::TextDim));
    match &edit.kind {
        FieldKind::Enum(vs) => {
            let names = join_names(vs);
            lines.push(line1(concat(" Options: ", names.as_str()), Style::TextDim));
        },
        _ => {
            lines.push(line1(" Enter to confirm, Esc to cancel".to_owned(), Style::TextDim));
        },
    }
    let ghost sp = spec_edit_popup(parent, edit.field_name@, edit.buffer@, edit.kind@, defs_view(defs@));
    proof {
        reveal_strlit("");
    }
    assert(""@ =~= Seq::<char>::empty());
    assert(lines_view(lines@)[0] == sp.2[0]);
    assert(lines_view(lines@)[1] == sp.2[1]);
    assert(lines_view(lines@)[2] == sp.2[2]);
    assert(lines_view(lines@)[3] == sp.2[3]);
    assert(lines_view(lines@) =~= sp.2);
    Popup { area, title: Span { text: concat3(" Edit: ", title, " "), style: Style::Header }, lines }
}

/// The width a variant takes in the enum picker: its name, and its
/// description with a gap of three when it has one.
pub open spec fn variant_width(v: (Seq<char>, Seq<char>)) -> int {
    utf8_len(v.0) + if v.1.len() == 0 { 0 } else { utf8_len(v.1) + 3 }
}

/// The width an item takes: its name plus four for the prefix when
/// `names_only`, else `variant_width`.
pub open spec fn item_width(v: (Seq<char>, Seq<char>), names_only: bool) -> int {
    if names_only { utf8_len(v.0) + 4 } else { variant_width(v) }
}

/// The largest item width of a non-empty list.
pub open spec fn max_of(vs: Seq<(Seq<char>, Seq<char>)>, names_only: bool) -> int
    decreases vs.len(),
{
    if vs.len() <= 1 {
        item_width(vs[0], names_only)
    } else {
        let prev = max_of(vs.drop_last(), names_only);
        let w = item_width(vs.last(), names_only);
        if prev >= w { prev } else { w }
    }
}

/// The largest item width, or `dflt` when there is no item.
pub open spec fn max_width(vs: Seq<(Seq<char>, Seq<char>)>, names_only: bool, dflt: int) -> int {
    if vs.len() == 0 { dflt } else { max_of(vs, names_only) }
}

/// `s` padded with spaces to `w` characters.
pub open spec fn pad_to(s: Seq<char>, w: int) -> Seq<char> {
    if s.len() < w { s + repeated(' ', (w - s.len()) as nat) } else { s }
}

/// The widths in the enum picker fit the integer types the sizes are
/// computed in.
pub open spec fn enum_picker_fits(vs: Seq<(Seq<char>, Seq<char>)>) -> bool {
    &&& forall|i: int| 0 <= i < vs.len() ==> variant_width(#[trigger] vs[i]) <= usize::MAX && utf8_len(vs[i].0) + 4 <= usize::MAX
    &&& (max_width(vs, false, 20) as u16) + 6 <= u16::MAX
    &&& (vs.len() as u16) + 4 <= u16::MAX
}

/// The enum picker popup over `parent`: sized to its variants (at least
/// 30 × 5, at most four cells inside the parent on each axis), one line per
/// variant with the selected one marked and names padded so descriptions
/// align, and a hint line when there is room.
pub open spec fn spec_enum_picker(parent: Rect, field: Seq<char>, vs: Seq<(Seq<char>, Seq<char>)>, selected: int, defs: Seq<FieldDefView>) -> (Rect, (Seq<char>, Style), Seq<Seq<(Seq<char>, Style)>>) {
    let title = match find_def(defs, field) {
        Some(d) => d.display_name,
        None => field,
    };
    let wa = (max_width(vs, false, 20) as u16) + 6;
    let wb = if wa <= sat_sub(parent.width as int, 4) { wa } else { sat_sub(parent.width as int, 4) };
    let w = if wb >= 30 { wb } else { 30 };
    let ha = (vs.len() as u16) + 4;
    let hb = if ha <= sat_sub(parent.height as int, 4) { ha } else { sat_sub(parent.height as int, 4) };
    let h = if hb >= 5 { hb } else { 5 };
    let name_w = max_width(vs, true, 10);
    let items = Seq::new(vs.len(), |i: int| {
        let sel = i == selected;
        let name = (pad_to(row_prefix(sel) + vs[i].0, name_w), if sel { Style::Selected } else { Style::Text });
        if vs[i].1.len() == 0 {
            seq![name]
        } else {
            seq![name, ("  "@ + vs[i].1, if sel { Style::SelectedBadge } else { Style::TextDim })]
        }
    });
    let hint = if sat_sub(h, 2) > vs.len() + 1 {
        seq![Seq::<(Seq<char>, Style)>::empty(), seq![(" Enter select  Space cycle  Esc cancel"@, Style::TextDim)]]
    } else {
        Seq::empty()
    };
    (centred(parent, w, h), (" "@ + title + " "@, Style::Header), items + hint)
}

fn max_width_exec(vs: &Vec<(String, String)>, names_only: bool, dflt: usize) -> (r: usize)
    requires
        enum_picker_fits(crate::overlay_data::pairs_view(vs@)),
    ensures
        r == max_width(crate::overlay_data::pairs_view(vs@), names_only, dflt as int),
{
    let ghost pv = crate::overlay_data::pairs_view(vs@);
    let mut best: usize = dflt;
    let mut i: usize = 0;
    while i < vs.len()
        invariant
            i <= vs@.len(),
            pv == crate::overlay_data::pairs_view(vs@),
            enum_picker_fits(pv),
            best == max_width(pv.take(i as int), names_only, dflt as int),
        decreases vs@.len() - i,
    {
        let (v, d) = &vs[i];
        assert(pv[i as int] == (v@, d@));
        assert(variant_width(pv[i as int]) <= usize::MAX && utf8_len(pv[i as int].0) + 4 <= usize::MAX);
        let w: usize = if names_only {
            byte_len(v) + 4
        } else if d.as_str().is_empty() {
            byte_len(v)
        } else {
            byte_len(v) + byte_len(d) + 3
        };
        let ghost t = pv.take(i + 1);
        assert(t.drop_last() =~= pv.take(i as int));
        assert(t.last() == pv[i as int]);
        if i == 0 || w > best {
            best = w;
        }
        i += 1;
    }
    assert(pv.take(vs@.len() as int) =~= pv);
    best
}

fn pad_spaces(s: &mut String, w: usize)
    ensures
        final(s)@ == pad_to(old(s)@, w as int),
{
    let n = chars_of(s.as_str()).len();
    if n < w {
        let spaces = repeat_char(' ', w - n);
        push_str_chars(s, spaces.as_str());
    }
}

/// The enum picker popup for `picker` over `parent`.
pub fn enum_picker_popup(parent: Rect, picker: &EnumPicker, defs: &Vec<FieldDef>) -> (r: Popup)
    requires
        rect_ok(parent),
        enum_picker_fits(crate::overlay_data::pairs_view(picker.variants@)),
    ensures
        ({
            let (area, title, lines) = spec_enum_picker(
                parent,
                picker.field_name@,
                crate::overlay_data::pairs_view(picker.variants@),
                picker.selected as int,
                defs_view(defs@),
            );
            &&& r.area == area
            &&& span_view(r.title) == title
            &&& lines_view(r.lines@) == lines
        }),
{
    let ghost pv = crate::overlay_data::pairs_view(picker.variants@);
    let title: &str = match find_def_exec(defs, picker.field_name.as_str()) {
        Some(i) => defs[i].display_name,
        None => picker.field_name.as_str(),
    };
    let vs = &picker.variants;
    let wa: u16 = max_width_exec(vs, false, 20) as u16 + 6;
    let pw = parent.width.saturating_sub(4);
    let wb = if wa <= pw { wa } else { pw };
    let w = if wb >= 30 { wb } else { 30 };
    let ha: u16 = vs.len() as u16 + 4;
    let ph = parent.height.saturating_sub(4);
    let hb = if ha <= ph { ha } else { ph };
    let h = if hb >= 5 { hb } else { 5 };
    let area = centre(parent, w, h);
    let name_w = max_width_exec(vs, true, 10);
    let ghost sp = spec_enum_picker(parent, picker.field_name@, pv, picker.selected as int, defs_view(defs@));
    let mut lines: Vec<Vec<Span>> = Vec::new();
    let mut i: usize = 0;
    while i < vs.len()
        invariant
            i <= vs@.len(),
            vs == &picker.variants,
            pv == crate::overlay_data::pairs_view(vs@),
            name_w == max_width(pv, true, 10),
            lines@.len() == i,
            sp == spec_enum_picker(parent, picker.field_name@, pv, picker.selected as int, defs_view(defs@)),
            forall|k: int| 0 <= k < i ==> spans_view((#[trigger] lines@[k])@) == sp.2[k],
        decreases vs@.len() - i,
    {
        let (v, d) = &vs[i];
        assert(pv[i as int] == (v@, d@));
        let sel = i == picker.selected;
        let prefix = if sel { " ▸ " } else { "   " };
        let mut name = concat(prefix, v.as_str());
        pad_spaces(&mut name, name_w);
        let mut line: Vec<Span> = Vec::new();
        line.push(Span { text: name, style: if sel { Style::Selected } else { Style::Text } });
        if !d.as_str().is_empty() {
            line.push(Span { text: concat("  ", d.as_str()), style: if sel { Style::SelectedBadge } else { Style::TextDim } });
        }
        assert(spans_view(line@) =~= sp.2[i as int]);
        lines.push(line);
        i += 1;
    }
    let inner_h = h.saturating_sub(2) as usize;
    if vs.len() < usize::MAX && inner_h > vs.len() + 1 {
        let blank: Vec<Span> = Vec::new();
        assert(spans_view(blank@) =~= Seq::<(Seq<char>, Style)>::empty());
        lines.push(blank);
        lines.push(line1(" Enter select  Space cycle  Esc cancel".to_owned(), Style::TextDim));
    }
    assert(lines_view(lines@) =~= sp.2);
    Popup { area, title: Span { text: concat3(" ", title, " "), style: Style::Header }, lines }
}

/// A scheme's line in the color scheme picker: the scheme, whether it is
/// selected, its name column (prefixed, cut to fit with an ellipsis) and
/// the padding after it. The swatches of the scheme's colors follow.
#[derive(Debug, PartialEq, Eq)]
pub struct SchemeRow {
    pub scheme: usize,
    pub selected: bool,
    pub name: String,
    pub padding: String,
}

/// The color scheme picker: where it goes, its title and filter line, its
/// visible rows, and the sample text under each row with its padding.
#[derive(Debug, PartialEq, Eq)]
pub struct SchemePickerView {
    pub area: Rect,
    pub title: String,
    pub filter: String,
    pub rows: Vec<SchemeRow>,
    pub example: String,
    pub example_padding: String,
}

/// The sample text shown under each scheme.
pub open spec fn example_text() -> Seq<char> {
    "   user@host:~ $ echo hello"@
}

/// The picker's size: four cells inside the parent, between 40 × 10 and
/// 80 × 30.
pub open spec fn scheme_picker_size(parent: Rect) -> (int, int) {
    let wa = sat_sub(parent.width as int, 4);
    let wb = if wa <= 80 { wa } else { 80 };
    let ha = sat_sub(parent.height as int, 4);
    let hb = if ha <= 30 { ha } else { 30 };
    (if wb >= 40 { wb } else { 40 }, if hb >= 10 { hb } else { 10 })
}

/// How many schemes fit (two lines each, under the filter line) and the
/// first one shown, so that the selected scheme is visible.
pub open spec fn scheme_scroll(parent: Rect, selected: int) -> (int, int) {
    let (w, h) = scheme_picker_size(parent);
    let visible = sat_sub(sat_sub(h, 2), 1) / 2;
    (visible, if selected >= visible { sat_sub(selected, visible - 1) } else { 0 })
}

/// The width of the name column.
pub open spec fn scheme_name_width(parent: Rect) -> int {
    sat_sub(sat_sub(scheme_picker_size(parent).0, 2), 18int)
}

/// The name column of a scheme: the prefixed name, or, when longer (in
/// bytes) than the column, its first `width - 3` bytes and `...`.
pub open spec fn scheme_name_cell(name: Seq<char>, selected: bool, width: int) -> Seq<char> {
    let dn = row_prefix(selected) + name;
    if utf8_len(dn) > width {
        decode_utf8(encode_utf8(dn).subrange(0, sat_sub(width, 3))) + "..."@
    } else {
        dn
    }
}

/// Every name the picker cuts is cut at a character boundary.
pub open spec fn scheme_names_cut_cleanly(p: ColorSchemePicker, parent: Rect) -> bool {
    let (visible, scroll) = scheme_scroll(parent, p.selected as int);
    forall|k: int|
        scroll <= k < scroll + visible && k < p.filtered@.len() ==> {
            let dn = row_prefix(k == p.selected) + p.schemes@[#[trigger] p.filtered@[k] as int]@;
            utf8_len(dn) > scheme_name_width(parent) ==> is_char_boundary(encode_utf8(dn), sat_sub(scheme_name_width(parent), 3))
        }
}

/// The filter line of the picker.
pub open spec fn scheme_filter_line(filter: Seq<char>) -> Seq<char> {
    if filter.len() == 0 { " / type to filter..."@ } else { " / "@ + filter + "|"@ }
}

pub open spec fn scheme_row_ok(p: ColorSchemePicker, parent: Rect, k: int, r: SchemeRow) -> bool {
    let name = p.schemes@[p.filtered@[k] as int]@;
    let sel = k == p.selected;
    let cell = scheme_name_cell(name, sel, scheme_name_width(parent));
    &&& r.scheme == p.filtered@[k]
    &&& r.selected == sel
    &&& r.name@ == cell
    &&& r.padding@ == repeated(' ', sat_sub(scheme_name_width(parent), utf8_len(cell)) as nat)
}

fn cut_name(dn: String, width: usize) -> (r: String)
    requires
        utf8_len(dn@) > width ==> is_char_boundary(encode_utf8(dn@), sat_sub(width as int, 3)),
    ensures
        r@ == (if utf8_len(dn@) > width {
            decode_utf8(encode_utf8(dn@).subrange(0, sat_sub(width as int, 3))) + "..."@
        } else {
            dn@
        }),
{
    if byte_len(&dn) > width {
        let k = width.saturating_sub(3);
        let (head, _) = dn.as_str().split_at(k);
        proof {
            encode_utf8_decode_utf8(head@);
        }
        concat(head, "...")
    } else {
        dn
    }
}

/// The color scheme picker labelled `label` over `parent`.
pub fn scheme_picker_view(parent: Rect, picker: &ColorSchemePicker, label: &str) -> (r: SchemePickerView)
    requires
        rect_ok(parent),
        forall|k: int| 0 <= k < picker.filtered@.len() ==> (#[trigger] picker.filtered@[k]) < picker.schemes@.len(),
        scheme_names_cut_cleanly(*picker, parent),
    ensures
        ({
            let (w, h) = scheme_picker_size(parent);
            let (visible, scroll) = scheme_scroll(parent, picker.selected as int);
            let inner_w = sat_sub(w, 2);
            let ex_len = if 27 <= inner_w { 27 } else { inner_w };
            let shown = if scroll + visible <= picker.filtered@.len() { visible } else { sat_sub(picker.filtered@.len() as int, scroll) };
            &&& r.area == centred(parent, w, h)
            &&& r.title@ == " "@ + label@ + " ("@ + decimal_of(picker.filtered@.len()) + "/"@ + decimal_of(picker.schemes@.len()) + ") "@
            &&& r.filter@ == scheme_filter_line(picker.filter@)
            &&& r.rows@.len() == shown
            &&& forall|i: int| 0 <= i < shown ==> scheme_row_ok(*picker, parent, scroll + i, #[trigger] r.rows@[i])
            &&& r.example@ == example_text().take(ex_len)
            &&& r.example_padding@ == repeated(' ', sat_sub(inner_w, ex_len) as nat)
        }),
{
    let pw = parent.width.saturating_sub(4);
    let wb = if pw <= 80 { pw } else { 80 };
    let w = if wb >= 40 { wb } else { 40 };
    let ph = parent.height.saturating_sub(4);
    let hb = if ph <= 30 { ph } else { 30 };
    let h = if hb >= 10 { hb } else { 10 };
    let area = centre(parent, w, h);
    let mut title = concat(" ", label);
    push_str_chars(&mut title, " (");
    push_decimal(&mut title, picker.filtered.len() as u64);
    push_str_chars(&mut title, "/");
    push_decimal(&mut title, picker.schemes.len() as u64);
    push_str_chars(&mut title, ") ");
    let filter = if picker.filter.as_str().is_empty() {
        " / type to filter...".to_owned()
    } else {
        concat3(" / ", picker.filter.as_str(), "|")
    };
    let inner_w = w.saturating_sub(2) as usize;
    let list_h = h.saturating_sub(2).saturating_sub(1) as usize;
    let visible = list_h / 2;
    let scroll = if picker.selected >= visible { picker.selected.saturating_sub(visible - 1) } else { 0 };
    let name_w = inner_w.saturating_sub(17 + 1);
    assert(name_w == scheme_name_width(parent));
    assert(visible >= 3);
    let n = picker.filtered.len();
    let mut rows: Vec<SchemeRow> = Vec::new();
    let mut k: usize = scroll;
    while k < n && k - scroll < visible
        invariant
            scroll <= k,
            k <= n || k == scroll,
            n == picker.filtered@.len(),
            (visible as int, scroll as int) == scheme_scroll(parent, picker.selected as int),
            name_w == scheme_name_width(parent),
            rows@.len() == k - scroll,
            k - scroll <= visible,
            forall|q: int| 0 <= q < picker.filtered@.len() ==> (#[trigger] picker.filtered@[q]) < picker.schemes@.len(),
            scheme_names_cut_cleanly(*picker, parent),
            forall|i: int| 0 <= i < rows@.len() ==> scheme_row_ok(*picker, parent, scroll + i, #[trigger] rows@[i]),
        decreases n - k,
    {
        let idx = picker.filtered[k];
        let sel = k == picker.selected;
        let prefix = if sel { " ▸ " } else { "   " };
        let dn = concat(prefix, picker.schemes[idx].as_str());
        let name = cut_name(dn, name_w);
        let pad = repeat_char(' ', name_w.saturating_sub(byte_len(&name)));
        rows.push(SchemeRow { scheme: idx, selected: sel, name, padding: pad });
        k += 1;
    }
    let ex_len: usize = if 27 <= inner_w { 27 } else { inner_w };
    let ex = chars_of("   user@host:~ $ echo hello");
    proof {
        reveal_strlit("   user@host:~ $ echo hello");
    }
    let example = string_from_range(&ex, 0, ex_len);
    let example_padding = repeat_char(' ', inner_w.saturating_sub(ex_len));
    assert(example@ =~= example_text().take(ex_len as int));
    SchemePickerView { area, title, filter, rows, example, example_padding }
}

} // verus!
