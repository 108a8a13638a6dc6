//! What each input does to the config overlay: the decisions of its event
//! loop. The loop itself (drawing, reading input, parsing floats, listing
//! color schemes) runs around these functions.
use vstd::prelude::*;
use crate::config_overlay::{
    spec_extract_domain_field_key, extract_domain_field_key, toggled_text, DynValue, EnumPicker,
    InlineEdit, Panel, ADD_DOMAIN_FIELD_NAME, DELETE_DOMAIN_FIELD_NAME, NEW_DOMAIN_FIELD_NAME,
};
use crate::input::{Key, KeyPress, Mods};
use crate::overlay_data::{spec_domain_field_value, FieldKind, FieldKindView, Section, pairs_view};
use crate::overlay_state::{
    current_value_of, domain_edit_done, domain_enter_done, domain_field_set, domain_finalized,
    matching_schemes, nav_same, popups_same, proposal_set, spec_visible_settings,
    starts_with, toggled_value, values_same, variant_index_from, visible_count, OverlayState,
    SettingRow, SettingRowView, ColorSchemePicker, cycled_variant, proposal_set_text,
    domain_rows, field_rows, add_domain_row, domain_group_rows,
};
use crate::overlay_data::{DomainEntry, DomainSource, FieldDefView, SshDomainConfig};
use crate::overlay_state::ValueMap;
use crate::config_overlay::{overlay_configs, names_unique};
use crate::text::{lowercase, parse_i64, parse_i64_exec, pop_char, push_char, str_eq};

verus! {

/// An input event of the config overlay.
#[derive(Debug, Clone, Copy, PartialEq, Eq, Structural)]
pub enum OverlayInput {
    Key(KeyPress),
    /// A left click at (`x`, `y`) in a terminal of `width` × `height` cells.
    LeftClick { x: u16, y: u16, width: u16, height: u16 },
    /// The terminal was resized.
    Resized,
    /// Any other input.
    Other,
}

/// What the event loop does after an input.
#[derive(Debug)]
pub enum OverlayStep {
    /// Draw again and wait for the next input.
    Continue,
    /// Close without saving.
    Close,
    /// Save the proposals and the overlay's domains.
    Save,
    /// Preview the proposals.
    Preview,
    /// Open the color scheme picker on the known schemes
    /// (`OverlayState::open_scheme_picker`).
    OpenSchemePicker,
    /// A float field was edited: if `buffer` parses as a float, propose it
    /// for `field_name`.
    ParseFloat { field_name: String, buffer: String },
    /// Refresh the terminal size and clear the screen.
    Resized,
}

/// Whether a domain-related row is the target: a domain header, a domain
/// field, the add row or a delete row.
pub open spec fn is_domain_row(row: SettingRowView) -> bool {
    ||| row.domain_header is Some
    ||| row.domain_child is Some
    ||| row.field_name == ADD_DOMAIN_FIELD_NAME@
    ||| starts_with(row.field_name, DELETE_DOMAIN_FIELD_NAME@)
}

/// The value a row shows: its proposal, else its current value.
pub open spec fn shown_value(row: SettingRowView) -> Seq<char> {
    match row.proposed_value {
        Some(p) => p,
        None => row.current_value,
    }
}

/// `b` is `a` with the enum picker opened on `row`.
pub open spec fn enum_picker_opened(a: OverlayState, b: OverlayState, row: SettingRowView, vs: Seq<(Seq<char>, Seq<char>)>) -> bool {
    &&& b.enum_picker matches Some(p) && p.field_name@ == row.field_name && pairs_view(p.variants@) == vs
        && p.selected == variant_index_from(vs, Some(shown_value(row)), 0)
    &&& nav_same(a, b)
    &&& values_same(a, b)
    &&& b.inline_edit == a.inline_edit
    &&& b.scheme_picker == a.scheme_picker
    &&& b.domains == a.domains
    &&& b.dirty == a.dirty
}

/// `b` is `a` with the inline editor opened on `row`, holding `text`.
pub open spec fn inline_edit_opened(a: OverlayState, b: OverlayState, row: SettingRowView, text: Seq<char>) -> bool {
    &&& b.inline_edit matches Some(ed) && ed.field_name@ == row.field_name && ed.buffer@ == text && ed.kind@
        == row.kind
    &&& nav_same(a, b)
    &&& values_same(a, b)
    &&& b.enum_picker == a.enum_picker
    &&& b.scheme_picker == a.scheme_picker
    &&& b.domains == a.domains
    &&& b.dirty == a.dirty
}

/// What Enter (or a click on the selected row) does to `row`: domain rows
/// act as `handle_domain_enter` does; rows fixed by Lua are left alone; a
/// boolean toggles, an enum opens its picker, a color scheme opens the
/// scheme picker, and other fields open the inline editor on the value
/// shown.
pub open spec fn row_activated(a: OverlayState, b: OverlayState, row: SettingRowView, r: OverlayStep) -> bool {
    if is_domain_row(row) {
        r == OverlayStep::Continue && domain_enter_done(a, b, row)
    } else if row.status == crate::config_overlay::FieldStatus::FixedByLua {
        r == OverlayStep::Continue && b == a
    } else {
        match row.kind {
            FieldKindView::Bool => r == OverlayStep::Continue && proposal_set(
                a,
                b,
                row.field_name,
                toggled_value(current_value_of(a, row.field_name)),
            ),
            FieldKindView::Enum(vs) => r == OverlayStep::Continue && enum_picker_opened(a, b, row, vs),
            FieldKindView::ColorScheme => r == OverlayStep::OpenSchemePicker && b == a,
            _ => r == OverlayStep::Continue && inline_edit_opened(a, b, row, shown_value(row)),
        }
    }
}

/// Every domain header row names an existing domain.
pub open spec fn headers_in_range(rows: Seq<SettingRowView>, n: int) -> bool {
    forall|k: int| 0 <= k < rows.len() ==> ((#[trigger] rows[k]).domain_header matches Some(h) ==> h.domain_index < n)
}

proof fn lemma_field_rows_no_header(
    defs: Seq<FieldDefView>,
    section: Section,
    filter: Seq<char>,
    proposals: Seq<(String, DynValue)>,
    effective: Seq<(String, DynValue)>,
    n: int,
)
    ensures
        headers_in_range(field_rows(defs, section, filter, proposals, effective), n),
    decreases defs.len(),
{
    if defs.len() > 0 {
        lemma_field_rows_no_header(defs.drop_last(), section, filter, proposals, effective, n);
    }
}

proof fn lemma_domain_rows_headers(entries: Seq<DomainEntry>, filter: Seq<char>)
    ensures
        headers_in_range(domain_rows(entries, filter), entries.len() as int),
    decreases entries.len(),
{
    if entries.len() > 0 {
        lemma_domain_rows_headers(entries.drop_last(), filter);
        let rest = domain_rows(entries.drop_last(), filter);
        let g = domain_group_rows((entries.len() - 1) as nat, entries.last());
        assert(headers_in_range(g, entries.len() as int)) by {
            assert forall|k: int| 0 <= k < g.len() implies ((#[trigger] g[k]).domain_header matches Some(h) ==> h.domain_index < entries.len()) by {
                if entries.last().expanded {
                    let children = crate::overlay_data::domain_field_table().map_values(
                        |d: (Seq<char>, Seq<char>, FieldKindView, Seq<char>)| crate::overlay_state::domain_child_row((entries.len() - 1) as nat, entries.last(), d),
                    );
                    if k > 0 && k <= children.len() {
                        assert(g[k] == children[k - 1]);
                    }
                }
            }
        }
        if domain_rows(entries, filter) != rest {
            let all = domain_rows(entries, filter);
            assert(all == rest + g);
            assert forall|k: int| 0 <= k < all.len() implies ((#[trigger] all[k]).domain_header matches Some(h) ==> h.domain_index < entries.len()) by {
                if k < rest.len() {
                    assert(all[k] == rest[k]);
                } else {
                    assert(all[k] == g[k - rest.len()]);
                }
            }
        }
    }
}

/// Every header row the settings panel shows names an existing domain.
proof fn lemma_visible_headers(st: OverlayState)
    requires
        st.selected_section < st.sections@.len(),
    ensures
        headers_in_range(spec_visible_settings(st), st.domains.entries@.len() as int),
{
    let section = st.sections@[st.selected_section as int];
    let filter = lowercase(st.filter@);
    let n = st.domains.entries@.len() as int;
    let base = field_rows(crate::overlay_data::defs_view(st.field_defs@), section, filter, st.proposals@, st.effective_values@);
    lemma_field_rows_no_header(crate::overlay_data::defs_view(st.field_defs@), section, filter, st.proposals@, st.effective_values@, n);
    lemma_domain_rows_headers(st.domains.entries@, filter);
    let all = spec_visible_settings(st);
    if section == Section::SshAndDomains {
        let d = domain_rows(st.domains.entries@, filter);
        assert forall|k: int| 0 <= k < all.len() implies ((#[trigger] all[k]).domain_header matches Some(h) ==> h.domain_index < n) by {
            if k < base.len() {
                assert(all[k] == base[k]);
            } else if k < base.len() + d.len() {
                assert(all[k] == d[k - base.len()]);
            } else {
                assert(all[k] == add_domain_row());
            }
        }
    }
}

fn is_domain_row_exec(row: &SettingRow) -> (r: bool)
    ensures
        r == is_domain_row(row@),
{
    row.domain_header.is_some() || row.domain_child.is_some() || str_eq(row.field_name.as_str(), ADD_DOMAIN_FIELD_NAME)
        || crate::overlay_state::starts_with_exec(row.field_name.as_str(), DELETE_DOMAIN_FIELD_NAME)
}

fn shown_value_exec(row: &SettingRow) -> (r: String)
    ensures
        r@ == shown_value(row@),
{
    match &row.proposed_value {
        Some(p) => p.clone(),
        None => row.current_value.clone(),
    }
}

impl OverlayState {
    /// Enter on `row` (or a click on the selected `row`).
    pub fn activate_row(&mut self, row: &SettingRow) -> (r: OverlayStep)
        requires
            row.domain_header matches Some(h) ==> h.domain_index < old(self).domains.entries@.len(),
        ensures
            row_activated(*old(self), *final(self), row@, r),
    {
        if is_domain_row_exec(row) {
            self.handle_domain_enter(row);
            return OverlayStep::Continue;
        }
        if !OverlayState::is_row_editable(row) {
            return OverlayStep::Continue;
        }
        match &row.kind {
            FieldKind::Bool => {
                self.toggle_bool(row.field_name.as_str());
                OverlayStep::Continue
            },
            FieldKind::Enum(variants) => {
                let current = Some(shown_value_exec(row));
                let selected = crate::overlay_state::find_variant(variants, &current);
                self.enum_picker = Some(EnumPicker {
                    field_name: row.field_name.clone(),
                    variants: crate::overlay_state::clone_variants(variants),
                    selected,
                });
                OverlayStep::Continue
            },
            FieldKind::ColorScheme => OverlayStep::OpenSchemePicker,
            FieldKind::Float | FieldKind::Integer | FieldKind::Text => {
                self.inline_edit = Some(InlineEdit {
                    field_name: row.field_name.clone(),
                    buffer: shown_value_exec(row),
                    kind: row.kind.clone(),
                });
                OverlayStep::Continue
            },
        }
    }
}

/// `st` with no inline editor.
pub open spec fn without_inline_edit(st: OverlayState) -> OverlayState {
    OverlayState { inline_edit: None, ..st }
}

/// `st` with no enum picker.
pub open spec fn without_enum_picker(st: OverlayState) -> OverlayState {
    OverlayState { enum_picker: None, ..st }
}

/// `st` with no color scheme picker.
pub open spec fn without_scheme_picker(st: OverlayState) -> OverlayState {
    OverlayState { scheme_picker: None, ..st }
}

/// What Enter in the inline editor does: the edit is closed, then the text
/// names the new domain, sets a domain field, or becomes the field's
/// proposal as its kind reads it (a float is handed back for parsing; an
/// integer that does not parse is dropped).
pub open spec fn inline_edit_committed(a: OverlayState, b: OverlayState, ed: InlineEdit, r: OverlayStep) -> bool {
    let st = without_inline_edit(a);
    if ed.field_name@ == NEW_DOMAIN_FIELD_NAME@ {
        r == OverlayStep::Continue && domain_finalized(st, b, ed.buffer@)
    } else if starts_with(ed.field_name@, "__domain_"@) {
        r == OverlayStep::Continue && domain_edit_done(st, b, ed.field_name@, ed.buffer@)
    } else {
        match ed.kind@ {
            FieldKindView::Float => b == st && (r matches OverlayStep::ParseFloat { field_name, buffer }
                && field_name@ == ed.field_name@ && buffer@ == ed.buffer@),
            FieldKindView::Integer => r == OverlayStep::Continue && match parse_i64(ed.buffer@) {
                Some(v) => proposal_set(st, b, ed.field_name@, DynValue::I64(v as i64)),
                None => b == st,
            },
            FieldKindView::Text => r == OverlayStep::Continue && proposal_set(st, b, ed.field_name@, DynValue::String(ed.buffer)),
            _ => r == OverlayStep::Continue && b == st,
        }
    }
}

/// `b` is `a` with the inline editor's text now `text`.
pub open spec fn inline_buffer_now(a: OverlayState, b: OverlayState, text: Seq<char>) -> bool {
    &&& a.inline_edit matches Some(ea) && b.inline_edit matches Some(eb) && eb.field_name == ea.field_name
        && eb.kind == ea.kind && eb.buffer@ == text
    &&& nav_same(a, b)
    &&& values_same(a, b)
    &&& b.enum_picker == a.enum_picker
    &&& b.scheme_picker == a.scheme_picker
    &&& b.domains == a.domains
    &&& b.dirty == a.dirty
}

impl OverlayState {
    /// A key press while the inline editor is open.
    pub fn handle_inline_edit_key(&mut self, press: KeyPress) -> (r: OverlayStep)
        requires
            old(self).inline_edit is Some,
        ensures
            ({
                let ed = old(self).inline_edit->Some_0;
                match press.key {
                    Key::Escape => r == OverlayStep::Continue && *final(self) == without_inline_edit(*old(self)),
                    Key::Enter => inline_edit_committed(*old(self), *final(self), ed, r),
                    Key::Backspace => r == OverlayStep::Continue && inline_buffer_now(
                        *old(self),
                        *final(self),
                        crate::port_forward::without_last(ed.buffer@),
                    ),
                    Key::Char(c) => r == OverlayStep::Continue && inline_buffer_now(*old(self), *final(self), ed.buffer@.push(c)),
                    _ => r == OverlayStep::Continue && *final(self) == *old(self),
                }
            }),
    {
        match press.key {
            Key::Escape => {
                self.inline_edit = None;
                OverlayStep::Continue
            },
            Key::Enter => {
                let ed = self.inline_edit.take().unwrap();
                let InlineEdit { field_name, buffer, kind } = ed;
                if str_eq(field_name.as_str(), NEW_DOMAIN_FIELD_NAME) {
                    self.finalize_add_domain(buffer);
                    return OverlayStep::Continue;
                }
                if crate::overlay_state::starts_with_exec(field_name.as_str(), "__domain_") {
                    self.apply_domain_field_edit(field_name.as_str(), buffer.as_str());
                    return OverlayStep::Continue;
                }
                match kind {
                    FieldKind::Float => OverlayStep::ParseFloat { field_name, buffer },
                    FieldKind::Integer => {
                        if let Some(i) = parse_i64_exec(buffer.as_str()) {
                            self.apply_edit_for_field(field_name.as_str(), DynValue::I64(i));
                        }
                        OverlayStep::Continue
                    },
                    FieldKind::Text => {
                        self.apply_edit_for_field(field_name.as_str(), DynValue::String(buffer));
                        OverlayStep::Continue
                    },
                    _ => OverlayStep::Continue,
                }
            },
            Key::Backspace => {
                let mut ed = self.inline_edit.take().unwrap();
                let _ = pop_char(&mut ed.buffer);
                self.inline_edit = Some(ed);
                OverlayStep::Continue
            },
            Key::Char(c) => {
                let mut ed = self.inline_edit.take().unwrap();
                push_char(&mut ed.buffer, c);
                self.inline_edit = Some(ed);
                OverlayStep::Continue
            },
            _ => OverlayStep::Continue,
        }
    }
}

/// `b` is `a` with the enum picker's selection moved to `sel`.
pub open spec fn enum_selection_now(a: OverlayState, b: OverlayState, sel: int) -> bool {
    &&& a.enum_picker matches Some(pa) && b.enum_picker matches Some(pb) && pb.field_name == pa.field_name
        && pb.variants == pa.variants && pb.selected == sel
    &&& nav_same(a, b)
    &&& values_same(a, b)
    &&& b.inline_edit == a.inline_edit
    &&& b.scheme_picker == a.scheme_picker
    &&& b.domains == a.domains
    &&& b.dirty == a.dirty
}

/// What choosing the selected variant does: the picker closes and the
/// variant is set on the domain field or proposed for the config field.
pub open spec fn enum_chosen(a: OverlayState, b: OverlayState, p: EnumPicker) -> bool {
    let st = without_enum_picker(a);
    let v = p.variants@[p.selected as int].0@;
    if starts_with(p.field_name@, "__domain_"@) {
        domain_edit_done(st, b, p.field_name@, v)
    } else {
        proposal_set_text(st, b, p.field_name@, v)
    }
}

/// `press` is `c` with exactly the modifiers `m`.
pub open spec fn is_char(press: KeyPress, c: char, m: Mods) -> bool {
    press.key == Key::Char(c) && press.mods == m
}

/// `b` is `a` with the scheme picker's selection moved to `sel`.
pub open spec fn scheme_selection_now(a: OverlayState, b: OverlayState, sel: int) -> bool {
    &&& a.scheme_picker matches Some(pa) && b.scheme_picker matches Some(pb) && pb.schemes == pa.schemes
        && pb.filtered == pa.filtered && pb.filter == pa.filter && pb.scroll_offset == pa.scroll_offset
        && pb.selected == sel
    &&& nav_same(a, b)
    &&& values_same(a, b)
    &&& b.inline_edit == a.inline_edit
    &&& b.enum_picker == a.enum_picker
    &&& b.domains == a.domains
    &&& b.dirty == a.dirty
}

/// `b` is `a` with the scheme picker's filter now `filter` and the list
/// filtered again, its first scheme selected.
pub open spec fn scheme_filter_now(a: OverlayState, b: OverlayState, filter: Seq<char>) -> bool {
    &&& a.scheme_picker matches Some(pa) && b.scheme_picker matches Some(pb) && pb.schemes == pa.schemes
        && pb.filter@ == filter && pb.filtered@ == matching_schemes(pa.schemes@, lowercase(filter), pa.schemes@.len() as int)
        && pb.selected == 0 && pb.scroll_offset == 0
    &&& nav_same(a, b)
    &&& values_same(a, b)
    &&& b.inline_edit == a.inline_edit
    &&& b.enum_picker == a.enum_picker
    &&& b.domains == a.domains
    &&& b.dirty == a.dirty
}

/// Every filtered index names a scheme.
pub open spec fn picker_well_formed(p: ColorSchemePicker) -> bool {
    forall|i: int| 0 <= i < p.filtered@.len() ==> (#[trigger] p.filtered@[i]) < p.schemes@.len()
}

impl OverlayState {
    /// A key press while the enum picker is open.
    pub fn handle_enum_picker_key(&mut self, press: KeyPress) -> (r: OverlayStep)
        requires
            old(self).enum_picker matches Some(p) && ((press.key == Key::Enter || press.key == Key::Char(' '))
                ==> p.selected < p.variants@.len()),
        ensures
            r == OverlayStep::Continue,
            ({
                let p = old(self).enum_picker->Some_0;
                if press.key == Key::Escape {
                    *final(self) == without_enum_picker(*old(self))
                } else if press.key == Key::Enter || press.key == Key::Char(' ') {
                    enum_chosen(*old(self), *final(self), p)
                } else if press.key == Key::UpArrow || is_char(press, 'k', Mods::Plain) {
                    enum_selection_now(*old(self), *final(self), if p.selected > 0 { p.selected - 1 } else { p.selected as int })
                } else if press.key == Key::DownArrow || is_char(press, 'j', Mods::Plain) {
                    enum_selection_now(*old(self), *final(self), if p.selected + 1 < p.variants@.len() { p.selected + 1 } else { p.selected as int })
                } else {
                    *final(self) == *old(self)
                }
            }),
    {
        let key = press.key;
        if key == Key::Escape {
            self.enum_picker = None;
            return OverlayStep::Continue;
        }
        if key == Key::Enter || key == Key::Char(' ') {
            let picker = self.enum_picker.take().unwrap();
            let variant = picker.variants[picker.selected].0.clone();
            if crate::overlay_state::starts_with_exec(picker.field_name.as_str(), "__domain_") {
                self.apply_domain_field_edit(picker.field_name.as_str(), variant.as_str());
            } else {
                let ghost st = *self;
                let value = DynValue::String(variant);
                let ghost gv = value;
                self.apply_edit_for_field(picker.field_name.as_str(), value);
                assert(proposal_set(st, *self, picker.field_name@, gv));
            }
            return OverlayStep::Continue;
        }
        let up = key == Key::UpArrow || (key == Key::Char('k') && press.mods == Mods::Plain);
        let down = key == Key::DownArrow || (key == Key::Char('j') && press.mods == Mods::Plain);
        if up || down {
            let mut picker = self.enum_picker.take().unwrap();
            if up {
                if picker.selected > 0 {
                    picker.selected = picker.selected - 1;
                }
            } else if picker.variants.len() > 0 && picker.selected < picker.variants.len() - 1 {
                picker.selected = picker.selected + 1;
            }
            self.enum_picker = Some(picker);
        }
        OverlayStep::Continue
    }

    /// A key press while the color scheme picker is open.
    pub fn handle_scheme_picker_key(&mut self, press: KeyPress) -> (r: OverlayStep)
        requires
            old(self).scheme_picker matches Some(p) && (press.key == Key::Enter ==> picker_well_formed(p)),
        ensures
            r == OverlayStep::Continue,
            ({
                let p = old(self).scheme_picker->Some_0;
                if press.key == Key::Escape {
                    *final(self) == without_scheme_picker(*old(self))
                } else if press.key == Key::Enter {
                    if p.selected < p.filtered@.len() {
                        proposal_set_text(
                            without_scheme_picker(*old(self)),
                            *final(self),
                            "color_scheme"@,
                            p.schemes@[p.filtered@[p.selected as int] as int]@,
                        )
                    } else {
                        *final(self) == *old(self)
                    }
                } else if press.key == Key::UpArrow || is_char(press, 'k', Mods::Ctrl) {
                    scheme_selection_now(*old(self), *final(self), if p.selected > 0 { p.selected - 1 } else { p.selected as int })
                } else if press.key == Key::DownArrow || is_char(press, 'j', Mods::Ctrl) {
                    scheme_selection_now(*old(self), *final(self), if p.selected + 1 < p.filtered@.len() { p.selected + 1 } else { p.selected as int })
                } else if press.key == Key::Backspace {
                    scheme_filter_now(*old(self), *final(self), crate::port_forward::without_last(p.filter@))
                } else if press.key is Char {
                    scheme_filter_now(*old(self), *final(self), p.filter@.push(press.key->Char_0))
                } else {
                    *final(self) == *old(self)
                }
            }),
    {
        let key = press.key;
        if key == Key::Escape {
            self.scheme_picker = None;
            return OverlayStep::Continue;
        }
        if key == Key::Enter {
            let ok = match &self.scheme_picker {
                Some(p) => p.selected < p.filtered.len(),
                None => false,
            };
            if ok {
                let picker = self.scheme_picker.take().unwrap();
                let name = picker.schemes[picker.filtered[picker.selected]].clone();
                let ghost st = *self;
                let value = DynValue::String(name);
                let ghost gv = value;
                self.apply_edit_for_field("color_scheme", value);
                assert(proposal_set(st, *self, "color_scheme"@, gv));
            }
            return OverlayStep::Continue;
        }
        let up = key == Key::UpArrow || (key == Key::Char('k') && press.mods == Mods::Ctrl);
        let down = key == Key::DownArrow || (key == Key::Char('j') && press.mods == Mods::Ctrl);
        if up || down {
            let mut picker = self.scheme_picker.take().unwrap();
            if up {
                if picker.selected > 0 {
                    picker.selected = picker.selected - 1;
                }
            } else if picker.filtered.len() > 0 && picker.selected < picker.filtered.len() - 1 {
                picker.selected = picker.selected + 1;
            }
            self.scheme_picker = Some(picker);
            return OverlayStep::Continue;
        }
        if key == Key::Backspace {
            let mut picker = self.scheme_picker.take().unwrap();
            let _ = pop_char(&mut picker.filter);
            picker.refilter();
            self.scheme_picker = Some(picker);
            return OverlayStep::Continue;
        }
        if let Key::Char(c) = key {
            let mut picker = self.scheme_picker.take().unwrap();
            push_char(&mut picker.filter, c);
            picker.refilter();
            self.scheme_picker = Some(picker);
        }
        OverlayStep::Continue
    }

    /// A key press while the settings filter is being typed.
    pub fn handle_filter_key(&mut self, press: KeyPress) -> (r: OverlayStep)
        ensures
            r == OverlayStep::Continue,
            values_same(*old(self), *final(self)),
            popups_same(*old(self), *final(self)),
            final(self).domains == old(self).domains,
            final(self).dirty == old(self).dirty,
            final(self).active_panel == old(self).active_panel,
            final(self).sections == old(self).sections,
            final(self).selected_section == old(self).selected_section,
            final(self).settings_scroll_offset == old(self).settings_scroll_offset,
            match press.key {
                Key::Escape => if old(self).filter@.len() == 0 {
                    !final(self).filter_active && final(self).filter == old(self).filter
                        && final(self).selected_setting == old(self).selected_setting
                } else {
                    final(self).filter_active == old(self).filter_active && final(self).filter@.len() == 0
                        && final(self).selected_setting == 0
                },
                Key::Enter => !final(self).filter_active && final(self).filter == old(self).filter
                    && final(self).selected_setting == old(self).selected_setting,
                Key::Backspace => final(self).filter_active == old(self).filter_active
                    && final(self).filter@ == crate::port_forward::without_last(old(self).filter@)
                    && final(self).selected_setting == 0,
                Key::Char(c) => final(self).filter_active == old(self).filter_active
                    && final(self).filter@ == old(self).filter@.push(c) && final(self).selected_setting == 0,
                _ => *final(self) == *old(self),
            },
    {
        match press.key {
            Key::Escape => {
                if self.filter.as_str().is_empty() {
                    self.filter_active = false;
                } else {
                    self.filter = String::new();
                    self.selected_setting = 0;
                }
            },
            Key::Enter => {
                self.filter_active = false;
            },
            Key::Backspace => {
                let _ = pop_char(&mut self.filter);
                self.selected_setting = 0;
            },
            Key::Char(c) => {
                push_char(&mut self.filter, c);
                self.selected_setting = 0;
            },
            _ => {},
        }
        OverlayStep::Continue
    }
}

/// What Space does to `row`: a domain field toggles (a boolean, in any
/// domain) or opens its picker (an enum); a domain header folds or unfolds;
/// an editable boolean toggles, an editable enum steps to its next variant,
/// and an editable color scheme opens the scheme picker.
pub open spec fn row_spaced(a: OverlayState, b: OverlayState, row: SettingRowView, r: OverlayStep) -> bool {
    match row.domain_child {
        Some(idx) => r == OverlayStep::Continue && match spec_extract_domain_field_key(row.field_name) {
            Some(key) => match row.kind {
                FieldKindView::Bool => if idx < a.domains.entries@.len() {
                    domain_field_set(
                        a,
                        b,
                        idx as int,
                        key,
                        toggled_text(spec_domain_field_value(a.domains.entries@[idx as int].config@, key)),
                    )
                } else {
                    b == a
                },
                FieldKindView::Enum(_) => domain_enter_done(a, b, row),
                _ => b == a,
            },
            None => b == a,
        },
        None => if row.domain_header is Some {
            r == OverlayStep::Continue && domain_enter_done(a, b, row)
        } else if row.status != crate::config_overlay::FieldStatus::FixedByLua {
            match row.kind {
                FieldKindView::Bool => r == OverlayStep::Continue && proposal_set(
                    a,
                    b,
                    row.field_name,
                    toggled_value(current_value_of(a, row.field_name)),
                ),
                FieldKindView::Enum(_) => r == OverlayStep::Continue && match cycled_variant(a, row.field_name, 1) {
                    Some(v) => proposal_set_text(a, b, row.field_name, v),
                    None => b == a,
                },
                FieldKindView::ColorScheme => r == OverlayStep::OpenSchemePicker && b == a,
                _ => r == OverlayStep::Continue && b == a,
            }
        } else {
            r == OverlayStep::Continue && b == a
        },
    }
}

/// What Left (`direction` -1) or Right (1) does to `row`: an editable enum
/// steps to its previous or next variant.
pub open spec fn row_stepped(a: OverlayState, b: OverlayState, row: SettingRowView, direction: int) -> bool {
    if row.status != crate::config_overlay::FieldStatus::FixedByLua && row.kind is Enum {
        match cycled_variant(a, row.field_name, direction) {
            Some(v) => proposal_set_text(a, b, row.field_name, v),
            None => b == a,
        }
    } else {
        b == a
    }
}

/// The selected row, when the Settings panel has focus and the selection
/// is within the rows shown.
pub open spec fn focused_row(st: OverlayState) -> Option<SettingRowView> {
    if st.active_panel == Panel::Settings && st.selected_setting < visible_count(st) {
        Some(spec_visible_settings(st)[st.selected_setting as int])
    } else {
        None
    }
}

/// `b` is `a` with the selection moved to section `sec`, its first row
/// selected and scrolled to the top.
pub open spec fn section_selected(a: OverlayState, b: OverlayState, sec: int) -> bool {
    b == OverlayState { selected_section: sec as usize, selected_setting: 0, settings_scroll_offset: 0, ..a }
}

impl OverlayState {
    /// Space on `row`.
    pub fn space_on_row(&mut self, row: &SettingRow) -> (r: OverlayStep)
        requires
            row.domain_header matches Some(h) ==> h.domain_index < old(self).domains.entries@.len(),
        ensures
            row_spaced(*old(self), *final(self), row@, r),
    {
        if let Some(domain_idx) = row.domain_child {
            if let Some(field_key) = extract_domain_field_key(row.field_name.as_str()) {
                match &row.kind {
                    FieldKind::Bool => {
                        self.toggle_domain_bool(domain_idx, field_key.as_str());
                    },
                    FieldKind::Enum(_) => {
                        self.handle_domain_enter(row);
                    },
                    _ => {},
                }
            }
            return OverlayStep::Continue;
        }
        if row.domain_header.is_some() {
            self.handle_domain_enter(row);
            return OverlayStep::Continue;
        }
        if OverlayState::is_row_editable(row) {
            match &row.kind {
                FieldKind::Bool => {
                    self.toggle_bool(row.field_name.as_str());
                },
                FieldKind::Enum(_) => {
                    self.cycle_enum(row.field_name.as_str(), 1);
                },
                FieldKind::ColorScheme => {
                    return OverlayStep::OpenSchemePicker;
                },
                _ => {},
            }
        }
        OverlayStep::Continue
    }

    /// Left or Right on `row`.
    pub fn step_row(&mut self, row: &SettingRow, direction: isize)
        ensures
            row_stepped(*old(self), *final(self), row@, direction as int),
    {
        if OverlayState::is_row_editable(row) {
            if let FieldKind::Enum(_) = &row.kind {
                self.cycle_enum(row.field_name.as_str(), direction);
            }
        }
    }

    /// The selected row when the Settings panel has focus.
    fn focused_row_exec(&self) -> (r: Option<SettingRow>)
        requires
            self.selected_section < self.sections@.len(),
        ensures
            match r {
                Some(row) => focused_row(*self) == Some(row@),
                None => focused_row(*self) is None,
            },
    {
        if self.active_panel == Panel::Settings {
            self.selected_row()
        } else {
            None
        }
    }
}

/// What a key press does in the overlay's normal mode.
pub open spec fn normal_key_done(a: OverlayState, b: OverlayState, press: KeyPress, r: OverlayStep) -> bool {
    let key = press.key;
    let plain = press.mods == Mods::Plain;
    if key == Key::Escape {
        r == OverlayStep::Close && b == a
    } else if key == Key::Char('/') {
        r == OverlayStep::Continue && b.filter_active && b.filter@.len() == 0 && b == OverlayState {
            filter_active: true,
            filter: b.filter,
            ..a
        }
    } else if key == Key::UpArrow || (key == Key::Char('k') && plain) {
        r == OverlayStep::Continue && if a.active_panel == Panel::Sections {
            if a.selected_section > 0 { section_selected(a, b, a.selected_section - 1) } else { b == a }
        } else {
            b == OverlayState { selected_setting: if a.selected_setting > 0 { (a.selected_setting - 1) as usize } else { a.selected_setting }, ..a }
        }
    } else if key == Key::DownArrow || (key == Key::Char('j') && plain) {
        r == OverlayStep::Continue && if a.active_panel == Panel::Sections {
            if a.selected_section + 1 < a.sections@.len() { section_selected(a, b, a.selected_section + 1) } else { b == a }
        } else {
            b == OverlayState { selected_setting: if a.selected_setting + 1 < visible_count(a) { (a.selected_setting + 1) as usize } else { a.selected_setting }, ..a }
        }
    } else if key == Key::Tab {
        r == OverlayStep::Continue && b == OverlayState {
            active_panel: if a.active_panel == Panel::Sections { Panel::Settings } else { Panel::Sections },
            ..a
        }
    } else if key == Key::Enter {
        if a.active_panel == Panel::Sections {
            r == OverlayStep::Continue && b == OverlayState { active_panel: Panel::Settings, selected_setting: 0, settings_scroll_offset: 0, ..a }
        } else {
            match focused_row(a) {
                Some(row) => row_activated(a, b, row, r),
                None => r == OverlayStep::Continue && b == a,
            }
        }
    } else if key == Key::Char(' ') && plain {
        match focused_row(a) {
            Some(row) => row_spaced(a, b, row, r),
            None => r == OverlayStep::Continue && b == a,
        }
    } else if key == Key::LeftArrow || key == Key::RightArrow {
        r == OverlayStep::Continue && match focused_row(a) {
            Some(row) => row_stepped(a, b, row, if key == Key::LeftArrow { -1 } else { 1 }),
            None => b == a,
        }
    } else if key == Key::Char('p') && press.mods == Mods::Shift {
        b == a && r == if a.proposals@.len() > 0 { OverlayStep::Preview } else { OverlayStep::Continue }
    } else if key == Key::Char('s') && press.mods == Mods::Shift {
        b == a && r == if a.dirty { OverlayStep::Save } else { OverlayStep::Continue }
    } else if key == Key::Char('r') && press.mods == Mods::Shift {
        r == OverlayStep::Continue && match focused_row(a) {
            Some(row) => crate::overlay_state::map_removed(a.proposals@, b.proposals@, row.field_name)
                && b == OverlayState { proposals: b.proposals, dirty: true, ..a },
            None => b == a,
        }
    } else {
        r == OverlayStep::Continue && b == a
    }
}

impl OverlayState {
    /// A key press in the overlay's normal mode (no popup, no filter being
    /// typed).
    pub fn handle_normal_key(&mut self, press: KeyPress) -> (r: OverlayStep)
        requires
            old(self).selected_section < old(self).sections@.len(),
        ensures
            normal_key_done(*old(self), *final(self), press, r),
    {
        let key = press.key;
        let plain = press.mods == Mods::Plain;
        if key == Key::Escape {
            return OverlayStep::Close;
        }
        if key == Key::Char('/') {
            self.filter_active = true;
            self.filter = String::new();
            return OverlayStep::Continue;
        }
        if key == Key::UpArrow || (key == Key::Char('k') && plain) {
            if self.active_panel == Panel::Sections {
                if self.selected_section > 0 {
                    self.selected_section = self.selected_section - 1;
                    self.selected_setting = 0;
                    self.settings_scroll_offset = 0;
                }
            } else if self.selected_setting > 0 {
                self.selected_setting = self.selected_setting - 1;
            }
            return OverlayStep::Continue;
        }
        if key == Key::DownArrow || (key == Key::Char('j') && plain) {
            if self.active_panel == Panel::Sections {
                if self.selected_section < self.sections.len() - 1 {
                    self.selected_section = self.selected_section + 1;
                    self.selected_setting = 0;
                    self.settings_scroll_offset = 0;
                }
            } else {
                let count = self.visible_settings().len();
                if count > 0 && self.selected_setting < count - 1 {
                    self.selected_setting = self.selected_setting + 1;
                }
            }
            return OverlayStep::Continue;
        }
        if key == Key::Tab {
            self.active_panel = match self.active_panel {
                Panel::Sections => Panel::Settings,
                Panel::Settings => Panel::Sections,
            };
            return OverlayStep::Continue;
        }
        if key == Key::Enter {
            if self.active_panel == Panel::Sections {
                self.active_panel = Panel::Settings;
                self.selected_setting = 0;
                self.settings_scroll_offset = 0;
                return OverlayStep::Continue;
            }
            proof {
                lemma_visible_headers(*self);
            }
            return match self.focused_row_exec() {
                Some(row) => self.activate_row(&row),
                None => OverlayStep::Continue,
            };
        }
        if key == Key::Char(' ') && plain {
            proof {
                lemma_visible_headers(*self);
            }
            return match self.focused_row_exec() {
                Some(row) => self.space_on_row(&row),
                None => OverlayStep::Continue,
            };
        }
        if key == Key::LeftArrow || key == Key::RightArrow {
            if let Some(row) = self.focused_row_exec() {
                let direction: isize = if key == Key::LeftArrow { -1 } else { 1 };
                self.step_row(&row, direction);
            }
            return OverlayStep::Continue;
        }
        if key == Key::Char('p') && press.mods == Mods::Shift {
            return if self.proposals.len() > 0 { OverlayStep::Preview } else { OverlayStep::Continue };
        }
        if key == Key::Char('s') && press.mods == Mods::Shift {
            return if self.dirty { OverlayStep::Save } else { OverlayStep::Continue };
        }
        if key == Key::Char('r') && press.mods == Mods::Shift {
            if let Some(row) = self.focused_row_exec() {
                self.remove_proposal(row.field_name.as_str());
            }
            return OverlayStep::Continue;
        }
        OverlayStep::Continue
    }
}

/// The overlay's screen layout for a `w` × `h` terminal: (body top, body
/// bottom, sections column left, sections column right, settings column
/// left), the body spanning rows `[top, bottom)`.
pub open spec fn click_layout(w: int, h: int) -> (int, int, int, int, int) {
    let ow0 = if w <= 100 { w } else { 100 };
    let ow1 = if ow0 >= w * 9 / 10 { ow0 } else { w * 9 / 10 };
    let ow = if ow1 <= w { ow1 } else { w };
    let oh0 = if h <= 35 { h } else { 35 };
    let oh1 = if oh0 >= h * 9 / 10 { oh0 } else { h * 9 / 10 };
    let oh = if oh1 <= h { oh1 } else { h };
    let lp = (w - ow) / 2;
    let tp = (h - oh) / 2;
    let body_top = tp + 2;
    let body_bottom = tp + if oh >= 7 { oh - 7 } else { 0 };
    let sec_left = lp + 1;
    let sec_right = sec_left + 19;
    (body_top, body_bottom, sec_left, sec_right, sec_right + 1)
}

/// What a left click at (`x`, `y`) does: on the sections column it selects
/// that section; on the settings column it selects that row, and a click
/// on the row already selected acts as Enter.
pub open spec fn click_done(a: OverlayState, b: OverlayState, x: int, y: int, w: int, h: int, r: OverlayStep) -> bool {
    let (top, bottom, sl, sr, setl) = click_layout(w, h);
    if top <= y < bottom {
        let row = y - top;
        if sl <= x < sr {
            r == OverlayStep::Continue && if row < a.sections@.len() {
                b == OverlayState {
                    selected_section: row as usize,
                    selected_setting: 0,
                    settings_scroll_offset: 0,
                    active_panel: Panel::Sections,
                    ..a
                }
            } else {
                b == a
            }
        } else if x >= setl {
            let idx = row + a.settings_scroll_offset;
            if idx < visible_count(a) {
                let was = idx == a.selected_setting && a.active_panel == Panel::Settings;
                let moved = OverlayState { selected_setting: idx as usize, active_panel: Panel::Settings, ..a };
                if was {
                    row_activated(moved, b, spec_visible_settings(moved)[idx], r)
                } else {
                    r == OverlayStep::Continue && b == moved
                }
            } else {
                r == OverlayStep::Continue && b == a
            }
        } else {
            r == OverlayStep::Continue && b == a
        }
    } else {
        r == OverlayStep::Continue && b == a
    }
}

impl OverlayState {
    /// A left click at (`x`, `y`) in a `width` × `height` terminal.
    #[verifier::spinoff_prover]
    pub fn handle_click(&mut self, x: u16, y: u16, width: u16, height: u16) -> (r: OverlayStep)
        requires
            old(self).selected_section < old(self).sections@.len(),
            width as int * 9 <= u16::MAX,
            height as int * 9 <= u16::MAX,
            old(self).settings_scroll_offset + 0x10000 <= usize::MAX,
        ensures
            click_done(*old(self), *final(self), x as int, y as int, width as int, height as int, r),
    {
        let ow0 = if width <= 100 { width } else { 100 };
        let ow1 = if ow0 >= width * 9 / 10 { ow0 } else { width * 9 / 10 };
        let ow = if ow1 <= width { ow1 } else { width };
        let oh0 = if height <= 35 { height } else { 35 };
        let oh1 = if oh0 >= height * 9 / 10 { oh0 } else { height * 9 / 10 };
        let oh = if oh1 <= height { oh1 } else { height };
        let lp = (width - ow) / 2;
        let tp = (height - oh) / 2;
        let body_y_start = tp + 2;
        let body_y_end = tp + if oh >= 7 { oh - 7 } else { 0 };
        let sec_x_start = lp + 1;
        let sec_x_end = sec_x_start + 19;
        let set_x_start = sec_x_end + 1;
        if y >= body_y_start && y < body_y_end {
            let row = (y - body_y_start) as usize;
            if x >= sec_x_start && x < sec_x_end {
                if row < self.sections.len() {
                    self.selected_section = row;
                    self.selected_setting = 0;
                    self.settings_scroll_offset = 0;
                    self.active_panel = Panel::Sections;
                }
            } else if x >= set_x_start {
                let idx = row + self.settings_scroll_offset;
                let count = self.visible_settings().len();
                if idx < count {
                    let was_selected = idx == self.selected_setting && self.active_panel == Panel::Settings;
                    self.selected_setting = idx;
                    self.active_panel = Panel::Settings;
                    if was_selected {
                        proof {
                            lemma_visible_headers(*self);
                        }
                        let sr = self.selected_row();
                        if let Some(sr) = sr {
                            return self.activate_row(&sr);
                        }
                    }
                }
            }
        }
        OverlayStep::Continue
    }
}

/// The state `step` needs: a selected section that exists, and popups whose
/// choices are in range.
pub open spec fn step_ready(st: OverlayState, input: OverlayInput) -> bool {
    &&& st.selected_section < st.sections@.len()
    &&& match input {
        OverlayInput::Key(press) => {
            &&& (st.inline_edit is None && (press.key == Key::Enter || press.key == Key::Char(' '))
                && st.enum_picker is Some) ==> st.enum_picker->Some_0.selected < st.enum_picker->Some_0.variants@.len()
            &&& (st.inline_edit is None && st.enum_picker is None && press.key == Key::Enter
                && st.scheme_picker is Some) ==> picker_well_formed(st.scheme_picker->Some_0)
        },
        OverlayInput::LeftClick { width, height, .. } => {
            &&& width as int * 9 <= u16::MAX
            &&& height as int * 9 <= u16::MAX
            &&& st.settings_scroll_offset + 0x10000 <= usize::MAX
        },
        _ => true,
    }
}

/// What one input does to the overlay: keys go to the inline editor, the
/// enum picker, the scheme picker or the filter, whichever is open (in
/// that order), else to the normal mode; clicks and resizes count in the
/// normal mode only.
pub open spec fn step_done(a: OverlayState, b: OverlayState, input: OverlayInput, r: OverlayStep) -> bool {
    match input {
        OverlayInput::Key(press) => if a.inline_edit is Some {
            let ed = a.inline_edit->Some_0;
            match press.key {
                Key::Escape => r == OverlayStep::Continue && b == without_inline_edit(a),
                Key::Enter => inline_edit_committed(a, b, ed, r),
                Key::Backspace => r == OverlayStep::Continue && inline_buffer_now(a, b, crate::port_forward::without_last(ed.buffer@)),
                Key::Char(c) => r == OverlayStep::Continue && inline_buffer_now(a, b, ed.buffer@.push(c)),
                _ => r == OverlayStep::Continue && b == a,
            }
        } else if a.enum_picker is Some {
            let p = a.enum_picker->Some_0;
            r == OverlayStep::Continue && if press.key == Key::Escape {
                b == without_enum_picker(a)
            } else if press.key == Key::Enter || press.key == Key::Char(' ') {
                enum_chosen(a, b, p)
            } else if press.key == Key::UpArrow || is_char(press, 'k', Mods::Plain) {
                enum_selection_now(a, b, if p.selected > 0 { p.selected - 1 } else { p.selected as int })
            } else if press.key == Key::DownArrow || is_char(press, 'j', Mods::Plain) {
                enum_selection_now(a, b, if p.selected + 1 < p.variants@.len() { p.selected + 1 } else { p.selected as int })
            } else {
                b == a
            }
        } else if a.scheme_picker is Some {
            let p = a.scheme_picker->Some_0;
            r == OverlayStep::Continue && if press.key == Key::Escape {
                b == without_scheme_picker(a)
            } else if press.key == Key::Enter {
                if p.selected < p.filtered@.len() {
                    proposal_set_text(without_scheme_picker(a), b, "color_scheme"@, p.schemes@[p.filtered@[p.selected as int] as int]@)
                } else {
                    b == a
                }
            } else if press.key == Key::UpArrow || is_char(press, 'k', Mods::Ctrl) {
                scheme_selection_now(a, b, if p.selected > 0 { p.selected - 1 } else { p.selected as int })
            } else if press.key == Key::DownArrow || is_char(press, 'j', Mods::Ctrl) {
                scheme_selection_now(a, b, if p.selected + 1 < p.filtered@.len() { p.selected + 1 } else { p.selected as int })
            } else if press.key == Key::Backspace {
                scheme_filter_now(a, b, crate::port_forward::without_last(p.filter@))
            } else if press.key is Char {
                scheme_filter_now(a, b, p.filter@.push(press.key->Char_0))
            } else {
                b == a
            }
        } else if a.filter_active {
            r == OverlayStep::Continue && filter_key_done(a, b, press)
        } else {
            normal_key_done(a, b, press, r)
        },
        OverlayInput::LeftClick { x, y, width, height } => if a.inline_edit is None && a.enum_picker is None
            && a.scheme_picker is None && !a.filter_active {
            click_done(a, b, x as int, y as int, width as int, height as int, r)
        } else {
            r == OverlayStep::Continue && b == a
        },
        OverlayInput::Resized => b == a && r == if a.inline_edit is None && a.enum_picker is None
            && a.scheme_picker is None && !a.filter_active {
            OverlayStep::Resized
        } else {
            OverlayStep::Continue
        },
        OverlayInput::Other => r == OverlayStep::Continue && b == a,
    }
}

/// What a key press does while the settings filter is being typed.
pub open spec fn filter_key_done(a: OverlayState, b: OverlayState, press: KeyPress) -> bool {
    &&& values_same(a, b)
    &&& popups_same(a, b)
    &&& b.domains == a.domains
    &&& b.dirty == a.dirty
    &&& b.active_panel == a.active_panel
    &&& b.sections == a.sections
    &&& b.selected_section == a.selected_section
    &&& b.settings_scroll_offset == a.settings_scroll_offset
    &&& match press.key {
        Key::Escape => if a.filter@.len() == 0 {
            !b.filter_active && b.filter == a.filter && b.selected_setting == a.selected_setting
        } else {
            b.filter_active == a.filter_active && b.filter@.len() == 0 && b.selected_setting == 0
        },
        Key::Enter => !b.filter_active && b.filter == a.filter && b.selected_setting == a.selected_setting,
        Key::Backspace => b.filter_active == a.filter_active && b.filter@ == crate::port_forward::without_last(a.filter@)
            && b.selected_setting == 0,
        Key::Char(c) => b.filter_active == a.filter_active && b.filter@ == a.filter@.push(c) && b.selected_setting == 0,
        _ => b == a,
    }
}

impl OverlayState {
    /// Apply one input to the overlay and say what the event loop does next.
    pub fn step(&mut self, input: OverlayInput) -> (r: OverlayStep)
        requires
            step_ready(*old(self), input),
        ensures
            step_done(*old(self), *final(self), input, r),
    {
        let popup = self.inline_edit.is_some() || self.enum_picker.is_some() || self.scheme_picker.is_some()
            || self.filter_active;
        match input {
            OverlayInput::Key(press) => {
                if self.inline_edit.is_some() {
                    self.handle_inline_edit_key(press)
                } else if self.enum_picker.is_some() {
                    self.handle_enum_picker_key(press)
                } else if self.scheme_picker.is_some() {
                    self.handle_scheme_picker_key(press)
                } else if self.filter_active {
                    self.handle_filter_key(press)
                } else {
                    self.handle_normal_key(press)
                }
            },
            OverlayInput::LeftClick { x, y, width, height } => {
                if popup {
                    OverlayStep::Continue
                } else {
                    self.handle_click(x, y, width, height)
                }
            },
            OverlayInput::Resized => if popup { OverlayStep::Continue } else { OverlayStep::Resized },
            OverlayInput::Other => OverlayStep::Continue,
        }
    }
}


/// How the overlay ends.
#[derive(Debug)]
pub enum ConfigOverlayAction {
    /// Closed without saving.
    Close,
    /// Save the proposals and the overlay's domains.
    Save { proposals: ValueMap, ssh_domains: Vec<SshDomainConfig> },
    /// Apply the proposals as window overrides.
    Preview(ValueMap),
}

fn copy_values(m: &ValueMap) -> (r: ValueMap)
    ensures
        r@ == m@,
{
    let mut out: ValueMap = Vec::new();
    for k in 0..m.len()
        invariant
            out@ == m@.take(k as int),
    {
        let (key, value) = &m[k];
        out.push((key.clone(), value.clone()));
        assert(out@ =~= m@.take(k + 1));
    }
    assert(m@.take(m@.len() as int) =~= m@);
    out
}

impl OverlayState {
    /// The action that ends the overlay after `step`, or `None` while it
    /// goes on: saving hands back the proposals and the overlay-managed
    /// domains, previewing the proposals.
    pub fn finish(&self, step: &OverlayStep) -> (r: Option<ConfigOverlayAction>)
        ensures
            match *step {
                OverlayStep::Close => r matches Some(ConfigOverlayAction::Close),
                OverlayStep::Save => r matches Some(ConfigOverlayAction::Save { proposals, ssh_domains })
                    && proposals@ == self.proposals@
                    && ssh_domains@.map_values(|c: SshDomainConfig| c@) == overlay_configs(self.domains.entries@),
                OverlayStep::Preview => r matches Some(ConfigOverlayAction::Preview(proposals))
                    && proposals@ == self.proposals@,
                _ => r is None,
            },
    {
        match step {
            OverlayStep::Close => Some(ConfigOverlayAction::Close),
            OverlayStep::Save => Some(ConfigOverlayAction::Save {
                proposals: copy_values(&self.proposals),
                ssh_domains: self.overlay_domains(),
            }),
            OverlayStep::Preview => Some(ConfigOverlayAction::Preview(copy_values(&self.proposals))),
            _ => None,
        }
    }
}


/// `b` keeps the domain names of `a` distinct, if they were.
pub open spec fn domain_names_kept(a: OverlayState, b: OverlayState) -> bool {
    names_unique(a.domains.entries@) ==> names_unique(b.domains.entries@)
}

proof fn lemma_field_set_keeps_names(a: OverlayState, b: OverlayState, idx: int, key: Seq<char>, v: Seq<char>)
    requires
        idx < a.domains.entries@.len(),
        domain_field_set(a, b, idx, key, v),
    ensures
        domain_names_kept(a, b),
{
    let ea = a.domains.entries@;
    let eb = b.domains.entries@;
    assert forall|j: int| 0 <= j < eb.len() implies (#[trigger] eb[j]).config.name@ == ea[j].config.name@ by {
        if j != idx {
            assert(eb[j] == ea[j]);
        } else {
            assert(eb[idx].config.name@ == ea[idx].config.name@);
        }
    }
    if names_unique(ea) {
        assert forall|i: int, j: int| 0 <= i < j < eb.len() implies (#[trigger] eb[i]).config.name@
            != (#[trigger] eb[j]).config.name@ by {
            assert(eb[i].config.name@ == ea[i].config.name@);
            assert(eb[j].config.name@ == ea[j].config.name@);
            assert(ea[i].config.name@ != ea[j].config.name@);
        }
    }
}

proof fn lemma_edit_done_keeps_names(a: OverlayState, b: OverlayState, f: Seq<char>, v: Seq<char>)
    requires
        domain_edit_done(a, b, f, v),
    ensures
        domain_names_kept(a, b),
{
    match crate::overlay_state::domain_edit_target(a, f) {
        Some((idx, key)) => lemma_field_set_keeps_names(a, b, idx, key, v),
        None => {},
    }
}

proof fn lemma_finalized_keeps_names(a: OverlayState, b: OverlayState, name: Seq<char>)
    requires
        domain_finalized(a, b, name),
    ensures
        domain_names_kept(a, b),
{
    if !(name.len() == 0 || crate::config_overlay::has_domain_named(a.domains.entries@, name)) {
        if names_unique(a.domains.entries@) {
            crate::overlay_state::lemma_finalize_add_keeps_names_unique(a, b, name);
        }
    }
}

proof fn lemma_enter_keeps_names(a: OverlayState, b: OverlayState, row: SettingRowView)
    requires
        domain_enter_done(a, b, row),
        row.domain_header matches Some(h) ==> h.domain_index < a.domains.entries@.len(),
    ensures
        domain_names_kept(a, b),
{
    let ea = a.domains.entries@;
    let eb = b.domains.entries@;
    if row.domain_header is Some {
        let idx = row.domain_header->0.domain_index as int;
        assert forall|j: int| 0 <= j < eb.len() implies (#[trigger] eb[j]).config.name@ == ea[j].config.name@ by {}
        if names_unique(ea) {
            assert forall|i: int, j: int| 0 <= i < j < eb.len() implies (#[trigger] eb[i]).config.name@
                != (#[trigger] eb[j]).config.name@ by {
                assert(eb[i].config.name@ == ea[i].config.name@);
                assert(eb[j].config.name@ == ea[j].config.name@);
                assert(ea[i].config.name@ != ea[j].config.name@);
            }
        }
    } else if row.field_name == ADD_DOMAIN_FIELD_NAME@ {
    } else if starts_with(row.field_name, DELETE_DOMAIN_FIELD_NAME@) {
        match row.domain_child {
            Some(i) if i < ea.len() && ea[i as int].source == DomainSource::Overlay => {
                if names_unique(ea) {
                    assert forall|x: int, y: int| 0 <= x < y < eb.len() implies (#[trigger] eb[x]).config.name@
                        != (#[trigger] eb[y]).config.name@ by {
                        let x0 = if x < i { x } else { x + 1 };
                        let y0 = if y < i { y } else { y + 1 };
                        assert(eb[x] == ea[x0]);
                        assert(eb[y] == ea[y0]);
                        assert(ea[x0].config.name@ != ea[y0].config.name@);
                    }
                }
            },
            _ => {},
        }
    } else {
        match (row.domain_child, spec_extract_domain_field_key(row.field_name)) {
            (Some(i), Some(key)) if i < ea.len() && ea[i as int].source == DomainSource::Overlay => {
                match row.kind {
                    FieldKindView::Bool => lemma_field_set_keeps_names(
                        a,
                        b,
                        i as int,
                        key,
                        toggled_text(spec_domain_field_value(ea[i as int].config@, key)),
                    ),
                    _ => {},
                }
            },
            _ => {},
        }
    }
}

proof fn lemma_proposal_text_keeps_names(a: OverlayState, b: OverlayState, f: Seq<char>, t: Seq<char>)
    requires
        proposal_set_text(a, b, f, t),
    ensures
        b.domains == a.domains,
{
    let v = choose|v: DynValue| #[trigger] proposal_set(a, b, f, v) && (v matches DynValue::String(x) && x@ == t);
}

proof fn lemma_activated_keeps_names(a: OverlayState, b: OverlayState, row: SettingRowView, r: OverlayStep)
    requires
        row_activated(a, b, row, r),
        row.domain_header matches Some(h) ==> h.domain_index < a.domains.entries@.len(),
    ensures
        domain_names_kept(a, b),
{
    if is_domain_row(row) {
        lemma_enter_keeps_names(a, b, row);
    }
}

proof fn lemma_spaced_keeps_names(a: OverlayState, b: OverlayState, row: SettingRowView, r: OverlayStep)
    requires
        row_spaced(a, b, row, r),
        row.domain_header matches Some(h) ==> h.domain_index < a.domains.entries@.len(),
    ensures
        domain_names_kept(a, b),
{
    match row.domain_child {
        Some(idx) => match spec_extract_domain_field_key(row.field_name) {
            Some(key) => match row.kind {
                FieldKindView::Bool => if idx < a.domains.entries@.len() {
                    lemma_field_set_keeps_names(
                        a,
                        b,
                        idx as int,
                        key,
                        toggled_text(spec_domain_field_value(a.domains.entries@[idx as int].config@, key)),
                    );
                },
                FieldKindView::Enum(_) => lemma_enter_keeps_names(a, b, row),
                _ => {},
            },
            None => {},
        },
        None => if row.domain_header is Some {
            lemma_enter_keeps_names(a, b, row);
        } else if row.status != crate::config_overlay::FieldStatus::FixedByLua {
            match row.kind {
                FieldKindView::Enum(_) => match cycled_variant(a, row.field_name, 1) {
                    Some(v) => lemma_proposal_text_keeps_names(a, b, row.field_name, v),
                    None => {},
                },
                _ => {},
            }
        },
    }
}

proof fn lemma_stepped_keeps_names(a: OverlayState, b: OverlayState, row: SettingRowView, d: int)
    requires
        row_stepped(a, b, row, d),
    ensures
        domain_names_kept(a, b),
{
    if row.status != crate::config_overlay::FieldStatus::FixedByLua && row.kind is Enum {
        match cycled_variant(a, row.field_name, d) {
            Some(v) => lemma_proposal_text_keeps_names(a, b, row.field_name, v),
            None => {},
        }
    }
}

proof fn lemma_focused_row_header(a: OverlayState)
    requires
        a.selected_section < a.sections@.len(),
    ensures
        focused_row(a) matches Some(row) ==> (row.domain_header matches Some(h) ==> h.domain_index
            < a.domains.entries@.len()),
{
    lemma_visible_headers(a);
    if focused_row(a) is Some {
        let k = a.selected_setting as int;
        assert(spec_visible_settings(a)[k].domain_header matches Some(h) ==> h.domain_index < a.domains.entries@.len());
    }
}

/// No input makes two domains share a name: when the overlay's domain
/// names are distinct before a step, they are after it (adding a domain
/// under a name that is taken is refused, and no edit renames a domain),
/// so what Save hands back never holds two domains of one name.
pub proof fn lemma_step_keeps_domain_names_unique(a: OverlayState, b: OverlayState, input: OverlayInput, r: OverlayStep)
    requires
        step_ready(a, input),
        step_done(a, b, input, r),
        names_unique(a.domains.entries@),
    ensures
        names_unique(b.domains.entries@),
{
    lemma_focused_row_header(a);
    match input {
        OverlayInput::Key(press) => if a.inline_edit is Some {
            let ed = a.inline_edit->Some_0;
            if press.key == Key::Enter {
                let st = without_inline_edit(a);
                if ed.field_name@ == NEW_DOMAIN_FIELD_NAME@ {
                    lemma_finalized_keeps_names(st, b, ed.buffer@);
                } else if starts_with(ed.field_name@, "__domain_"@) {
                    lemma_edit_done_keeps_names(st, b, ed.field_name@, ed.buffer@);
                } else {
                    match ed.kind@ {
                        FieldKindView::Text => {},
                        _ => {},
                    }
                }
            }
        } else if a.enum_picker is Some {
            let p = a.enum_picker->Some_0;
            if press.key == Key::Enter || press.key == Key::Char(' ') {
                let st = without_enum_picker(a);
                let v = p.variants@[p.selected as int].0@;
                if starts_with(p.field_name@, "__domain_"@) {
                    lemma_edit_done_keeps_names(st, b, p.field_name@, v);
                } else {
                    lemma_proposal_text_keeps_names(st, b, p.field_name@, v);
                }
            }
        } else if a.scheme_picker is Some {
            let p = a.scheme_picker->Some_0;
            if press.key == Key::Enter && p.selected < p.filtered@.len() {
                lemma_proposal_text_keeps_names(
                    without_scheme_picker(a),
                    b,
                    "color_scheme"@,
                    p.schemes@[p.filtered@[p.selected as int] as int]@,
                );
            }
        } else if a.filter_active {
        } else {
            let key = press.key;
            if key == Key::Enter && a.active_panel != Panel::Sections {
                match focused_row(a) {
                    Some(row) => lemma_activated_keeps_names(a, b, row, r),
                    None => {},
                }
            } else if key == Key::Char(' ') && press.mods == Mods::Plain && !(key == Key::Escape || key == Key::Char('/')) {
                match focused_row(a) {
                    Some(row) => lemma_spaced_keeps_names(a, b, row, r),
                    None => {},
                }
            } else if key == Key::LeftArrow || key == Key::RightArrow {
                match focused_row(a) {
                    Some(row) => lemma_stepped_keeps_names(a, b, row, if key == Key::LeftArrow { -1 } else { 1 }),
                    None => {},
                }
            }
        },
        OverlayInput::LeftClick { x, y, width, height } => if a.inline_edit is None && a.enum_picker is None
            && a.scheme_picker is None && !a.filter_active {
            let (top, bottom, sl, sr, setl) = click_layout(width as int, height as int);
            if top <= y < bottom && !(sl <= x < sr) && x >= setl {
                let row = y - top;
                let idx = row + a.settings_scroll_offset;
                if idx < visible_count(a) {
                    let moved = OverlayState { selected_setting: idx as usize, active_panel: Panel::Settings, ..a };
                    if idx == a.selected_setting && a.active_panel == Panel::Settings {
                        lemma_visible_headers(moved);
                        let rw = spec_visible_settings(moved)[idx];
                        assert(rw.domain_header matches Some(h) ==> h.domain_index < moved.domains.entries@.len());
                        lemma_activated_keeps_names(moved, b, rw, r);
                    }
                }
            }
        },
        _ => {},
    }
}

} // verus!
