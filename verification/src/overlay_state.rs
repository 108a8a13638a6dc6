//! The config overlay's state: proposals, the rows of the settings panel,
//! the popups, and the edits a key press makes.
use vstd::prelude::*;
use crate::config_overlay::{
    display_text, has_domain_named, names_unique, overlay_configs, spec_parse_domain_field_name,
    parse_domain_field_name, extract_domain_field_key, spec_extract_domain_field_key,
    entry_with_field, toggled_text, NEW_DOMAIN_FIELD_NAME, domain_child_field_name, domain_child_text, spec_values_equal,
    value_to_display_string, values_equal, DomainHeaderInfo, DomainState, DynValue, EnumPicker,
    FieldStatus, InlineEdit, Panel, ADD_DOMAIN_FIELD_NAME, DELETE_DOMAIN_FIELD_NAME,
};
use crate::overlay_data::{
    defs_view, domain_field_defs, get_field_defs, SshDomainConfig, SshDomainView, domain_field_table, domain_field_value, row_defs_view,
    spec_domain_field_value, DomainEntry, DomainSource, FieldDef, FieldDefView, FieldKind,
    FieldKindView, Section,
};
use crate::text::{
    contains_seq, contains_str, decimal_of, lowercase, owned, push_decimal, push_str_chars,
    str_eq, to_lowercase,
};

verus! {

/// A field name and its value; a list of these with distinct names stands
/// for a map from field names to values.
pub type ValueMap = Vec<(String, DynValue)>;

/// The position, from `i` on, of the first entry named `key`;
/// `m.len()` if there is none.
pub open spec fn key_index_from(m: Seq<(String, DynValue)>, key: Seq<char>, i: int) -> int
    decreases m.len() - i,
{
    if i >= m.len() {
        m.len() as int
    } else if m[i].0@ == key {
        i
    } else {
        key_index_from(m, key, i + 1)
    }
}

/// The value stored under `key`, if any (the first one, should a name
/// repeat).
pub open spec fn lookup(m: Seq<(String, DynValue)>, key: Seq<char>) -> Option<DynValue> {
    let i = key_index_from(m, key, 0);
    if 0 <= i < m.len() {
        Some(m[i].1)
    } else {
        None
    }
}

proof fn lemma_key_index_skip(m: Seq<(String, DynValue)>, key: Seq<char>, i: int, j: int)
    requires
        0 <= i <= j <= m.len(),
        forall|d: int| i <= d < j ==> (#[trigger] m[d]).0@ != key,
    ensures
        key_index_from(m, key, i) == key_index_from(m, key, j),
    decreases j - i,
{
    if i < j {
        lemma_key_index_skip(m, key, i + 1, j);
    }
}

proof fn lemma_key_index_bounds(m: Seq<(String, DynValue)>, key: Seq<char>, i: int)
    requires
        0 <= i <= m.len(),
    ensures
        i <= key_index_from(m, key, i) <= m.len(),
        key_index_from(m, key, i) < m.len() ==> m[key_index_from(m, key, i)].0@ == key,
        forall|d: int| i <= d < key_index_from(m, key, i) ==> (#[trigger] m[d]).0@ != key,
    decreases m.len() - i,
{
    if i < m.len() {
        lemma_key_index_bounds(m, key, i + 1);
    }
}

/// Two lists whose names agree at every position other than where both
/// name something else than `k` find `k` at the same place.
proof fn lemma_key_index_same(a: Seq<(String, DynValue)>, b: Seq<(String, DynValue)>, k: Seq<char>, i: int)
    requires
        0 <= i <= a.len(),
        a.len() <= b.len(),
        forall|d: int| i <= d < a.len() ==> ((#[trigger] a[d]).0@ == k <==> b[d].0@ == k),
        forall|d: int| a.len() <= d < b.len() ==> (#[trigger] b[d]).0@ != k,
    ensures
        key_index_from(a, k, i) < a.len() ==> key_index_from(b, k, i) == key_index_from(a, k, i),
        key_index_from(a, k, i) >= a.len() ==> key_index_from(b, k, i) >= b.len(),
    decreases b.len() - i,
{
    if i < a.len() {
        lemma_key_index_same(a, b, k, i + 1);
    } else if i < b.len() {
        lemma_key_index_skip(b, k, i, b.len() as int);
    }
}

/// No name occurs twice.
pub open spec fn keys_unique(m: Seq<(String, DynValue)>) -> bool {
    forall|i: int, j: int| 0 <= i < j < m.len() ==> (#[trigger] m[i]).0@ != (#[trigger] m[j]).0@
}

/// The value stored under `key`, if any.
pub fn lookup_value<'a>(m: &'a ValueMap, key: &str) -> (r: Option<&'a DynValue>)
    ensures
        match r {
            Some(v) => lookup(m@, key@) == Some(*v),
            None => lookup(m@, key@) is None,
        },
{
    let mut i: usize = 0;
    while i < m.len()
        invariant
            i <= m@.len(),
            forall|d: int| 0 <= d < i ==> (#[trigger] m@[d]).0@ != key@,
        decreases m@.len() - i,
    {
        if str_eq(m[i].0.as_str(), key) {
            proof {
                lemma_key_index_skip(m@, key@, 0, i as int);
            }
            return Some(&m[i].1);
        }
        i += 1;
    }
    proof {
        lemma_key_index_skip(m@, key@, 0, i as int);
    }
    None
}

/// A displayable setting row.
#[derive(Debug)]
pub struct SettingRow {
    pub field_name: String,
    pub display_name: String,
    pub current_value: String,
    pub proposed_value: Option<String>,
    pub status: FieldStatus,
    pub kind: FieldKind,
    /// If this is a domain group header, holds the domain index.
    pub domain_header: Option<DomainHeaderInfo>,
    /// If this is a domain child field, holds the domain index.
    pub domain_child: Option<usize>,
}

/// The view of a `SettingRow`.
pub struct SettingRowView {
    pub field_name: Seq<char>,
    pub display_name: Seq<char>,
    pub current_value: Seq<char>,
    pub proposed_value: Option<Seq<char>>,
    pub status: FieldStatus,
    pub kind: FieldKindView,
    pub domain_header: Option<DomainHeaderInfo>,
    pub domain_child: Option<usize>,
}

impl View for SettingRow {
    type V = SettingRowView;

    open spec fn view(&self) -> SettingRowView {
        SettingRowView {
            field_name: self.field_name@,
            display_name: self.display_name@,
            current_value: self.current_value@,
            proposed_value: match self.proposed_value {
                Some(p) => Some(p@),
                None => None,
            },
            status: self.status,
            kind: self.kind@,
            domain_header: self.domain_header,
            domain_child: self.domain_child,
        }
    }
}

/// The views of a list of rows.
pub open spec fn rows_view(rows: Seq<SettingRow>) -> Seq<SettingRowView> {
    rows.map_values(|r: SettingRow| r@)
}

/// Field `f` is shown in `section` under the lower-cased filter `filter`.
pub open spec fn field_shown(f: FieldDefView, section: Section, filter: Seq<char>) -> bool {
    &&& f.section == section
    &&& filter.len() == 0 || contains_seq(lowercase(f.display_name), filter) || contains_seq(
        lowercase(f.name),
        filter,
    )
}

/// How a field's proposal stands against its effective value.
pub open spec fn field_status(proposed: Option<DynValue>, effective: Option<DynValue>) -> FieldStatus {
    match proposed {
        None => FieldStatus::Inherited,
        Some(p) => match effective {
            Some(e) => if spec_values_equal(p, e) { FieldStatus::Editable } else { FieldStatus::FixedByLua },
            None => FieldStatus::FixedByLua,
        },
    }
}

/// The row of an ordinary config field.
pub open spec fn field_row(
    f: FieldDefView,
    proposals: Seq<(String, DynValue)>,
    effective: Seq<(String, DynValue)>,
) -> SettingRowView {
    let ev = lookup(effective, f.name);
    let pv = lookup(proposals, f.name);
    SettingRowView {
        field_name: f.name,
        display_name: f.display_name,
        current_value: match ev {
            Some(v) => display_text(v),
            None => "-"@,
        },
        proposed_value: match pv {
            Some(v) => Some(display_text(v)),
            None => None,
        },
        status: field_status(pv, ev),
        kind: f.kind,
        domain_header: None,
        domain_child: None,
    }
}

/// The rows of the fields of `defs` shown in `section` under `filter`.
pub open spec fn field_rows(
    defs: Seq<FieldDefView>,
    section: Section,
    filter: Seq<char>,
    proposals: Seq<(String, DynValue)>,
    effective: Seq<(String, DynValue)>,
) -> Seq<SettingRowView>
    decreases defs.len(),
{
    if defs.len() == 0 {
        Seq::empty()
    } else {
        let rest = field_rows(defs.drop_last(), section, filter, proposals, effective);
        if field_shown(defs.last(), section, filter) {
            rest.push(field_row(defs.last(), proposals, effective))
        } else {
            rest
        }
    }
}

/// The name of the header row of domain `idx`.
pub open spec fn domain_header_text(idx: nat) -> Seq<char> {
    "__domain_header_"@ + decimal_of(idx) + "__"@
}

/// The name of the delete row of domain `idx`.
pub open spec fn domain_delete_text(idx: nat) -> Seq<char> {
    DELETE_DOMAIN_FIELD_NAME@ + "_"@ + decimal_of(idx)
}

/// Domain `e` is shown under the lower-cased filter `filter`.
pub open spec fn domain_shown(e: DomainEntry, filter: Seq<char>) -> bool {
    filter.len() == 0 || contains_seq(lowercase(e.config.name@), filter) || contains_seq(
        lowercase(e.config.remote_address@),
        filter,
    )
}

/// The child row of field `d` of domain `idx`.
pub open spec fn domain_child_row(
    idx: nat,
    e: DomainEntry,
    d: (Seq<char>, Seq<char>, FieldKindView, Seq<char>),
) -> SettingRowView {
    SettingRowView {
        field_name: domain_child_text(idx, d.0),
        display_name: "  "@ + d.1,
        current_value: spec_domain_field_value(e.config@, d.0),
        proposed_value: None,
        status: if e.source == DomainSource::Overlay { FieldStatus::Editable } else { FieldStatus::Inherited },
        kind: d.2,
        domain_header: None,
        domain_child: Some(idx as usize),
    }
}

/// The rows shown for domain `e` at index `idx`: its header and, when it is
/// expanded, one row per domain field and, for an overlay domain, a delete
/// row.
pub open spec fn domain_group_rows(idx: nat, e: DomainEntry) -> Seq<SettingRowView> {
    let header = SettingRowView {
        field_name: domain_header_text(idx),
        display_name: e.config.name@,
        current_value: e.config.remote_address@,
        proposed_value: None,
        status: if e.source == DomainSource::Overlay { FieldStatus::Editable } else { FieldStatus::Inherited },
        kind: FieldKindView::Text,
        domain_header: Some(DomainHeaderInfo { domain_index: idx as usize, source: e.source, expanded: e.expanded }),
        domain_child: None,
    };
    let delete = SettingRowView {
        field_name: domain_delete_text(idx),
        display_name: "  Delete Domain"@,
        current_value: Seq::empty(),
        proposed_value: None,
        status: FieldStatus::Editable,
        kind: FieldKindView::Text,
        domain_header: None,
        domain_child: Some(idx as usize),
    };
    if e.expanded {
        let children = domain_field_table().map_values(
            |d: (Seq<char>, Seq<char>, FieldKindView, Seq<char>)| domain_child_row(idx, e, d),
        );
        if e.source == DomainSource::Overlay {
            seq![header] + children + seq![delete]
        } else {
            seq![header] + children
        }
    } else {
        seq![header]
    }
}

/// The rows of the domains shown under `filter`.
pub open spec fn domain_rows(entries: Seq<DomainEntry>, filter: Seq<char>) -> Seq<SettingRowView>
    decreases entries.len(),
{
    if entries.len() == 0 {
        Seq::empty()
    } else {
        let rest = domain_rows(entries.drop_last(), filter);
        let idx = (entries.len() - 1) as nat;
        if domain_shown(entries.last(), filter) {
            rest + domain_group_rows(idx, entries.last())
        } else {
            rest
        }
    }
}

/// The "Add SSH Domain..." row.
pub open spec fn add_domain_row() -> SettingRowView {
    SettingRowView {
        field_name: ADD_DOMAIN_FIELD_NAME@,
        display_name: "Add SSH Domain..."@,
        current_value: Seq::empty(),
        proposed_value: None,
        status: FieldStatus::Editable,
        kind: FieldKindView::Text,
        domain_header: None,
        domain_child: None,
    }
}

/// State for the color scheme picker popup; the schemes are listed by
/// name.
#[derive(Debug)]
pub struct ColorSchemePicker {
    pub schemes: Vec<String>,
    pub filtered: Vec<usize>,
    pub selected: usize,
    pub filter: String,
    pub scroll_offset: usize,
}

/// Internal state for the overlay.
#[derive(Debug)]
pub struct OverlayState {
    pub active_panel: Panel,
    pub sections: Vec<Section>,
    pub selected_section: usize,
    pub selected_setting: usize,
    pub settings_scroll_offset: usize,
    pub filter: String,
    pub filter_active: bool,
    pub proposals: ValueMap,
    pub effective_values: ValueMap,
    pub field_defs: Vec<FieldDef>,
    pub dirty: bool,
    /// Inline edit mode: field name + buffer
    pub inline_edit: Option<InlineEdit>,
    /// Enum picker popup: field name + variants + selected index
    pub enum_picker: Option<EnumPicker>,
    /// Color scheme picker popup.
    pub scheme_picker: Option<ColorSchemePicker>,
    /// The SSH domains shown in the Domains section.
    pub domains: DomainState,
}

/// The rows the settings panel shows for the selected section.
pub open spec fn spec_visible_settings(st: OverlayState) -> Seq<SettingRowView> {
    let section = st.sections@[st.selected_section as int];
    let filter = lowercase(st.filter@);
    let base = field_rows(defs_view(st.field_defs@), section, filter, st.proposals@, st.effective_values@);
    if section == Section::SshAndDomains {
        let add = if filter.len() == 0 || contains_seq("add ssh domain"@, filter) {
            seq![add_domain_row()]
        } else {
            Seq::empty()
        };
        base + domain_rows(st.domains.entries@, filter) + add
    } else {
        base
    }
}

fn clone_opt_string(s: &Option<String>) -> (r: Option<String>)
    ensures
        r == *s,
{
    match s {
        Some(x) => Some(x.clone()),
        None => None,
    }
}

fn make_field_row(f: &FieldDef, proposals: &ValueMap, effective: &ValueMap) -> (r: SettingRow)
    ensures
        r@ == field_row(f@, proposals@, effective@),
{
    let ev = lookup_value(effective, f.name);
    let pv = lookup_value(proposals, f.name);
    let current_value = match ev {
        Some(v) => value_to_display_string(v),
        None => owned("-"),
    };
    let proposed_value = match pv {
        Some(v) => Some(value_to_display_string(v)),
        None => None,
    };
    let status = match pv {
        None => FieldStatus::Inherited,
        Some(p) => match ev {
            Some(e) => if values_equal(p, e) { FieldStatus::Editable } else { FieldStatus::FixedByLua },
            None => FieldStatus::FixedByLua,
        },
    };
    SettingRow {
        field_name: owned(f.name),
        display_name: owned(f.display_name),
        current_value,
        proposed_value,
        status,
        kind: f.kind.clone(),
        domain_header: None,
        domain_child: None,
    }
}

fn lower_contains(s: &str, filter_lower: &String) -> (r: bool)
    ensures
        r == contains_seq(lowercase(s@), filter_lower@),
{
    let l = to_lowercase(s);
    contains_str(l.as_str(), filter_lower.as_str())
}

fn make_domain_header_name(idx: usize) -> (r: String)
    ensures
        r@ == domain_header_text(idx as nat),
{
    let mut out = String::new();
    push_str_chars(&mut out, "__domain_header_");
    push_decimal(&mut out, idx as u64);
    push_str_chars(&mut out, "__");
    assert(out@ =~= domain_header_text(idx as nat));
    out
}

fn make_domain_delete_name(idx: usize) -> (r: String)
    ensures
        r@ == domain_delete_text(idx as nat),
{
    let mut out = String::new();
    push_str_chars(&mut out, DELETE_DOMAIN_FIELD_NAME);
    push_str_chars(&mut out, "_");
    push_decimal(&mut out, idx as u64);
    assert(out@ =~= domain_delete_text(idx as nat));
    out
}

fn push_domain_group(
    rows: &mut Vec<SettingRow>,
    idx: usize,
    e: &DomainEntry,
    fields: &Vec<(&'static str, &'static str, FieldKind, &'static str)>,
)
    requires
        row_defs_view(fields@) == domain_field_table(),
    ensures
        rows_view(final(rows)@) == rows_view(old(rows)@) + domain_group_rows(idx as nat, *e),
{
    let ghost start = rows_view(rows@);
    let editable = e.source == DomainSource::Overlay;
    rows.push(SettingRow {
        field_name: make_domain_header_name(idx),
        display_name: e.config.name.clone(),
        current_value: e.config.remote_address.clone(),
        proposed_value: None,
        status: if editable { FieldStatus::Editable } else { FieldStatus::Inherited },
        kind: FieldKind::Text,
        domain_header: Some(DomainHeaderInfo { domain_index: idx, source: e.source, expanded: e.expanded }),
        domain_child: None,
    });
    let ghost header_rows = rows_view(rows@);
    assert(header_rows =~= start + domain_group_rows(idx as nat, *e).take(1));
    if e.expanded {
        let ghost table = domain_field_table();
        let ghost children = table.map_values(
            |d: (Seq<char>, Seq<char>, FieldKindView, Seq<char>)| domain_child_row(idx as nat, *e, d),
        );
        let mut k: usize = 0;
        while k < fields.len()
            invariant
                k <= fields@.len(),
                row_defs_view(fields@) == table,
                table == domain_field_table(),
                children == table.map_values(
                    |d: (Seq<char>, Seq<char>, FieldKindView, Seq<char>)| domain_child_row(idx as nat, *e, d),
                ),
                rows_view(rows@) == header_rows + children.take(k as int),
                editable == (e.source == DomainSource::Overlay),
            decreases fields@.len() - k,
        {
            let (key, display, kind, _doc) = &fields[k];
            let mut display_name = owned("  ");
            push_str_chars(&mut display_name, display);
            assert(row_defs_view(fields@)[k as int] == crate::overlay_data::row_def_view(fields@[k as int]));
            assert(table[k as int] == (key@, display@, kind@, _doc@));
            let row = SettingRow {
                field_name: domain_child_field_name(idx, key),
                display_name,
                current_value: domain_field_value(&e.config, key),
                proposed_value: None,
                status: if editable { FieldStatus::Editable } else { FieldStatus::Inherited },
                kind: kind.clone(),
                domain_header: None,
                domain_child: Some(idx),
            };
            proof {
                reveal_strlit("  ");
                assert(row@.display_name =~= "  "@ + display@);
                assert(row@ == domain_child_row(idx as nat, *e, table[k as int]));
            }
            let ghost before = rows@;
            let ghost rv = row@;
            rows.push(row);
            proof {
                assert(rows_view(rows@) =~= rows_view(before).push(rv));
                assert(children[k as int] == domain_child_row(idx as nat, *e, table[k as int]));
                assert(children.take(k + 1) =~= children.take(k as int).push(children[k as int]));
                assert(rows_view(rows@) =~= header_rows + children.take(k + 1));
            }
            k += 1;
        }
        assert(children.take(fields@.len() as int) =~= children);
        let ghost with_children = rows@;
        if editable {
            rows.push(SettingRow {
                field_name: make_domain_delete_name(idx),
                display_name: owned("  Delete Domain"),
                current_value: String::new(),
                proposed_value: None,
                status: FieldStatus::Editable,
                kind: FieldKind::Text,
                domain_header: None,
                domain_child: Some(idx),
            });
            proof {
                reveal_strlit("  Delete Domain");
                assert(rows_view(rows@) =~= rows_view(with_children).push(rows@.last()@));
            }
        }
    }
    assert(rows_view(rows@) =~= start + domain_group_rows(idx as nat, *e));
}

impl OverlayState {
    /// The section whose settings are shown.
    pub fn current_section(&self) -> (r: Section)
        requires
            self.selected_section < self.sections@.len(),
        ensures
            r == self.sections@[self.selected_section as int],
    {
        self.sections[self.selected_section]
    }

    /// Get the setting rows for the currently selected section, filtered.
    pub fn visible_settings(&self) -> (r: Vec<SettingRow>)
        requires
            self.selected_section < self.sections@.len(),
        ensures
            rows_view(r@) == spec_visible_settings(*self),
    {
        let section = self.current_section();
        let filter_lower = to_lowercase(self.filter.as_str());
        let ghost defs = defs_view(self.field_defs@);
        let mut rows: Vec<SettingRow> = Vec::new();
        let mut i: usize = 0;
        while i < self.field_defs.len()
            invariant
                i <= self.field_defs@.len(),
                defs == defs_view(self.field_defs@),
                filter_lower@ == lowercase(self.filter@),
                rows_view(rows@) == field_rows(defs.take(i as int), section, filter_lower@, self.proposals@, self.effective_values@),
            decreases self.field_defs@.len() - i,
        {
            let f = &self.field_defs[i];
            assert(defs.take(i + 1).drop_last() =~= defs.take(i as int));
            assert(defs.take(i + 1).last() == f@);
            let shown = f.section == section && (filter_lower.as_str().is_empty() || lower_contains(f.display_name, &filter_lower)
                || lower_contains(f.name, &filter_lower));
            if shown {
                let row = make_field_row(f, &self.proposals, &self.effective_values);
                rows.push(row);
                assert(rows_view(rows@) =~= field_rows(defs.take(i as int), section, filter_lower@, self.proposals@, self.effective_values@).push(row@));
            }
            i += 1;
        }
        assert(defs.take(self.field_defs@.len() as int) =~= defs);
        if section == Section::SshAndDomains {
            let fields = domain_field_defs();
            let ghost base = rows_view(rows@);
            let entries = &self.domains.entries;
            let mut j: usize = 0;
            while j < entries.len()
                invariant
                    j <= entries@.len(),
                    row_defs_view(fields@) == domain_field_table(),
                    filter_lower@ == lowercase(self.filter@),
                    rows_view(rows@) == base + domain_rows(entries@.take(j as int), filter_lower@),
                decreases entries@.len() - j,
            {
                let e = &entries[j];
                assert(entries@.take(j + 1).drop_last() =~= entries@.take(j as int));
                assert(entries@.take(j + 1).last() == *e);
                let shown = filter_lower.as_str().is_empty() || lower_contains(e.config.name.as_str(), &filter_lower)
                    || lower_contains(e.config.remote_address.as_str(), &filter_lower);
                if shown {
                    push_domain_group(&mut rows, j, e, &fields);
                    assert(rows_view(rows@) =~= base + domain_rows(entries@.take(j + 1), filter_lower@));
                }
                j += 1;
            }
            assert(entries@.take(entries@.len() as int) =~= entries@);
            if filter_lower.as_str().is_empty() || contains_str("add ssh domain", filter_lower.as_str()) {
                rows.push(SettingRow {
                    field_name: owned(ADD_DOMAIN_FIELD_NAME),
                    display_name: owned("Add SSH Domain..."),
                    current_value: String::new(),
                    proposed_value: None,
                    status: FieldStatus::Editable,
                    kind: FieldKind::Text,
                    domain_header: None,
                    domain_child: None,
                });
            }
            assert(rows_view(rows@) =~= spec_visible_settings(*self));
        }
        rows
    }
}

/// Navigation, filter and selection agree.
pub open spec fn nav_same(a: OverlayState, b: OverlayState) -> bool {
    &&& a.active_panel == b.active_panel
    &&& a.sections == b.sections
    &&& a.selected_section == b.selected_section
    &&& a.selected_setting == b.selected_setting
    &&& a.settings_scroll_offset == b.settings_scroll_offset
    &&& a.filter == b.filter
    &&& a.filter_active == b.filter_active
}

/// Proposals, effective values and field definitions agree.
pub open spec fn values_same(a: OverlayState, b: OverlayState) -> bool {
    &&& a.proposals == b.proposals
    &&& a.effective_values == b.effective_values
    &&& a.field_defs == b.field_defs
}

/// The three popups agree.
pub open spec fn popups_same(a: OverlayState, b: OverlayState) -> bool {
    &&& a.inline_edit == b.inline_edit
    &&& a.enum_picker == b.enum_picker
    &&& a.scheme_picker == b.scheme_picker
}

/// `b` is `a` with `key` mapped to `value` and every other name kept.
pub open spec fn map_updated(a: Seq<(String, DynValue)>, b: Seq<(String, DynValue)>, key: Seq<char>, value: DynValue) -> bool {
    &&& lookup(b, key) == Some(value)
    &&& forall|k: Seq<char>| k != key ==> #[trigger] lookup(b, k) == lookup(a, k)
    &&& keys_unique(a) ==> keys_unique(b)
}

/// `b` is `a` without `key` (the first entry named `key` is dropped,
/// which removes the name when names are distinct).
pub open spec fn map_removed(a: Seq<(String, DynValue)>, b: Seq<(String, DynValue)>, key: Seq<char>) -> bool {
    &&& keys_unique(a) ==> lookup(b, key) is None
    &&& forall|k: Seq<char>| k != key ==> #[trigger] lookup(b, k) == lookup(a, k)
    &&& keys_unique(a) ==> keys_unique(b)
}

/// Maps `key` to `value` in `m`: replaces the value of the first entry
/// named `key`, or appends an entry.
pub fn map_insert(m: &mut ValueMap, key: &str, value: DynValue)
    ensures
        map_updated(old(m)@, final(m)@, key@, value),
{
    let ghost m0 = m@;
    let mut i: usize = 0;
    let mut found = false;
    while i < m.len() && !found
        invariant
            m@ == m0,
            i <= m@.len(),
            found ==> i < m@.len() && m@[i as int].0@ == key@,
            forall|j: int| 0 <= j < i ==> (#[trigger] m@[j]).0@ != key@,
        decreases m@.len() - i + (if found { 0int } else { 1int }),
    {
        if str_eq(m[i].0.as_str(), key) {
            found = true;
        } else {
            i += 1;
        }
    }
    if found {
        let name = m[i].0.clone();
        m.set(i, (name, value));
        proof {
            assert forall|a: int| 0 <= a < m@.len() implies (#[trigger] m@[a]).0@ == m0[a].0@ by {}
            assert forall|d: int| 0 <= d < i implies (#[trigger] m@[d]).0@ != key@ by {
                assert(m@[d] == m0[d]);
            }
            lemma_key_index_skip(m@, key@, 0, i as int);
            assert(key_index_from(m@, key@, i as int) == i);
            assert forall|k: Seq<char>| k != key@ implies #[trigger] lookup(m@, k) == lookup(m0, k) by {
                lemma_key_index_same(m0, m@, k, 0);
                lemma_key_index_bounds(m0, k, 0);
            }
            if keys_unique(m0) {
                assert forall|a: int, b: int| 0 <= a < b < m@.len() implies (#[trigger] m@[a]).0@ != (#[trigger] m@[b]).0@
                by {
                    assert(m@[a].0@ == m0[a].0@ && m@[b].0@ == m0[b].0@);
                }
            }
        }
    } else {
        let name = owned(key);
        m.push((name, value));
        proof {
            lemma_key_index_skip(m@, key@, 0, i as int);
            assert(m@[i as int].0@ == key@);
            assert forall|k: Seq<char>| k != key@ implies #[trigger] lookup(m@, k) == lookup(m0, k) by {
                lemma_key_index_same(m0, m@, k, 0);
                lemma_key_index_bounds(m0, k, 0);
                lemma_key_index_bounds(m@, k, 0);
            }
            if keys_unique(m0) {
                assert forall|a: int, b: int| 0 <= a < b < m@.len() implies (#[trigger] m@[a]).0@ != (#[trigger] m@[b]).0@
                by {
                    if b == m0.len() {
                        assert(m@[a] == m0[a]);
                    } else {
                        assert(m@[a] == m0[a] && m@[b] == m0[b]);
                    }
                }
            }
        }
    }
}

proof fn lemma_lookup_remove(m: Seq<(String, DynValue)>, i: int, k: Seq<char>)
    requires
        0 <= i < m.len(),
        m[i].0@ != k,
    ensures
        lookup(m.remove(i), k) == lookup(m, k),
{
    let r = m.remove(i);
    lemma_key_index_bounds(m, k, 0);
    let j0 = key_index_from(m, k, 0);
    if j0 < i {
        assert forall|d: int| 0 <= d < j0 implies (#[trigger] r[d]).0@ != k by {
            assert(r[d] == m[d]);
        }
        lemma_key_index_skip(r, k, 0, j0);
        assert(r[j0] == m[j0]);
    } else if j0 < m.len() {
        assert forall|d: int| 0 <= d < j0 - 1 implies (#[trigger] r[d]).0@ != k by {
            if d < i {
                assert(r[d] == m[d]);
            } else {
                assert(r[d] == m[d + 1]);
            }
        }
        lemma_key_index_skip(r, k, 0, j0 - 1);
        assert(r[j0 - 1] == m[j0]);
    } else {
        assert forall|d: int| 0 <= d < r.len() implies (#[trigger] r[d]).0@ != k by {
            if d < i {
                assert(r[d] == m[d]);
            } else {
                assert(r[d] == m[d + 1]);
            }
        }
        lemma_key_index_skip(r, k, 0, r.len() as int);
    }
}

/// Drops the first entry named `key` from `m`, if there is one.
pub fn map_remove(m: &mut ValueMap, key: &str)
    ensures
        map_removed(old(m)@, final(m)@, key@),
{
    let ghost m0 = m@;
    let mut i: usize = 0;
    let mut found = false;
    while i < m.len() && !found
        invariant
            m@ == m0,
            i <= m@.len(),
            found ==> i < m@.len() && m@[i as int].0@ == key@,
            forall|j: int| 0 <= j < i ==> (#[trigger] m@[j]).0@ != key@,
        decreases m@.len() - i + (if found { 0int } else { 1int }),
    {
        if str_eq(m[i].0.as_str(), key) {
            found = true;
        } else {
            i += 1;
        }
    }
    if found {
        let _ = m.remove(i);
        proof {
            assert(m@ == m0.remove(i as int));
            assert forall|k: Seq<char>| k != key@ implies #[trigger] lookup(m@, k) == lookup(m0, k) by {
                lemma_lookup_remove(m0, i as int, k);
            }
            assert forall|d: int| 0 <= d < m@.len() implies #[trigger] m@[d] == (if d < i { m0[d] } else { m0[d + 1] }) by {}
            if keys_unique(m0) {
                assert forall|a: int, b: int| 0 <= a < b < m@.len() implies (#[trigger] m@[a]).0@ != (#[trigger] m@[b]).0@
                by {
                    let a0 = if a < i { a } else { a + 1 };
                    let b0 = if b < i { b } else { b + 1 };
                    assert(m@[a] == m0[a0] && m@[b] == m0[b0]);
                }
                assert forall|d: int| 0 <= d < m@.len() implies (#[trigger] m@[d]).0@ != key@ by {
                    let d0 = if d < i { d } else { d + 1 };
                    assert(m@[d] == m0[d0]);
                    assert(m0[i as int].0@ == key@);
                }
                lemma_key_index_skip(m@, key@, 0, m@.len() as int);
            }
        }
    } else {
        proof {
            lemma_key_index_skip(m@, key@, 0, m@.len() as int);
        }
    }
}

/// `st` with `field` proposed as `value`.
pub open spec fn proposal_set(a: OverlayState, b: OverlayState, field: Seq<char>, value: DynValue) -> bool {
    &&& map_updated(a.proposals@, b.proposals@, field, value)
    &&& b.dirty
    &&& nav_same(a, b)
    &&& b.effective_values == a.effective_values
    &&& b.field_defs == a.field_defs
    &&& popups_same(a, b)
    &&& b.domains == a.domains
}

/// The value a field currently has: its proposal, else its effective value.
pub open spec fn current_value_of(st: OverlayState, field: Seq<char>) -> Option<DynValue> {
    match lookup(st.proposals@, field) {
        Some(v) => Some(v),
        None => lookup(st.effective_values@, field),
    }
}

/// What toggling a boolean field proposes: the negation of its current
/// value when that is a boolean, else `true`.
pub open spec fn toggled_value(current: Option<DynValue>) -> DynValue {
    match current {
        Some(DynValue::Bool(b)) => DynValue::Bool(!b),
        _ => DynValue::Bool(true),
    }
}

impl OverlayState {
    /// Apply an edit: toggle bool, cycle enum, or accept inline text.
    pub fn apply_edit_for_field(&mut self, field_name: &str, new_value: DynValue)
        ensures
            proposal_set(*old(self), *final(self), field_name@, new_value),
    {
        map_insert(&mut self.proposals, field_name, new_value);
        self.dirty = true;
    }

    /// Drop the proposal for a field.
    pub fn remove_proposal(&mut self, field_name: &str)
        ensures
            map_removed(old(self).proposals@, final(self).proposals@, field_name@),
            final(self).dirty,
            nav_same(*old(self), *final(self)),
            final(self).effective_values == old(self).effective_values,
            final(self).field_defs == old(self).field_defs,
            popups_same(*old(self), *final(self)),
            final(self).domains == old(self).domains,
    {
        map_remove(&mut self.proposals, field_name);
        self.dirty = true;
    }

    fn current_value(&self, field_name: &str) -> (r: Option<&DynValue>)
        ensures
            match r {
                Some(v) => current_value_of(*self, field_name@) == Some(*v),
                None => current_value_of(*self, field_name@) is None,
            },
    {
        match lookup_value(&self.proposals, field_name) {
            Some(v) => Some(v),
            None => lookup_value(&self.effective_values, field_name),
        }
    }

    /// Flip a boolean field's proposal.
    pub fn toggle_bool(&mut self, field_name: &str)
        ensures
            proposal_set(*old(self), *final(self), field_name@, toggled_value(current_value_of(*old(self), field_name@))),
    {
        let new_val = match self.current_value(field_name) {
            Some(DynValue::Bool(b)) => DynValue::Bool(!*b),
            _ => DynValue::Bool(true),
        };
        self.apply_edit_for_field(field_name, new_val);
    }
}

/// The position, from `i` on, of the first definition named `name`.
pub open spec fn def_index_from(defs: Seq<FieldDefView>, name: Seq<char>, i: int) -> int
    decreases defs.len() - i,
{
    if i >= defs.len() {
        defs.len() as int
    } else if defs[i].name == name {
        i
    } else {
        def_index_from(defs, name, i + 1)
    }
}

/// The position, from `i` on, of the first variant named `current`, or 0.
pub open spec fn variant_index_from(vs: Seq<(Seq<char>, Seq<char>)>, current: Option<Seq<char>>, i: int) -> int
    decreases vs.len() - i,
{
    if i >= vs.len() {
        0
    } else if current == Some(vs[i].0) {
        i
    } else {
        variant_index_from(vs, current, i + 1)
    }
}

/// The variant that cycling field `field` one step forward (`direction`
/// positive) or back selects, when the field is a non-empty enum.
pub open spec fn cycled_variant(st: OverlayState, field: Seq<char>, direction: int) -> Option<Seq<char>> {
    let defs = defs_view(st.field_defs@);
    let di = def_index_from(defs, field, 0);
    if di < defs.len() {
        match defs[di].kind {
            FieldKindView::Enum(vs) => if vs.len() == 0 {
                None
            } else {
                let current = match current_value_of(st, field) {
                    Some(v) => Some(display_text(v)),
                    None => None,
                };
                let cur = variant_index_from(vs, current, 0);
                let next = if direction > 0 { (cur + 1) % (vs.len() as int) } else { (cur + vs.len() - 1) % (vs.len() as int) };
                Some(vs[next].0)
            },
            _ => None,
        }
    } else {
        None
    }
}

/// `b` is `a` with `field` proposed as the string `text`.
pub open spec fn proposal_set_text(a: OverlayState, b: OverlayState, field: Seq<char>, text: Seq<char>) -> bool {
    exists|v: DynValue| #[trigger] proposal_set(a, b, field, v) && (v matches DynValue::String(t) && t@ == text)
}

fn find_def(defs: &Vec<FieldDef>, name: &str) -> (r: usize)
    ensures
        r == def_index_from(defs_view(defs@), name@, 0),
{
    let ghost dv = defs_view(defs@);
    let mut i: usize = 0;
    while i < defs.len()
        invariant
            i <= defs@.len(),
            dv == defs_view(defs@),
            def_index_from(dv, name@, 0) == def_index_from(dv, name@, i as int),
        decreases defs@.len() - i,
    {
        if str_eq(defs[i].name, name) {
            return i;
        }
        i += 1;
    }
    i
}

pub(crate) fn find_variant(vs: &Vec<(String, String)>, current: &Option<String>) -> (r: usize)
    ensures
        r == variant_index_from(crate::overlay_data::pairs_view(vs@), opt_text(*current), 0),
        vs@.len() > 0 ==> r < vs@.len(),
{
    let ghost pv = crate::overlay_data::pairs_view(vs@);
    let mut i: usize = 0;
    while i < vs.len()
        invariant
            i <= vs@.len(),
            pv == crate::overlay_data::pairs_view(vs@),
            variant_index_from(pv, opt_text(*current), 0) == variant_index_from(pv, opt_text(*current), i as int),
        decreases vs@.len() - i,
    {
        let hit = match current {
            Some(c) => vs[i].0 == *c,
            None => false,
        };
        if hit {
            return i;
        }
        i += 1;
    }
    0
}

/// The view of an optional string.
pub open spec fn opt_text(s: Option<String>) -> Option<Seq<char>> {
    match s {
        Some(t) => Some(t@),
        None => None,
    }
}

/// The number of rows the settings panel shows.
pub open spec fn visible_count(st: OverlayState) -> int {
    spec_visible_settings(st).len() as int
}

/// The selection after clamping it to `count` rows.
pub open spec fn clamped(selected: int, count: int) -> int {
    if count == 0 {
        0
    } else if selected >= count {
        count - 1
    } else {
        selected
    }
}

impl OverlayState {
    /// Step an enum field's proposal to the next (`direction` > 0) or
    /// previous variant, starting from the variant its current value
    /// shows (or the first one).
    pub fn cycle_enum(&mut self, field_name: &str, direction: isize)
        ensures
            match cycled_variant(*old(self), field_name@, direction as int) {
                Some(v) => proposal_set_text(*old(self), *final(self), field_name@, v),
                None => *final(self) == *old(self),
            },
    {
        let di = find_def(&self.field_defs, field_name);
        if di >= self.field_defs.len() {
            return;
        }
        let ghost defs = defs_view(self.field_defs@);
        assert(defs[di as int] == self.field_defs@[di as int]@);
        let chosen: String = match &self.field_defs[di].kind {
            FieldKind::Enum(variants) => {
                if variants.len() == 0 {
                    return;
                }
                let current_str = match self.current_value(field_name) {
                    Some(v) => Some(value_to_display_string(v)),
                    None => None,
                };
                let cur = find_variant(variants, &current_str);
                let n = variants.len();
                let next = if direction > 0 { (cur + 1) % n } else if cur == 0 { n - 1 } else { cur - 1 };
                proof {
                    let (c, m) = (cur as int, n as int);
                    if c == 0 {
                        assert((c + m - 1) % m == m - 1) by (nonlinear_arith)
                            requires c == 0, m > 0;
                    } else {
                        assert((c + m - 1) % m == c - 1) by (nonlinear_arith)
                            requires 0 < c < m;
                    }
                }
                assert(crate::overlay_data::pairs_view(variants@)[next as int].0 == variants@[next as int].0@);
                variants[next].0.clone()
            },
            _ => {
                return;
            },
        };
        let ghost old_st = *self;
        let value = DynValue::String(chosen);
        let ghost gv = value;
        self.apply_edit_for_field(field_name, value);
        assert(proposal_set(old_st, *self, field_name@, gv));
    }

    /// Keep the selected row within the rows shown.
    pub fn clamp_selection(&mut self)
        requires
            old(self).selected_section < old(self).sections@.len(),
        ensures
            final(self).selected_setting == clamped(old(self).selected_setting as int, visible_count(*old(self))),
            *final(self) == (OverlayState { selected_setting: final(self).selected_setting, ..*old(self) }),
    {
        let count = self.visible_settings().len();
        if count == 0 {
            self.selected_setting = 0;
        } else if self.selected_setting >= count {
            self.selected_setting = count - 1;
        }
    }

    /// The selected row, if the selection is within the rows shown.
    pub fn selected_row(&self) -> (r: Option<SettingRow>)
        requires
            self.selected_section < self.sections@.len(),
        ensures
            match r {
                Some(row) => self.selected_setting < visible_count(*self) && row@ == spec_visible_settings(*self)[self.selected_setting as int],
                None => self.selected_setting >= visible_count(*self),
            },
    {
        let mut settings = self.visible_settings();
        if self.selected_setting < settings.len() {
            let ghost v = rows_view(settings@);
            let row = settings.swap_remove(self.selected_setting);
            assert(row@ == v[self.selected_setting as int]);
            Some(row)
        } else {
            None
        }
    }

    /// Returns true if the row can be edited (not FixedByLua).
    pub fn is_row_editable(row: &SettingRow) -> (r: bool)
        ensures
            r == (row.status != FieldStatus::FixedByLua),
    {
        row.status != FieldStatus::FixedByLua
    }
}

/// `b` is `a` with field `key` of domain `idx` set from `value`, the
/// domains marked changed.
pub open spec fn domain_field_set(a: OverlayState, b: OverlayState, idx: int, key: Seq<char>, value: Seq<char>) -> bool {
    let e = a.domains.entries@[idx];
    &&& b.domains.entries@.len() == a.domains.entries@.len()
    &&& b.domains.entries@[idx].config@ == entry_with_field(e, key, value)
    &&& b.domains.entries@[idx].source == e.source
    &&& b.domains.entries@[idx].expanded == e.expanded
    &&& forall|j: int| 0 <= j < a.domains.entries@.len() && j != idx ==> #[trigger] b.domains.entries@[j] == a.domains.entries@[j]
    &&& b.domains.adding == a.domains.adding
    &&& b.domains.dirty
    &&& b.dirty
    &&& nav_same(a, b)
    &&& values_same(a, b)
    &&& popups_same(a, b)
}

/// Whether an edit of the domain row `field_name` lands: it names a field
/// of an existing, overlay-managed domain. Returns that domain and field.
pub open spec fn domain_edit_target(st: OverlayState, field_name: Seq<char>) -> Option<(int, Seq<char>)> {
    match spec_parse_domain_field_name(field_name) {
        Some((idx, key)) => if idx < st.domains.entries@.len() && st.domains.entries@[idx].source
            == DomainSource::Overlay {
            Some((idx, key))
        } else {
            None
        },
        None => None,
    }
}

/// The new domain that `finalize_add_domain` records under `name`, when
/// `name` is not empty and no domain has it yet: the domain being added
/// (or the default one) renamed.
pub open spec fn added_domain(a: OverlayState, b: OverlayState, name: Seq<char>) -> bool {
    let e = b.domains.entries@.last();
    &&& b.domains.entries@.len() == a.domains.entries@.len() + 1
    &&& b.domains.entries@.drop_last() == a.domains.entries@
    &&& e.source == DomainSource::Overlay
    &&& e.expanded
    &&& e.config.name@ == name
    &&& match a.domains.adding {
        Some(c) => e.config@ == SshDomainView { name, ..c@ },
        None => {
            &&& e.config.remote_address@.len() == 0
            &&& e.config.username@.len() == 0
            &&& e.config.multiplexing@ == "None"@
            &&& e.config.ssh_backend@ == "LibSsh"@
            &&& !e.config.no_agent_auth
            &&& !e.config.connect_automatically
        },
    }
    &&& b.domains.dirty
    &&& b.dirty
}

/// `b` is `a` after finishing the domain being added under `name`: an
/// empty name, or one a domain already has, discards it.
pub open spec fn domain_finalized(a: OverlayState, b: OverlayState, name: Seq<char>) -> bool {
    &&& b.domains.adding is None
    &&& nav_same(a, b)
    &&& values_same(a, b)
    &&& popups_same(a, b)
    &&& if name.len() == 0 || has_domain_named(a.domains.entries@, name) {
        &&& b.domains.entries == a.domains.entries
        &&& b.domains.dirty == a.domains.dirty
        &&& b.dirty == a.dirty
    } else {
        added_domain(a, b, name)
    }
}

/// `b` is `a` after the edit of domain row `field_name` to `value`.
pub open spec fn domain_edit_done(a: OverlayState, b: OverlayState, field_name: Seq<char>, value: Seq<char>) -> bool {
    match domain_edit_target(a, field_name) {
        Some((idx, key)) => domain_field_set(a, b, idx, key, value),
        None => b == a,
    }
}

impl OverlayState {
    /// Flip boolean field `field_key` of domain `domain_idx` between "On"
    /// and "Off"; nothing happens when there is no such domain.
    pub fn toggle_domain_bool(&mut self, domain_idx: usize, field_key: &str)
        ensures
            domain_idx < old(self).domains.entries@.len() ==> domain_field_set(
                *old(self),
                *final(self),
                domain_idx as int,
                field_key@,
                toggled_text(spec_domain_field_value(old(self).domains.entries@[domain_idx as int].config@, field_key@)),
            ),
            domain_idx >= old(self).domains.entries@.len() ==> *final(self) == *old(self),
    {
        let ghost before = *self;
        let changed = self.domains.toggle_field(domain_idx, field_key);
        if changed {
            self.dirty = true;
        }
    }

    /// Apply an edited value to the domain field named by the row name
    /// `field_name` (`__domain_N_fieldkey__`), if that domain is managed by
    /// the overlay.
    pub fn apply_domain_field_edit(&mut self, field_name: &str, value: &str)
        ensures
            domain_edit_done(*old(self), *final(self), field_name@, value@),
    {
        if let Some((domain_idx, field_key)) = parse_domain_field_name(field_name) {
            if domain_idx < self.domains.entries.len() {
                if self.domains.entries[domain_idx].source == DomainSource::Overlay {
                    self.domains.set_entry_field(domain_idx, field_key.as_str(), value);
                    self.domains.dirty = true;
                    self.dirty = true;
                }
            }
        }
    }

    /// Finalize adding a new domain named `name`: an empty name, or one
    /// that a domain already has, discards it.
    pub fn finalize_add_domain(&mut self, name: String)
        ensures
            domain_finalized(*old(self), *final(self), name@),
    {
        if name.as_str().is_empty() {
            self.domains.adding = None;
            return;
        }
        if self.domains.contains_name(&name) {
            self.domains.adding = None;
            return;
        }
        let mut config = match self.domains.adding.take() {
            Some(c) => c,
            None => SshDomainConfig::default(),
        };
        config.name = name;
        let ghost old_entries = self.domains.entries@;
        self.domains.entries.push(DomainEntry { config, source: DomainSource::Overlay, expanded: true });
        assert(self.domains.entries@.drop_last() =~= old_entries);
        self.domains.dirty = true;
        self.dirty = true;
    }

    /// Get overlay-managed domains for saving.
    pub fn overlay_domains(&self) -> (r: Vec<SshDomainConfig>)
        ensures
            r@.map_values(|c: SshDomainConfig| c@) == overlay_configs(self.domains.entries@),
    {
        let entries = &self.domains.entries;
        let mut out: Vec<SshDomainConfig> = Vec::new();
        let mut i: usize = 0;
        while i < entries.len()
            invariant
                i <= entries@.len(),
                out@.map_values(|c: SshDomainConfig| c@) == overlay_configs(entries@.take(i as int)),
            decreases entries@.len() - i,
        {
            assert(entries@.take(i + 1).drop_last() =~= entries@.take(i as int));
            if entries[i].source == DomainSource::Overlay {
                let c = entries[i].config.clone();
                out.push(c);
                assert(out@.map_values(|c: SshDomainConfig| c@) =~= overlay_configs(entries@.take(i as int)).push(entries@[i as int].config@));
            }
            i += 1;
        }
        assert(entries@.take(entries@.len() as int) =~= entries@);
        out
    }
}

/// A domain added under a fresh name keeps the domain names distinct.
pub proof fn lemma_finalize_add_keeps_names_unique(a: OverlayState, b: OverlayState, name: Seq<char>)
    requires
        names_unique(a.domains.entries@),
        !has_domain_named(a.domains.entries@, name),
        added_domain(a, b, name),
    ensures
        names_unique(b.domains.entries@),
{
    let old_e = a.domains.entries@;
    let new_e = b.domains.entries@;
    assert forall|i: int, j: int| 0 <= i < j < new_e.len() implies (#[trigger] new_e[i]).config.name@ != (#[trigger] new_e[j]).config.name@ by {
        assert(new_e.drop_last()[i] == new_e[i]);
        if j < old_e.len() {
            assert(new_e.drop_last()[j] == new_e[j]);
        } else {
            assert(old_e[i] == new_e[i]);
        }
    }
}

/// A domain the overlay has just added is saved with the others: the
/// overlay domains afterwards are those before, then the new one.
pub proof fn lemma_added_domain_is_saved(a: OverlayState, b: OverlayState, name: Seq<char>)
    requires
        added_domain(a, b, name),
    ensures
        overlay_configs(b.domains.entries@) == overlay_configs(a.domains.entries@).push(b.domains.entries@.last().config@),
        overlay_configs(b.domains.entries@).last().name == name,
{
}

/// `name` starts with `prefix`.
pub open spec fn starts_with(name: Seq<char>, prefix: Seq<char>) -> bool {
    name.len() >= prefix.len() && name.take(prefix.len() as int) == prefix
}

pub(crate) fn starts_with_exec(name: &str, prefix: &str) -> (r: bool)
    ensures
        r == starts_with(name@, prefix@),
{
    let n = crate::text::chars_of(name);
    let p = crate::text::chars_of(prefix);
    if n.len() < p.len() {
        return false;
    }
    let mut i: usize = 0;
    while i < p.len()
        invariant
            i <= p@.len() <= n@.len(),
            n@ == name@,
            p@ == prefix@,
            forall|j: int| 0 <= j < i ==> n@[j] == p@[j],
        decreases p@.len() - i,
    {
        if n[i] != p[i] {
            assert(name@.take(prefix@.len() as int)[i as int] != prefix@[i as int]);
            return false;
        }
        i += 1;
    }
    assert(name@.take(prefix@.len() as int) =~= prefix@);
    true
}

pub(crate) fn clone_variants(v: &Vec<(String, String)>) -> (r: Vec<(String, String)>)
    ensures
        r@ == v@,
{
    let mut out: Vec<(String, String)> = Vec::new();
    let mut i: usize = 0;
    while i < v.len()
        invariant
            i <= v@.len(),
            out@ == v@.take(i as int),
        decreases v@.len() - i,
    {
        out.push((v[i].0.clone(), v[i].1.clone()));
        assert(out@ =~= v@.take(i + 1));
        i += 1;
    }
    assert(v@.take(v@.len() as int) =~= v@);
    out
}

/// Every part of the state but the domains and the dirty flag agrees.
pub open spec fn only_domains_changed(a: OverlayState, b: OverlayState) -> bool {
    &&& nav_same(a, b)
    &&& values_same(a, b)
    &&& popups_same(a, b)
}

/// What pressing Enter on a domain row does, case by case.
pub open spec fn domain_enter_done(a: OverlayState, b: OverlayState, row: SettingRowView) -> bool {
    let entries = a.domains.entries@;
    if row.domain_header is Some {
        // A header row folds or unfolds its domain.
        let idx = row.domain_header->0.domain_index as int;
        &&& b.domains.entries@ == entries.update(idx, DomainEntry { expanded: !entries[idx].expanded, ..entries[idx] })
        &&& b.domains.adding == a.domains.adding
        &&& b.domains.dirty == a.domains.dirty
        &&& b.dirty == a.dirty
        &&& only_domains_changed(a, b)
    } else if row.field_name == ADD_DOMAIN_FIELD_NAME@ {
        // The add row starts a new domain and asks for its name.
        &&& b.domains.adding matches Some(c) && c.name@.len() == 0 && c.remote_address@.len() == 0
            && c.username@.len() == 0 && c.multiplexing@ == "None"@ && c.ssh_backend@ == "LibSsh"@
            && !c.no_agent_auth && !c.connect_automatically
        &&& b.inline_edit matches Some(ed) && ed.field_name@ == NEW_DOMAIN_FIELD_NAME@ && ed.buffer@.len() == 0
            && ed.kind@ == FieldKindView::Text
        &&& b.domains.entries == a.domains.entries
        &&& b.domains.dirty == a.domains.dirty
        &&& b.dirty == a.dirty
        &&& nav_same(a, b)
        &&& values_same(a, b)
        &&& b.enum_picker == a.enum_picker
        &&& b.scheme_picker == a.scheme_picker
    } else if starts_with(row.field_name, DELETE_DOMAIN_FIELD_NAME@) {
        // A delete row removes its domain, if the overlay manages it.
        match row.domain_child {
            Some(i) if i < entries.len() && entries[i as int].source == DomainSource::Overlay => {
                &&& b.domains.entries@ == entries.remove(i as int)
                &&& b.domains.adding == a.domains.adding
                &&& b.domains.dirty
                &&& b.dirty
                &&& only_domains_changed(a, b)
            },
            _ => b == a,
        }
    } else {
        // A field row of an overlay-managed domain opens its editor.
        match (row.domain_child, spec_extract_domain_field_key(row.field_name)) {
            (Some(i), Some(key)) if i < entries.len() && entries[i as int].source == DomainSource::Overlay => {
                match row.kind {
                    FieldKindView::Bool => domain_field_set(
                        a,
                        b,
                        i as int,
                        key,
                        toggled_text(spec_domain_field_value(entries[i as int].config@, key)),
                    ),
                    FieldKindView::Enum(vs) => {
                        &&& b.enum_picker matches Some(p) && p.field_name@ == row.field_name
                            && crate::overlay_data::pairs_view(p.variants@) == vs
                            && p.selected == variant_index_from(vs, Some(row.current_value), 0)
                        &&& nav_same(a, b)
                        &&& values_same(a, b)
                        &&& b.inline_edit == a.inline_edit
                        &&& b.scheme_picker == a.scheme_picker
                        &&& b.domains == a.domains
                        &&& b.dirty == a.dirty
                    },
                    FieldKindView::ColorScheme => b == a,
                    _ => {
                        &&& b.inline_edit matches Some(ed) && ed.field_name@ == row.field_name
                            && ed.buffer@ == row.current_value && ed.kind@ == row.kind
                        &&& nav_same(a, b)
                        &&& values_same(a, b)
                        &&& b.enum_picker == a.enum_picker
                        &&& b.scheme_picker == a.scheme_picker
                        &&& b.domains == a.domains
                        &&& b.dirty == a.dirty
                    },
                }
            },
            _ => b == a,
        }
    }
}

impl OverlayState {
    /// Handle Enter on a domain-related row.
    pub fn handle_domain_enter(&mut self, row: &SettingRow)
        requires
            row.domain_header matches Some(h) ==> h.domain_index < old(self).domains.entries@.len(),
        ensures
            domain_enter_done(*old(self), *final(self), row@),
    {
        // Domain header: toggle expand/collapse
        if let Some(header) = &row.domain_header {
            let i = header.domain_index;
            let e = &self.domains.entries[i];
            let flipped = DomainEntry { config: e.config.clone(), source: e.source, expanded: !e.expanded };
            self.domains.entries.set(i, flipped);
            return;
        }
        // "Add SSH Domain..." action
        if str_eq(row.field_name.as_str(), ADD_DOMAIN_FIELD_NAME) {
            self.domains.adding = Some(SshDomainConfig::default());
            self.inline_edit = Some(InlineEdit {
                field_name: owned(NEW_DOMAIN_FIELD_NAME),
                buffer: String::new(),
                kind: FieldKind::Text,
            });
            return;
        }
        // "Delete Domain" action
        if starts_with_exec(row.field_name.as_str(), DELETE_DOMAIN_FIELD_NAME) {
            if let Some(domain_idx) = row.domain_child {
                if domain_idx < self.domains.entries.len()
                    && self.domains.entries[domain_idx].source == DomainSource::Overlay {
                    let _ = self.domains.entries.remove(domain_idx);
                    self.domains.dirty = true;
                    self.dirty = true;
                }
            }
            return;
        }
        // Domain child field (editable): open editor
        if let Some(domain_idx) = row.domain_child {
            if domain_idx < self.domains.entries.len()
                && self.domains.entries[domain_idx].source == DomainSource::Overlay {
                if let Some(field_key) = extract_domain_field_key(row.field_name.as_str()) {
                    match &row.kind {
                        FieldKind::Bool => {
                            self.toggle_domain_bool(domain_idx, field_key.as_str());
                        },
                        FieldKind::Enum(variants) => {
                            let current = Some(row.current_value.clone());
                            let selected = find_variant(variants, &current);
                            self.enum_picker = Some(EnumPicker {
                                field_name: row.field_name.clone(),
                                variants: clone_variants(variants),
                                selected,
                            });
                        },
                        FieldKind::Float | FieldKind::Integer | FieldKind::Text => {
                            self.inline_edit = Some(InlineEdit {
                                field_name: row.field_name.clone(),
                                buffer: row.current_value.clone(),
                                kind: row.kind.clone(),
                            });
                        },
                        FieldKind::ColorScheme => {
                            // Domain fields don't use color scheme picker
                        },
                    }
                }
            }
        }
    }
}

/// The indices, below `n`, of the schemes whose lower-cased name contains
/// `filter`; all of them when `filter` is empty.
pub open spec fn matching_schemes(schemes: Seq<String>, filter: Seq<char>, n: int) -> Seq<usize>
    decreases n,
{
    if n <= 0 {
        Seq::empty()
    } else {
        let rest = matching_schemes(schemes, filter, n - 1);
        if filter.len() == 0 || contains_seq(lowercase(schemes[n - 1]@), filter) {
            rest.push((n - 1) as usize)
        } else {
            rest
        }
    }
}

impl ColorSchemePicker {
    /// Recompute the schemes shown for the current filter and select the
    /// first one.
    pub fn refilter(&mut self)
        ensures
            final(self).filtered@ == matching_schemes(old(self).schemes@, lowercase(old(self).filter@), old(self).schemes@.len() as int),
            final(self).selected == 0,
            final(self).scroll_offset == 0,
            final(self).schemes == old(self).schemes,
            final(self).filter == old(self).filter,
    {
        let filter_lower = to_lowercase(self.filter.as_str());
        let mut filtered: Vec<usize> = Vec::new();
        let mut i: usize = 0;
        while i < self.schemes.len()
            invariant
                i <= self.schemes@.len(),
                filter_lower@ == lowercase(self.filter@),
                filtered@ == matching_schemes(self.schemes@, filter_lower@, i as int),
            decreases self.schemes@.len() - i,
        {
            if filter_lower.as_str().is_empty() || lower_contains(self.schemes[i].as_str(), &filter_lower) {
                filtered.push(i);
            }
            i += 1;
        }
        self.filtered = filtered;
        self.selected = 0;
        self.scroll_offset = 0;
    }
}

/// The first position, from `i` on, of a scheme named `name`, or 0.
pub open spec fn scheme_index_from(schemes: Seq<String>, name: Seq<char>, i: int) -> int
    decreases schemes.len() - i,
{
    if i >= schemes.len() {
        0
    } else if schemes[i]@ == name {
        i
    } else {
        scheme_index_from(schemes, name, i + 1)
    }
}

/// The scheme name the picker starts from: the `color_scheme` value the
/// overlay shows, when that is a string.
pub open spec fn current_scheme(st: OverlayState) -> Seq<char> {
    match current_value_of(st, "color_scheme"@) {
        Some(DynValue::String(s)) => s@,
        _ => Seq::empty(),
    }
}

/// The domains the overlay starts with: those from the Lua config, then
/// each saved domain whose name no earlier domain has.
pub open spec fn merged_domains(lua: Seq<DomainEntry>, saved: Seq<SshDomainConfig>) -> Seq<DomainEntry>
    decreases saved.len(),
{
    if saved.len() == 0 {
        lua
    } else {
        let prev = merged_domains(lua, saved.drop_last());
        if has_domain_named(prev, saved.last().name@) {
            prev
        } else {
            prev.push(DomainEntry { config: saved.last(), source: DomainSource::Overlay, expanded: false })
        }
    }
}

impl OverlayState {
    /// The overlay's starting state: the Settings panel of the first
    /// section, no filter, no popup, the saved proposals, and the Lua
    /// domains followed by the saved overlay domains whose names are new.
    pub fn new(
        effective_values: ValueMap,
        saved_proposals: ValueMap,
        saved_domains: Vec<SshDomainConfig>,
        lua_domains: Vec<DomainEntry>,
        field_defs: Vec<FieldDef>,
    ) -> (r: Self)
        ensures
            r.active_panel == Panel::Settings,
            r.sections@ == crate::overlay_data::sections_in_order(),
            r.selected_section == 0,
            r.selected_setting == 0,
            r.settings_scroll_offset == 0,
            r.filter@.len() == 0,
            !r.filter_active,
            r.proposals == saved_proposals,
            r.effective_values == effective_values,
            r.field_defs == field_defs,
            !r.dirty,
            r.inline_edit is None,
            r.enum_picker is None,
            r.scheme_picker is None,
            r.domains.entries@ == merged_domains(lua_domains@, saved_domains@),
            r.domains.adding is None,
            !r.domains.dirty,
    {
        let mut domains = DomainState { entries: lua_domains, adding: None, dirty: false };
        let ghost lua = domains.entries@;
        let mut i: usize = 0;
        while i < saved_domains.len()
            invariant
                i <= saved_domains@.len(),
                domains.entries@ == merged_domains(lua, saved_domains@.take(i as int)),
                domains.adding is None,
                !domains.dirty,
            decreases saved_domains@.len() - i,
        {
            assert(saved_domains@.take(i + 1).drop_last() =~= saved_domains@.take(i as int));
            let saved = &saved_domains[i];
            if !domains.contains_name(&saved.name) {
                domains.entries.push(DomainEntry { config: saved.clone(), source: DomainSource::Overlay, expanded: false });
            }
            i += 1;
        }
        assert(saved_domains@.take(saved_domains@.len() as int) =~= saved_domains@);
        OverlayState {
            active_panel: Panel::Settings,
            sections: crate::overlay_data::get_sections(),
            selected_section: 0,
            selected_setting: 0,
            settings_scroll_offset: 0,
            filter: String::new(),
            filter_active: false,
            proposals: saved_proposals,
            effective_values,
            field_defs,
            dirty: false,
            inline_edit: None,
            enum_picker: None,
            scheme_picker: None,
            domains,
        }
    }

    /// Open the color scheme picker popup on `schemes`, with the scheme the
    /// overlay currently shows selected (or the first one).
    pub fn open_scheme_picker(&mut self, schemes: Vec<String>)
        ensures
            final(self).scheme_picker matches Some(p) && p.schemes == schemes && p.filtered@ == Seq::new(
                schemes@.len(),
                |i: int| i as usize,
            ) && p.selected == scheme_index_from(schemes@, current_scheme(*old(self)), 0)
                && p.filter@.len() == 0 && p.scroll_offset == 0,
            nav_same(*old(self), *final(self)),
            values_same(*old(self), *final(self)),
            final(self).inline_edit == old(self).inline_edit,
            final(self).enum_picker == old(self).enum_picker,
            final(self).domains == old(self).domains,
            final(self).dirty == old(self).dirty,
    {
        let current: String = match self.current_value("color_scheme") {
            Some(DynValue::String(s)) => s.clone(),
            _ => String::new(),
        };
        proof {
            reveal_strlit("color_scheme");
        }
        let mut filtered: Vec<usize> = Vec::new();
        let mut i: usize = 0;
        while i < schemes.len()
            invariant
                i <= schemes@.len(),
                filtered@ == Seq::new(i as nat, |j: int| j as usize),
            decreases schemes@.len() - i,
        {
            filtered.push(i);
            assert(filtered@ =~= Seq::new((i + 1) as nat, |j: int| j as usize));
            i += 1;
        }
        let mut selected: usize = 0;
        let mut k: usize = 0;
        let mut found = false;
        while k < schemes.len() && !found
            invariant
                k <= schemes@.len(),
                found ==> k < schemes@.len() && selected == k && schemes@[k as int]@ == current@,
                !found ==> selected == 0,
                scheme_index_from(schemes@, current@, 0) == scheme_index_from(schemes@, current@, k as int),
            decreases schemes@.len() - k + (if found { 0int } else { 1int }),
        {
            if schemes[k] == current {
                selected = k;
                found = true;
            } else {
                k += 1;
            }
        }
        assert(current@ == current_scheme(*self));
        assert(selected == scheme_index_from(schemes@, current@, k as int));
        assert(filtered@ =~= Seq::new(schemes@.len(), |j: int| j as usize));
        self.scheme_picker = Some(ColorSchemePicker {
            schemes,
            filtered,
            selected,
            filter: String::new(),
            scroll_offset: 0,
        });
    }
}

/// Toggling a boolean field twice brings back the value it showed: after
/// two toggles its proposal is that boolean.
pub proof fn lemma_toggle_bool_twice(a: OverlayState, b: OverlayState, c: OverlayState, field: Seq<char>, x: bool)
    requires
        current_value_of(a, field) == Some(DynValue::Bool(x)),
        proposal_set(a, b, field, toggled_value(current_value_of(a, field))),
        proposal_set(b, c, field, toggled_value(current_value_of(b, field))),
    ensures
        lookup(c.proposals@, field) == Some(DynValue::Bool(x)),
        current_value_of(c, field) == Some(DynValue::Bool(x)),
{
}

/// Cycling an enum field forward and then back returns to the variant it
/// showed, when its variants have distinct names.
pub proof fn lemma_cycle_enum_round_trip(a: OverlayState, b: OverlayState, c: OverlayState, field: Seq<char>, v: Seq<char>, w: Seq<char>)
    requires
        cycled_variant(a, field, 1) == Some(v),
        proposal_set_text(a, b, field, v),
        cycled_variant(b, field, -1) == Some(w),
        proposal_set_text(b, c, field, w),
        ({
            let defs = defs_view(a.field_defs@);
            let di = def_index_from(defs, field, 0);
            di < defs.len() && (defs[di].kind matches FieldKindView::Enum(vs) && (forall|i: int, j: int|
                0 <= i < j < vs.len() ==> (#[trigger] vs[i]).0 != (#[trigger] vs[j]).0) && (exists|i: int|
                0 <= i < vs.len() && match current_value_of(a, field) {
                    Some(cv) => display_text(cv) == (#[trigger] vs[i]).0,
                    None => false,
                }))
        }),
    ensures
        ({
            let cv = current_value_of(a, field);
            cv matches Some(x) && w == display_text(x)
        }),
{
    let defs = defs_view(a.field_defs@);
    let di = def_index_from(defs, field, 0);
    let vs = defs[di].kind->Enum_0;
    let n = vs.len() as int;
    let i0 = choose|i: int| 0 <= i < vs.len() && match current_value_of(a, field) {
        Some(cv) => display_text(cv) == (#[trigger] vs[i]).0,
        None => false,
    };
    let x = current_value_of(a, field)->Some_0;
    lemma_variant_index_distinct(vs, i0, 0);
    assert(variant_index_from(vs, Some(display_text(x)), 0) == i0);
    let i1 = (i0 + 1) % n;
    assert(v == vs[i1].0);
    let t = choose|t: DynValue| #[trigger] proposal_set(a, b, field, t) && (t matches DynValue::String(s) && s@ == v);
    assert(current_value_of(b, field) == Some(t));
    assert(display_text(t) == v);
    assert(defs_view(b.field_defs@) == defs);
    lemma_variant_index_distinct(vs, i1, 0);
    assert(variant_index_from(vs, Some(v), 0) == i1);
    assert((i1 + n - 1) % n == i0) by (nonlinear_arith)
        requires
            0 <= i0 < n,
            i1 == (i0 + 1) % n,
    ;
}

proof fn lemma_variant_index_distinct(vs: Seq<(Seq<char>, Seq<char>)>, k: int, i: int)
    requires
        0 <= i <= k < vs.len(),
        forall|p: int, q: int| 0 <= p < q < vs.len() ==> (#[trigger] vs[p]).0 != (#[trigger] vs[q]).0,
    ensures
        variant_index_from(vs, Some(vs[k].0), i) == k,
    decreases k - i,
{
    if i < k {
        assert(vs[i].0 != vs[k].0);
        lemma_variant_index_distinct(vs, k, i + 1);
    }
}


/// The names of `defs`, in order.
pub open spec fn def_names(defs: Seq<FieldDef>) -> Seq<Seq<char>> {
    defs.map_values(|d: FieldDef| d.name@)
}

/// The values of the known settings that a configuration holds: under
/// each name of `defs` that the configuration object (`None` when the
/// configuration is not an object) has, its value there; nothing else.
fn extract_values_with(config_object: Option<&ValueMap>, defs: &Vec<FieldDef>) -> (r: ValueMap)
    ensures
        keys_unique(r@),
        forall|k: Seq<char>| #[trigger] lookup(r@, k) == match config_object {
            Some(obj) => if def_names(defs@).contains(k) { lookup(obj@, k) } else { None },
            None => None,
        },
{
    let mut out: ValueMap = Vec::new();
    let obj = match config_object {
        Some(o) => o,
        None => {
            assert forall|k: Seq<char>| #[trigger] lookup(out@, k) == None::<DynValue> by {
                assert(key_index_from(out@, k, 0) == 0);
            }
            return out;
        },
    };
    assert forall|k: Seq<char>| #[trigger] lookup(out@, k) == None::<DynValue> by {
        assert(key_index_from(out@, k, 0) == 0);
    }
    for i in 0..defs.len()
        invariant
            keys_unique(out@),
            forall|k: Seq<char>| #[trigger] lookup(out@, k) == if def_names(defs@).take(i as int).contains(k) {
                lookup(obj@, k)
            } else {
                None
            },
    {
        let name = defs[i].name;
        let ghost before = out@;
        let ghost names_i = def_names(defs@).take(i as int);
        let ghost names_next = def_names(defs@).take(i + 1);
        assert(names_next =~= names_i.push(name@));
        match lookup_value(obj, name) {
            Some(v) => {
                map_insert(&mut out, name, v.clone());
                assert forall|k: Seq<char>| #[trigger] lookup(out@, k) == if names_next.contains(k) {
                    lookup(obj@, k)
                } else {
                    None
                } by {
                    if k == name@ {
                        assert(names_next[i as int] == k);
                    } else {
                        assert(lookup(out@, k) == lookup(before, k));
                        if names_next.contains(k) {
                            let j = choose|j: int| 0 <= j < names_next.len() && names_next[j] == k;
                            assert(j < i);
                            assert(names_i[j] == k);
                        }
                        if names_i.contains(k) {
                            let j = choose|j: int| 0 <= j < names_i.len() && names_i[j] == k;
                            assert(names_next[j] == k);
                        }
                    }
                }
            },
            None => {
                assert forall|k: Seq<char>| #[trigger] lookup(out@, k) == if names_next.contains(k) {
                    lookup(obj@, k)
                } else {
                    None
                } by {
                    if k == name@ {
                        assert(names_next[i as int] == k);
                        if names_i.contains(k) {
                            assert(lookup(out@, k) == lookup(obj@, k));
                        }
                    } else {
                        if names_next.contains(k) {
                            let j = choose|j: int| 0 <= j < names_next.len() && names_next[j] == k;
                            assert(j < i);
                            assert(names_i[j] == k);
                        }
                        if names_i.contains(k) {
                            let j = choose|j: int| 0 <= j < names_i.len() && names_i[j] == k;
                            assert(names_next[j] == k);
                        }
                    }
                }
            },
        }
    }
    assert(def_names(defs@).take(defs@.len() as int) =~= def_names(defs@));
    out
}

/// The values of the supported settings that a configuration object holds
/// (`None` when the configuration is not an object).
pub fn extract_values(config_object: Option<&ValueMap>) -> (r: ValueMap)
    ensures
        keys_unique(r@),
        forall|k: Seq<char>| #[trigger] lookup(r@, k) == match config_object {
            Some(obj) => if field_names().contains(k) { lookup(obj@, k) } else { None },
            None => None,
        },
{
    let defs = get_field_defs();
    proof {
        assert(def_names(defs@) =~= field_names());
    }
    extract_values_with(config_object, &defs)
}

/// The names of the supported settings.
pub open spec fn field_names() -> Seq<Seq<char>> {
    crate::overlay_data::field_defs_table().map_values(|d: FieldDefView| d.name)
}

proof fn lemma_field_rows_filter(
    defs: Seq<FieldDefView>,
    section: Section,
    filter: Seq<char>,
    proposals: Seq<(String, DynValue)>,
    effective: Seq<(String, DynValue)>,
)
    ensures
        field_rows(defs, section, filter, proposals, effective) == defs.filter(
            |f: FieldDefView|
                f.section == section && (filter.len() == 0 || contains_seq(lowercase(f.display_name), filter)
                    || contains_seq(lowercase(f.name), filter)),
        ).map_values(|f: FieldDefView| field_row(f, proposals, effective)),
    decreases defs.len(),
{
    reveal(Seq::filter);
    let pred = |f: FieldDefView|
        f.section == section && (filter.len() == 0 || contains_seq(lowercase(f.display_name), filter)
            || contains_seq(lowercase(f.name), filter));
    let row = |f: FieldDefView| field_row(f, proposals, effective);
    if defs.len() > 0 {
        lemma_field_rows_filter(defs.drop_last(), section, filter, proposals, effective);
        let rest = defs.drop_last().filter(pred);
        assert(defs.filter(pred) == (if pred(defs.last()) {
            rest.push(defs.last())
        } else {
            rest
        }));
        assert(pred(defs.last()) == field_shown(defs.last(), section, filter));
        assert(rest.push(defs.last()).map_values(row) =~= rest.map_values(row).push(row(defs.last())));
    } else {
        assert(defs.filter(pred).map_values(row) =~= Seq::<SettingRowView>::empty());
    }
}

/// The settings panel lists, first and in the order of the field
/// definitions, the row of each field of the current section whose
/// lower-cased display name or lower-cased config key contains the
/// lower-cased filter (every field of the section when the filter is
/// empty); outside the SSH section these are all its rows.
pub proof fn lemma_visible_settings_match_name_or_key(st: OverlayState)
    requires
        st.selected_section < st.sections@.len(),
    ensures
        ({
            let section = st.sections@[st.selected_section as int];
            let filter = lowercase(st.filter@);
            let shown = defs_view(st.field_defs@).filter(
                |f: FieldDefView|
                    f.section == section && (filter.len() == 0 || contains_seq(lowercase(f.display_name), filter)
                        || contains_seq(lowercase(f.name), filter)),
            );
            let rows = shown.map_values(|f: FieldDefView| field_row(f, st.proposals@, st.effective_values@));
            &&& spec_visible_settings(st).len() >= rows.len()
            &&& spec_visible_settings(st).take(rows.len() as int) == rows
            &&& forall|j: int| 0 <= j < rows.len() ==> (#[trigger] spec_visible_settings(st)[j]).field_name == shown[j].name
            &&& section != Section::SshAndDomains ==> spec_visible_settings(st) == rows
        }),
{
    let section = st.sections@[st.selected_section as int];
    let filter = lowercase(st.filter@);
    lemma_field_rows_filter(defs_view(st.field_defs@), section, filter, st.proposals@, st.effective_values@);
    let base = field_rows(defs_view(st.field_defs@), section, filter, st.proposals@, st.effective_values@);
    if section == Section::SshAndDomains {
        let add = if filter.len() == 0 || contains_seq("add ssh domain"@, filter) {
            seq![add_domain_row()]
        } else {
            Seq::empty()
        };
        let all = base + domain_rows(st.domains.entries@, filter) + add;
        assert(all.take(base.len() as int) =~= base);
        assert forall|j: int| 0 <= j < base.len() implies #[trigger] all[j] == base[j] by {}
    }
}

/// Row `j` of `rows` is the header of domain `idx`.
pub open spec fn is_header_of(rows: Seq<SettingRowView>, j: int, idx: int) -> bool {
    &&& 0 <= j < rows.len()
    &&& rows[j].domain_header is Some
    &&& rows[j].domain_header->0.domain_index == idx
}

proof fn lemma_group_headers(idx: nat, e: DomainEntry)
    requires
        idx <= usize::MAX,
    ensures
        domain_group_rows(idx, e).len() >= 1,
        is_header_of(domain_group_rows(idx, e), 0, idx as int),
        forall|j: int| 0 < j < domain_group_rows(idx, e).len() ==> (#[trigger] domain_group_rows(idx, e)[j]).domain_header is None,
{
    let g = domain_group_rows(idx, e);
    if e.expanded {
        let children = domain_field_table().map_values(
            |d: (Seq<char>, Seq<char>, FieldKindView, Seq<char>)| domain_child_row(idx, e, d),
        );
        assert forall|j: int| 0 < j < g.len() implies (#[trigger] g[j]).domain_header is None by {
            if j <= children.len() {
                assert(g[j] == children[j - 1]);
            }
        }
    }
}

/// Under the lower-cased filter, the header of SSH domain `idx` is listed
/// exactly when the filter is empty or occurs in the domain's lower-cased
/// name or lower-cased remote address; no other domain index has a header.
pub proof fn lemma_domain_headers_match_name_or_address(entries: Seq<DomainEntry>, filter: Seq<char>, idx: int)
    requires
        entries.len() <= usize::MAX,
        0 <= idx < entries.len(),
    ensures
        (exists|j: int| #[trigger] is_header_of(domain_rows(entries, filter), j, idx)) <==> (filter.len() == 0
            || contains_seq(lowercase(entries[idx].config.name@), filter) || contains_seq(
            lowercase(entries[idx].config.remote_address@),
            filter,
        )),
    decreases entries.len(),
{
    lemma_domain_header_range(entries, filter);
    let rows = domain_rows(entries, filter);
    let last = entries.len() - 1;
    let rest = domain_rows(entries.drop_last(), filter);
    let shown = domain_shown(entries.last(), filter);
    if shown {
        lemma_group_headers(last as nat, entries.last());
    }
    let g = domain_group_rows(last as nat, entries.last());
    if idx < last {
        lemma_domain_headers_match_name_or_address(entries.drop_last(), filter, idx);
        assert(entries.drop_last()[idx] == entries[idx]);
        if shown {
            assert(rows == rest + g);
            if exists|j: int| is_header_of(rows, j, idx) {
                let j = choose|j: int| is_header_of(rows, j, idx);
                if j >= rest.len() {
                    assert(rows[j] == g[j - rest.len()]);
                }
                assert(is_header_of(rest, j, idx));
            }
            if exists|j: int| is_header_of(rest, j, idx) {
                let j = choose|j: int| is_header_of(rest, j, idx);
                assert(rows[j] == rest[j]);
                assert(is_header_of(rows, j, idx));
            }
        }
    } else {
        lemma_domain_header_range(entries.drop_last(), filter);
        if shown {
            assert(rows == rest + g);
            assert(rows[rest.len() as int] == g[0]);
            assert(is_header_of(rows, rest.len() as int, idx));
        } else {
            assert(rows == rest);
            if exists|j: int| is_header_of(rows, j, idx) {
                let j = choose|j: int| is_header_of(rows, j, idx);
                assert(rest[j].domain_header->0.domain_index < last);
            }
        }
    }
}

/// Every domain header listed names a domain of `entries`.
proof fn lemma_domain_header_range(entries: Seq<DomainEntry>, filter: Seq<char>)
    requires
        entries.len() <= usize::MAX,
    ensures
        forall|j: int|
            0 <= j < domain_rows(entries, filter).len() && (#[trigger] domain_rows(entries, filter)[j]).domain_header
                is Some ==> domain_rows(entries, filter)[j].domain_header->0.domain_index < entries.len(),
    decreases entries.len(),
{
    if entries.len() > 0 {
        let last = entries.len() - 1;
        lemma_domain_header_range(entries.drop_last(), filter);
        let rest = domain_rows(entries.drop_last(), filter);
        if domain_shown(entries.last(), filter) {
            lemma_group_headers(last as nat, entries.last());
            let g = domain_group_rows(last as nat, entries.last());
            let rows = rest + g;
            assert forall|j: int| 0 <= j < rows.len() && (#[trigger] rows[j]).domain_header is Some implies rows[j].domain_header->0.domain_index < entries.len() by {
                if j >= rest.len() {
                    assert(rows[j] == g[j - rest.len()]);
                } else {
                    assert(rows[j] == rest[j]);
                }
            }
        }
    }
}

} // verus!
