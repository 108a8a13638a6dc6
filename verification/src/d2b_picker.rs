//! The d2b session picker: its entries, and how it answers keys and the
//! mouse wheel. Discovering targets, validating shell names, computing the
//! quick-select labels and drawing are the caller's.
use vstd::prelude::*;

use crate::input::{Key, KeyPress, Mods};
use crate::text::{chars_of, push_char, push_str_chars, str_eq};
use crate::overlay_view::{repeated, utf8_len, byte_len};
use crate::text_order::{text_order, text_order_of, texts};

verus! {

/// The characters that select an entry by its label.
pub const ALPHABET: &'static str = "1234567890abcdefghilmnopqrstuvwxyz";

/// What choosing an entry does.
#[derive(Debug, PartialEq, Eq)]
pub enum EntryAction {
    Open { domain: String, name: String },
    Manual { domain: String, default_name: String },
    Disabled,
}

/// A line of the picker.
#[derive(Debug, PartialEq, Eq)]
pub struct Entry {
    pub label: String,
    pub disabled: bool,
    pub action: EntryAction,
}

/// Whether the picker offers every target, or one target's shells.
#[derive(Debug, Clone, Copy, PartialEq, Eq, Structural)]
pub enum PickerKind {
    AllTargets,
    CurrentTarget,
}

/// Picking an entry, or typing the name of a new shell.
#[derive(Debug, PartialEq, Eq)]
pub enum Mode {
    Pick,
    Prompt { domain: String, input: String, error: Option<String> },
}

/// The picker's state.
#[derive(Debug)]
pub struct D2bPicker {
    pub kind: PickerKind,
    pub entries: Vec<Entry>,
    pub active_idx: usize,
    pub top_row: usize,
    pub max_items: usize,
    /// Quick-select labels of the visible entries, in order.
    pub labels: Vec<String>,
    /// What has been typed of a label; `__done__` once the picker is done.
    pub selection: String,
    pub mode: Mode,
}

/// An input event of the picker.
#[derive(Debug, Clone, Copy, PartialEq, Eq, Structural)]
pub enum PickerInput {
    Key(KeyPress),
    /// A vertical wheel turn (`up` towards the top) with the pointer on
    /// row `y`.
    Wheel { up: bool, y: u16 },
    Other,
}

/// What the caller must do after an event.
#[derive(Debug, PartialEq, Eq)]
pub enum PickerAction {
    Nothing,
    /// Open the named shell of the domain.
    Open { domain: String, name: String },
}

/// An action as plain values.
pub enum ActionView {
    Open(Seq<char>, Seq<char>),
    Manual(Seq<char>, Seq<char>),
    Disabled,
}

pub open spec fn action_view(a: EntryAction) -> ActionView {
    match a {
        EntryAction::Open { domain, name } => ActionView::Open(domain@, name@),
        EntryAction::Manual { domain, default_name } => ActionView::Manual(domain@, default_name@),
        EntryAction::Disabled => ActionView::Disabled,
    }
}

/// A mode as plain values.
pub enum ModeView {
    Pick,
    Prompt(Seq<char>, Seq<char>, Option<Seq<char>>),
}

pub open spec fn mode_view(m: Mode) -> ModeView {
    match m {
        Mode::Pick => ModeView::Pick,
        Mode::Prompt { domain, input, error } => ModeView::Prompt(domain@, input@, match error {
            Some(e) => Some(e@),
            None => None,
        }),
    }
}

/// The picker as plain values.
pub struct PickerView {
    pub kind: PickerKind,
    pub entries: Seq<(Seq<char>, bool, ActionView)>,
    pub active_idx: int,
    pub top_row: int,
    pub max_items: int,
    pub labels: Seq<Seq<char>>,
    pub selection: Seq<char>,
    pub mode: ModeView,
}

pub open spec fn entries_view(v: Seq<Entry>) -> Seq<(Seq<char>, bool, ActionView)> {
    v.map_values(|e: Entry| (e.label@, e.disabled, action_view(e.action)))
}

pub open spec fn labels_view(v: Seq<String>) -> Seq<Seq<char>> {
    v.map_values(|s: String| s@)
}

impl View for D2bPicker {
    type V = PickerView;

    open spec fn view(&self) -> PickerView {
        PickerView {
            kind: self.kind,
            entries: entries_view(self.entries@),
            active_idx: self.active_idx as int,
            top_row: self.top_row as int,
            max_items: self.max_items as int,
            labels: labels_view(self.labels@),
            selection: self.selection@,
            mode: mode_view(self.mode),
        }
    }
}

/// An action of the caller as plain values: `None` for nothing.
pub open spec fn picker_action_view(a: PickerAction) -> Option<(Seq<char>, Seq<char>)> {
    match a {
        PickerAction::Nothing => None,
        PickerAction::Open { domain, name } => Some((domain@, name@)),
    }
}

/// The sizes stay far from `usize::MAX`, so that moving never overflows.
pub open spec fn picker_ok(s: PickerView) -> bool {
    &&& s.entries.len() <= usize::MAX / 4
    &&& s.labels.len() <= usize::MAX / 4
    &&& 0 <= s.top_row <= usize::MAX / 4
    &&& 0 <= s.max_items <= usize::MAX / 4
    &&& 0 <= s.active_idx <= usize::MAX / 2
}

/// The selection that marks the picker done.
pub open spec fn done_marker() -> Seq<char> {
    "__done__"@
}

/// Choosing entry `i`: an open entry opens its shell (and the picker is
/// done), a manual entry asks for a name, anything else does nothing.
pub open spec fn spec_launch(s: PickerView, i: int) -> (PickerView, Option<(Seq<char>, Seq<char>)>, bool) {
    if 0 <= i < s.entries.len() {
        match s.entries[i].2 {
            ActionView::Open(d, n) => (s, Some((d, n)), true),
            ActionView::Manual(d, n) => (PickerView { mode: ModeView::Prompt(d, n, None), ..s }, None, false),
            ActionView::Disabled => (s, None, false),
        }
    } else {
        (s, None, false)
    }
}

/// After a launch: done when it opened a shell.
pub open spec fn launched(s: PickerView, i: int) -> (PickerView, Option<(Seq<char>, Seq<char>)>) {
    let (t, a, ok) = spec_launch(s, i);
    (if ok { PickerView { selection: done_marker(), ..t } } else { t }, a)
}

pub open spec fn spec_move_up(s: PickerView) -> PickerView {
    let a = if s.active_idx >= 1 { s.active_idx - 1 } else { 0 };
    PickerView { active_idx: a, top_row: if a < s.top_row { a } else { s.top_row }, ..s }
}

pub open spec fn spec_move_down(s: PickerView) -> PickerView {
    if s.entries.len() == 0 {
        s
    } else {
        let a = if s.active_idx + 1 <= s.entries.len() - 1 { s.active_idx + 1 } else { s.entries.len() - 1 };
        let t = if a > s.top_row + s.max_items { if a >= s.max_items { a - s.max_items } else { 0 } } else { s.top_row };
        PickerView { active_idx: a, top_row: t, ..s }
    }
}

/// The first label equal to `sel`.
pub open spec fn label_position(labels: Seq<Seq<char>>, sel: Seq<char>) -> Option<int> {
    if exists|p: int| 0 <= p < labels.len() && labels[p] == sel {
        Some(choose|p: int| 0 <= p < labels.len() && labels[p] == sel && forall|q: int| 0 <= q < p ==> labels[q] != sel)
    } else {
        None
    }
}

/// How the picker answers an event in pick mode.
pub open spec fn spec_pick_event(s: PickerView, ev: PickerInput) -> (PickerView, Option<(Seq<char>, Seq<char>)>) {
    match ev {
        PickerInput::Key(k) => match k.key {
            Key::Char(c) if k.mods == Mods::Plain && ALPHABET@.contains(c) => {
                let sel = s.selection.push(c);
                let s1 = PickerView { selection: sel, ..s };
                match label_position(s.labels, sel) {
                    Some(p) => launched(PickerView { active_idx: s.top_row + p, ..s1 }, s.top_row + p),
                    None => (s1, None),
                }
            },
            Key::Char('n') => {
                if 0 <= s.active_idx < s.entries.len() {
                    match s.entries[s.active_idx].2 {
                        ActionView::Manual(d, n) => (PickerView { mode: ModeView::Prompt(d, n, None), ..s }, None),
                        _ => (s, None),
                    }
                } else {
                    (s, None)
                }
            },
            Key::Char('j') | Key::DownArrow => (spec_move_down(s), None),
            Key::Char('k') | Key::UpArrow => (spec_move_up(s), None),
            Key::Enter => launched(s, s.active_idx),
            Key::Escape => (PickerView { selection: done_marker(), ..s }, None),
            Key::Char(c) if k.mods == Mods::Ctrl && (c == 'G' || c == '[') => (PickerView { selection: done_marker(), ..s }, None),
            _ => (s, None),
        },
        PickerInput::Wheel { up, y } => {
            let t = if up {
                if s.top_row >= 1 { s.top_row - 1 } else { 0 }
            } else {
                let bound = if s.entries.len() >= s.max_items + 1 { s.entries.len() - s.max_items - 1 } else { 0 };
                if s.top_row + 1 <= bound { s.top_row + 1 } else { bound }
            };
            let a = if y > 0 && y <= s.entries.len() { t + y - 1 } else { s.active_idx };
            (PickerView { top_row: t, active_idx: a, ..s }, None)
        },
        PickerInput::Other => (s, None),
    }
}

/// How the picker answers an event while a name is typed: Escape goes
/// back, Backspace deletes, Enter opens the shell when the name is valid
/// (`validation`, the verdict on the typed name) and shows why not
/// otherwise, a character is typed; anything else clears the error.
pub open spec fn spec_prompt_event(
    s: PickerView,
    domain: Seq<char>,
    input: Seq<char>,
    ev: PickerInput,
    validation: Result<(), Seq<char>>,
) -> (PickerView, Option<(Seq<char>, Seq<char>)>) {
    match ev {
        PickerInput::Key(k) => match k.key {
            Key::Escape => (PickerView { mode: ModeView::Pick, ..s }, None),
            Key::Backspace => (
                PickerView {
                    mode: ModeView::Prompt(domain, if input.len() > 0 { input.drop_last() } else { input }, None),
                    ..s
                },
                None,
            ),
            Key::Enter => match validation {
                Ok(()) => (PickerView { mode: ModeView::Pick, selection: done_marker(), ..s }, Some((domain, input))),
                Err(e) => (PickerView { mode: ModeView::Prompt(domain, input, Some(e)), ..s }, None),
            },
            Key::Char(c) => (PickerView { mode: ModeView::Prompt(domain, input.push(c), None), ..s }, None),
            _ => (PickerView { mode: ModeView::Prompt(domain, input, None), ..s }, None),
        },
        _ => (PickerView { mode: ModeView::Prompt(domain, input, None), ..s }, None),
    }
}

/// One event: in pick mode as `spec_pick_event`, while naming as
/// `spec_prompt_event`.
pub open spec fn spec_event(s: PickerView, ev: PickerInput, validation: Result<(), Seq<char>>) -> (PickerView, Option<(Seq<char>, Seq<char>)>) {
    match s.mode {
        ModeView::Pick => spec_pick_event(s, ev),
        ModeView::Prompt(d, i, _) => spec_prompt_event(s, d, i, ev, validation),
    }
}

proof fn lemma_label_position(labels: Seq<Seq<char>>, sel: Seq<char>)
    ensures
        match label_position(labels, sel) {
            Some(p) => 0 <= p < labels.len() && labels[p] == sel,
            None => true,
        },
{
    if exists|p: int| 0 <= p < labels.len() && labels[p] == sel {
        let w = choose|p: int| 0 <= p < labels.len() && labels[p] == sel;
        lemma_first_match(labels, sel, w);
    }
}

proof fn lemma_first_match(labels: Seq<Seq<char>>, sel: Seq<char>, w: int)
    requires
        0 <= w < labels.len(),
        labels[w] == sel,
    ensures
        exists|p: int| 0 <= p < labels.len() && labels[p] == sel && forall|q: int| 0 <= q < p ==> labels[q] != sel,
    decreases w,
{
    if exists|q: int| 0 <= q < w && labels[q] == sel {
        let q = choose|q: int| 0 <= q < w && labels[q] == sel;
        lemma_first_match(labels, sel, q);
    } else {
        assert(forall|q: int| 0 <= q < w ==> labels[q] != sel);
    }
}

proof fn lemma_launched_ok(s: PickerView, i: int)
    requires
        picker_ok(s),
    ensures
        picker_ok(launched(s, i).0),
{
}

/// Every event keeps the picker's sizes in range.
proof fn lemma_pick_event_ok(s: PickerView, ev: PickerInput)
    requires
        picker_ok(s),
    ensures
        picker_ok(spec_pick_event(s, ev).0),
{
    match ev {
        PickerInput::Key(k) => {
            match k.key {
                Key::Char(c) => {
                    if k.mods == Mods::Plain && ALPHABET@.contains(c) {
                        let sel = s.selection.push(c);
                        lemma_label_position(s.labels, sel);
                        match label_position(s.labels, sel) {
                            Some(p) => {
                                let s2 = PickerView { active_idx: s.top_row + p, selection: sel, ..s };
                                assert(picker_ok(s2));
                                lemma_launched_ok(s2, s.top_row + p);
                            },
                            None => {},
                        }
                    }
                },
                Key::Enter => {
                    lemma_launched_ok(s, s.active_idx);
                },
                _ => {},
            }
        },
        _ => {},
    }
}

fn done_string() -> (r: String)
    ensures
        r@ == done_marker(),
{
    "__done__".to_owned()
}

fn alphabet_contains(c: char) -> (r: bool)
    ensures
        r == ALPHABET@.contains(c),
{
    let cs = crate::text::chars_of(ALPHABET);
    let mut i: usize = 0;
    while i < cs.len()
        invariant
            i <= cs@.len(),
            cs@ == ALPHABET@,
            forall|q: int| 0 <= q < i ==> cs@[q] != c,
        decreases cs@.len() - i,
    {
        if cs[i] == c {
            assert(ALPHABET@[i as int] == c);
            return true;
        }
        i += 1;
    }
    false
}

impl D2bPicker {
    /// A picker over `entries`, on the first entry, with no labels yet.
    pub fn new(entries: Vec<Entry>, kind: PickerKind) -> (r: D2bPicker)
        ensures
            r@.entries == entries_view(entries@),
            r.kind == kind,
            r.active_idx == 0,
            r.top_row == 0,
            r.max_items == 0,
            r.labels@.len() == 0,
            r.selection@ == Seq::<char>::empty(),
            r.mode == Mode::Pick,
    {
        D2bPicker {
            kind,
            entries,
            active_idx: 0,
            top_row: 0,
            max_items: 0,
            labels: Vec::new(),
            selection: String::new(),
            mode: Mode::Pick,
        }
    }

    /// Whether the picker is done: back in pick mode with the done marker.
    pub fn is_done(&self) -> (r: bool)
        ensures
            r == (self@.mode is Pick && self.selection@ == done_marker()),
    {
        match self.mode {
            Mode::Pick => str_eq(self.selection.as_str(), "__done__"),
            _ => false,
        }
    }

    fn launch(&mut self, active_idx: usize) -> (r: (PickerAction, bool))
        ensures
            ({
                let (t, a, ok) = spec_launch(old(self)@, active_idx as int);
                &&& final(self)@ == t
                &&& picker_action_view(r.0) == a
                &&& r.1 == ok
            }),
            final(self).kind == old(self).kind,
    {
        if active_idx >= self.entries.len() {
            return (PickerAction::Nothing, false);
        }
        match &self.entries[active_idx].action {
            EntryAction::Open { domain, name } => {
                (PickerAction::Open { domain: domain.clone(), name: name.clone() }, true)
            },
            EntryAction::Manual { domain, default_name } => {
                let d = domain.clone();
                let n = default_name.clone();
                self.mode = Mode::Prompt { domain: d, input: n, error: None };
                (PickerAction::Nothing, false)
            },
            EntryAction::Disabled => (PickerAction::Nothing, false),
        }
    }

    fn launch_and_finish(&mut self, active_idx: usize) -> (r: PickerAction)
        ensures
            ({
                let (t, a) = launched(old(self)@, active_idx as int);
                &&& final(self)@ == t
                &&& picker_action_view(r) == a
            }),
            final(self).kind == old(self).kind,
    {
        let (a, ok) = self.launch(active_idx);
        if ok {
            self.selection = done_string();
        }
        a
    }

    fn move_up(&mut self)
        ensures
            final(self)@ == spec_move_up(old(self)@),
    {
        self.active_idx = self.active_idx.saturating_sub(1);
        if self.active_idx < self.top_row {
            self.top_row = self.active_idx;
        }
    }

    fn move_down(&mut self)
        requires
            picker_ok(old(self)@),
        ensures
            final(self)@ == spec_move_down(old(self)@),
    {
        if self.entries.len() == 0 {
            return;
        }
        let last = self.entries.len() - 1;
        self.active_idx = if self.active_idx + 1 <= last { self.active_idx + 1 } else { last };
        if self.active_idx > self.top_row + self.max_items {
            self.top_row = self.active_idx.saturating_sub(self.max_items);
        }
    }

    fn find_label(&self) -> (r: Option<usize>)
        ensures
            match r {
                Some(p) => label_position(self@.labels, self.selection@) == Some(p as int) && p < self.labels@.len(),
                None => label_position(self@.labels, self.selection@) is None,
            },
    {
        let ghost lv = labels_view(self.labels@);
        let mut p: usize = 0;
        while p < self.labels.len()
            invariant
                p <= self.labels@.len(),
                lv == labels_view(self.labels@),
                forall|q: int| 0 <= q < p ==> lv[q] != self.selection@,
            decreases self.labels@.len() - p,
        {
            if str_eq(self.labels[p].as_str(), self.selection.as_str()) {
                assert(lv[p as int] == self.selection@);
                let ghost w = choose|w: int| 0 <= w < lv.len() && lv[w] == self.selection@ && forall|q: int| 0 <= q < w ==> lv[q] != self.selection@;
                assert(0 <= p < lv.len() && lv[p as int] == self.selection@ && forall|q: int| 0 <= q < p ==> lv[q] != self.selection@);
                assert(w == p as int) by {
                    if w < p as int {
                        assert(lv[w] != self.selection@);
                    } else if w > p as int {
                        assert(lv[p as int] != self.selection@);
                    }
                }
                return Some(p);
            }
            p += 1;
        }
        None
    }

    fn pick_event(&mut self, ev: PickerInput) -> (r: PickerAction)
        requires
            picker_ok(old(self)@),
        ensures
            ({
                let (t, a) = spec_pick_event(old(self)@, ev);
                &&& final(self)@ == t
                &&& picker_action_view(r) == a
            }),
    {
        match ev {
            PickerInput::Key(k) => {
                match k.key {
                    Key::Char(c) => {
                        if k.mods == Mods::Plain && alphabet_contains(c) {
                            push_char(&mut self.selection, c);
                            match self.find_label() {
                                Some(pos) => {
                                    self.active_idx = self.top_row + pos;
                                    let i = self.active_idx;
                                    return self.launch_and_finish(i);
                                },
                                None => return PickerAction::Nothing,
                            }
                        }
                        if c == 'n' {
                            if self.active_idx < self.entries.len() {
                                let next = match &self.entries[self.active_idx].action {
                                    EntryAction::Manual { domain, default_name } => Some(
                                        Mode::Prompt { domain: domain.clone(), input: default_name.clone(), error: None },
                                    ),
                                    _ => None,
                                };
                                if let Some(m) = next {
                                    self.mode = m;
                                }
                            }
                            PickerAction::Nothing
                        } else if c == 'j' {
                            self.move_down();
                            PickerAction::Nothing
                        } else if c == 'k' {
                            self.move_up();
                            PickerAction::Nothing
                        } else if k.mods == Mods::Ctrl && (c == 'G' || c == '[') {
                            self.selection = done_string();
                            PickerAction::Nothing
                        } else {
                            PickerAction::Nothing
                        }
                    },
                    Key::DownArrow => {
                        self.move_down();
                        PickerAction::Nothing
                    },
                    Key::UpArrow => {
                        self.move_up();
                        PickerAction::Nothing
                    },
                    Key::Enter => {
                        let i = self.active_idx;
                        self.launch_and_finish(i)
                    },
                    Key::Escape => {
                        self.selection = done_string();
                        PickerAction::Nothing
                    },
                    _ => PickerAction::Nothing,
                }
            },
            PickerInput::Wheel { up, y } => {
                if up {
                    self.top_row = self.top_row.saturating_sub(1);
                } else {
                    let bound = self.entries.len().saturating_sub(self.max_items).saturating_sub(1);
                    self.top_row = if self.top_row + 1 <= bound { self.top_row + 1 } else { bound };
                }
                if y > 0 && (y as usize) <= self.entries.len() {
                    self.active_idx = self.top_row + y as usize - 1;
                }
                PickerAction::Nothing
            },
            PickerInput::Other => PickerAction::Nothing,
        }
    }

    /// Answers one input event. `validation` is the verdict on the name
    /// being typed (it is only read when Enter confirms a name). Returns
    /// the shell to open, if any.
    pub fn handle_event(&mut self, ev: PickerInput, validation: Result<(), String>) -> (r: PickerAction)
        requires
            picker_ok(old(self)@),
        ensures
            ({
                let (t, a) = spec_event(old(self)@, ev, match validation {
                    Ok(()) => Ok(()),
                    Err(e) => Err(e@),
                });
                &&& final(self)@ == t
                &&& picker_action_view(r) == a
            }),
            picker_ok(final(self)@),
    {
        let pick = match self.mode {
            Mode::Pick => true,
            _ => false,
        };
        if pick {
            proof {
                lemma_pick_event_ok(old(self)@, ev);
            }
            return self.pick_event(ev);
        }
        let mut next_input = String::new();
        let mut domain = String::new();
        if let Mode::Prompt { domain: d, input, .. } = &self.mode {
            domain = d.clone();
            next_input = input.clone();
        }
        match ev {
            PickerInput::Key(k) => match k.key {
                Key::Escape => {
                    self.mode = Mode::Pick;
                    PickerAction::Nothing
                },
                Key::Backspace => {
                    crate::text::pop_char(&mut next_input);
                    self.mode = Mode::Prompt { domain, input: next_input, error: None };
                    PickerAction::Nothing
                },
                Key::Enter => match validation {
                    Ok(()) => {
                        self.mode = Mode::Pick;
                        self.selection = done_string();
                        PickerAction::Open { domain, name: next_input }
                    },
                    Err(e) => {
                        self.mode = Mode::Prompt { domain, input: next_input, error: Some(e) };
                        PickerAction::Nothing
                    },
                },
                Key::Char(c) => {
                    push_char(&mut next_input, c);
                    self.mode = Mode::Prompt { domain, input: next_input, error: None };
                    PickerAction::Nothing
                },
                _ => {
                    self.mode = Mode::Prompt { domain, input: next_input, error: None };
                    PickerAction::Nothing
                },
            },
            _ => {
                self.mode = Mode::Prompt { domain, input: next_input, error: None };
                PickerAction::Nothing
            },
        }
    }
}

/// A line of the picker as drawn: shown reversed when active, its label
/// column, dimmed when disabled, and its text (which the caller cuts to
/// the width of the screen).
#[derive(Debug, PartialEq, Eq)]
pub struct PickerRow {
    pub reverse: bool,
    pub prefix: String,
    pub dim: bool,
    pub text: String,
}

/// The header line for a picker kind.
pub open spec fn picker_header(kind: PickerKind) -> Seq<char> {
    match kind {
        PickerKind::AllTargets => "d2b sessions: Enter=open  n=name new  Esc=cancel\r\n"@,
        PickerKind::CurrentTarget => "d2b shells: Enter=open  Esc=cancel\r\n"@,
    }
}

/// `s` right-aligned in `w` characters.
pub open spec fn lpad(s: Seq<char>, w: int) -> Seq<char> {
    if s.len() < w { repeated(' ', (w - s.len()) as nat) + s } else { s }
}

/// The widest label, in bytes.
pub open spec fn max_label_len(labels: Seq<Seq<char>>) -> int
    decreases labels.len(),
{
    if labels.len() == 0 {
        0
    } else {
        let prev = max_label_len(labels.drop_last());
        let w = utf8_len(labels.last());
        if prev >= w { prev } else { w }
    }
}

/// How many entries the picker shows: from the top row, up to one more
/// than `max_items`.
pub open spec fn shown_rows(s: PickerView) -> int {
    let rest = if s.entries.len() >= s.top_row { s.entries.len() - s.top_row } else { 0 };
    if rest <= s.max_items + 1 { rest } else { s.max_items + 1 }
}

/// Row `r` of the picker.
pub open spec fn spec_picker_row(s: PickerView, r: int) -> (bool, Seq<char>, bool, Seq<char>) {
    let i = s.top_row + r;
    let w = max_label_len(s.labels);
    let prefix = if r < s.labels.len() { " "@ + lpad(s.labels[r], w) + ". "@ } else { repeated(' ', (w + 3) as nat) };
    (i == s.active_idx, prefix, s.entries[i].1, s.entries[i].0)
}

pub open spec fn picker_row_view(p: PickerRow) -> (bool, Seq<char>, bool, Seq<char>) {
    (p.reverse, p.prefix@, p.dim, p.text@)
}

/// The prompt for a new shell's name: the instructions, the name typed so
/// far, and why it was refused, if it was.
pub open spec fn spec_prompt_lines(input: Seq<char>, error: Option<Seq<char>>) -> Seq<Seq<char>> {
    let base = seq![
        "Name new d2b shell (1-64 bytes, [A-Za-z0-9._-]); Enter=open Esc=cancel\r\n"@,
        "> "@ + input,
    ];
    match error {
        Some(e) => base.push("\r\nInvalid name: "@ + e),
        None => base,
    }
}

fn max_label_len_exec(labels: &Vec<String>) -> (r: usize)
    requires
        labels@.len() <= usize::MAX / 4,
        forall|i: int| 0 <= i < labels@.len() ==> utf8_len((#[trigger] labels@[i])@) <= usize::MAX / 4,
    ensures
        r == max_label_len(labels_view(labels@)),
        r <= usize::MAX / 4,
{
    let ghost lv = labels_view(labels@);
    let mut best: usize = 0;
    let mut i: usize = 0;
    while i < labels.len()
        invariant
            i <= labels@.len(),
            lv == labels_view(labels@),
            forall|k: int| 0 <= k < labels@.len() ==> utf8_len((#[trigger] labels@[k])@) <= usize::MAX / 4,
            best == max_label_len(lv.take(i as int)),
            best <= usize::MAX / 4,
        decreases labels@.len() - i,
    {
        let ghost t = lv.take(i + 1);
        assert(t.drop_last() =~= lv.take(i as int));
        assert(t.last() == labels@[i as int]@);
        let w = byte_len(&labels[i]);
        if w > best {
            best = w;
        }
        i += 1;
    }
    assert(lv.take(labels@.len() as int) =~= lv);
    best
}

fn spaces(n: usize) -> (r: String)
    ensures
        r@ == repeated(' ', n as nat),
{
    let mut s = String::new();
    assert(s@ =~= Seq::<char>::empty());
    let mut i: usize = 0;
    while i < n
        invariant
            i <= n,
            s@ == repeated(' ', i as nat),
        decreases n - i,
    {
        push_char(&mut s, ' ');
        assert(s@ =~= repeated(' ', (i + 1) as nat));
        i += 1;
    }
    s
}

impl D2bPicker {
    /// Fits the picker to a screen `rows` high: it shows up to `rows - 3`
    /// entries. When that changes, the labels must be computed anew for the
    /// returned number of entries (the caller does, and hands them to
    /// `set_labels`).
    pub fn fit_to_screen(&mut self, rows: usize) -> (r: Option<usize>)
        requires
            picker_ok(old(self)@),
            rows <= usize::MAX / 4,
        ensures
            ({
                let m = if rows >= 3 { rows - 3 } else { 0 };
                &&& final(self)@ == PickerView { max_items: m as int, ..old(self)@ }
                &&& r == (if m != old(self).max_items {
                    Some((if old(self).entries@.len() <= m + 1 { old(self).entries@.len() } else { (m + 1) as nat }) as usize)
                } else {
                    None
                })
            }),
            picker_ok(final(self)@),
    {
        let m = rows.saturating_sub(3);
        let r = if m != self.max_items {
            let n = self.entries.len();
            Some(if n <= m + 1 { n } else { m + 1 })
        } else {
            None
        };
        self.max_items = m;
        r
    }

    /// Takes the labels computed for the visible entries.
    pub fn set_labels(&mut self, labels: Vec<String>)
        requires
            labels@.len() <= usize::MAX / 4,
        ensures
            final(self)@ == (PickerView { labels: labels_view(labels@), ..old(self)@ }),
    {
        self.labels = labels;
    }

    /// The header and the rows of the picker.
    pub fn picker_lines(&self) -> (r: (String, Vec<PickerRow>))
        requires
            picker_ok(self@),
            forall|i: int| 0 <= i < self.labels@.len() ==> utf8_len((#[trigger] self.labels@[i])@) <= usize::MAX / 4,
        ensures
            r.0@ == picker_header(self.kind),
            r.1@.len() == shown_rows(self@),
            forall|k: int| 0 <= k < r.1@.len() ==> picker_row_view(#[trigger] r.1@[k]) == spec_picker_row(self@, k),
    {
        let header = match self.kind {
            PickerKind::AllTargets => "d2b sessions: Enter=open  n=name new  Esc=cancel\r\n".to_owned(),
            PickerKind::CurrentTarget => "d2b shells: Enter=open  Esc=cancel\r\n".to_owned(),
        };
        let w = max_label_len_exec(&self.labels);
        let mut rows: Vec<PickerRow> = Vec::new();
        let mut r: usize = 0;
        while self.top_row + r < self.entries.len() && r <= self.max_items
            invariant
                picker_ok(self@),
                w == max_label_len(self@.labels),
                w <= usize::MAX / 4,
                r <= self.max_items + 1,
                self.top_row + r <= self.entries@.len() || r == 0,
                rows@.len() == r,
                forall|k: int| 0 <= k < r ==> picker_row_view(#[trigger] rows@[k]) == spec_picker_row(self@, k),
            decreases self.entries@.len() - r,
        {
            let i = self.top_row + r;
            let e = &self.entries[i];
            assert(self@.entries[i as int] == (e.label@, e.disabled, action_view(e.action)));
            let prefix = if r < self.labels.len() {
                let l = &self.labels[r];
                let n = chars_of(l.as_str()).len();
                let mut p = spaces(1);
                if n < w {
                    let pad = spaces(w - n);
                    push_str_chars(&mut p, pad.as_str());
                }
                push_str_chars(&mut p, l.as_str());
                push_str_chars(&mut p, ". ");
                assert(self@.labels[r as int] == l@);
                assert(p@ =~= " "@ + lpad(self@.labels[r as int], w as int) + ". "@) by {
                    reveal_strlit(" ");
                }
                p
            } else {
                spaces(w + 3)
            };
            rows.push(PickerRow { reverse: i == self.active_idx, prefix, dim: e.disabled, text: e.label.clone() });
            r += 1;
        }
        (header, rows)
    }
}

/// The lines of the naming prompt.
pub fn prompt_lines(input: &str, error: Option<&str>) -> (r: Vec<String>)
    ensures
        r@.map_values(|s: String| s@) == spec_prompt_lines(input@, match error {
            Some(e) => Some(e@),
            None => None,
        }),
{
    let mut v: Vec<String> = Vec::new();
    v.push("Name new d2b shell (1-64 bytes, [A-Za-z0-9._-]); Enter=open Esc=cancel\r\n".to_owned());
    let mut line = "> ".to_owned();
    push_str_chars(&mut line, input);
    v.push(line);
    if let Some(e) = error {
        let mut l = "\r\nInvalid name: ".to_owned();
        push_str_chars(&mut l, e);
        v.push(l);
    }
    let ghost ev = match error {
        Some(e) => Some(e@),
        None => None,
    };
    assert(v@.map_values(|s: String| s@) =~= spec_prompt_lines(input@, ev));
    v
}

/// A shell session of a target, as the discovery reports it: its id, its
/// id made safe to display, whether it is the default one, whether a
/// client is attached, whether it is detached, and its state's name in
/// lower case.
#[derive(Debug, PartialEq, Eq)]
pub struct SessionInfo {
    pub id: String,
    pub label: String,
    pub is_default: bool,
    pub attached: bool,
    pub detached: bool,
    pub state_name: String,
}

/// A target of a d2b domain, as the discovery reports it: the domain, the
/// target's name made safe to display, whether shells can be opened on
/// it, a warning about it (its isolation, or why it is unavailable), the
/// generated name for a new shell (raw and safe to display), and its
/// sessions.
#[derive(Debug, PartialEq, Eq)]
pub struct TargetInfo {
    pub domain_name: String,
    pub target_label: String,
    pub available: bool,
    pub warning: Option<String>,
    pub generated_name: String,
    pub generated_label: String,
    pub sessions: Vec<SessionInfo>,
}

pub open spec fn deref_all(v: Seq<&SessionInfo>) -> Seq<SessionInfo> {
    v.map_values(|s: &SessionInfo| *s)
}

/// The sort key of a session: default sessions first, then by id.
pub open spec fn session_key(s: SessionInfo) -> Seq<char> {
    seq![if s.is_default { '0' } else { '1' }] + s.id@
}

/// Sessions in the order of a stable sort by `session_key`.
pub open spec fn sorted_sessions(v: Seq<SessionInfo>) -> Seq<SessionInfo> {
    let order = text_order_of(v.map_values(|s: SessionInfo| session_key(s)));
    Seq::new(v.len(), |p: int| v[order[p] as int])
}

/// The sessions that can be reattached: detached with no client.
pub open spec fn reattachable(v: Seq<SessionInfo>) -> Seq<SessionInfo> {
    v.filter(|s: SessionInfo| !s.attached && s.detached)
}

pub type EntryV = (Seq<char>, bool, ActionView);

/// The warning as a suffix of entry labels.
pub open spec fn posture(t: TargetInfo) -> Seq<char> {
    match t.warning {
        Some(w) => " — "@ + w@,
        None => Seq::empty(),
    }
}

/// How a session's state is shown.
pub open spec fn state_text(s: SessionInfo) -> Seq<char> {
    if s.is_default { "default"@ } else if s.attached { "attached"@ } else { s.state_name@ }
}

/// The entry reattaching session `s` of target `t`.
pub open spec fn reattach_entry(t: TargetInfo, s: SessionInfo) -> EntryV {
    (
        "Reattach d2b shell `["@ + t.target_label@ + ":"@ + s.label@ + "]`"@ + posture(t),
        false,
        ActionView::Open(t.domain_name@, s.id@),
    )
}

/// The entry opening session `s` of target `t`.
pub open spec fn open_entry(t: TargetInfo, s: SessionInfo) -> EntryV {
    (
        "Open d2b shell `"@ + t.target_label@ + ":"@ + s.label@ + "` ("@ + state_text(s) + ")"@ + posture(t),
        false,
        ActionView::Open(t.domain_name@, s.id@),
    )
}

/// The entries of one target: an unavailable target gets one disabled
/// entry saying why; for one target's shells, a new shell and the shells
/// to reattach; for every target, a new shell, a named new shell, and
/// each of its shells.
pub open spec fn target_entries(t: TargetInfo, kind: PickerKind) -> Seq<EntryV> {
    let tl = t.target_label@;
    if !t.available {
        let reason = match t.warning {
            Some(w) => w@,
            None => "unavailable"@,
        };
        seq![("Unavailable d2b target `"@ + tl + "` ("@ + reason + ")"@, true, ActionView::Disabled)]
    } else if kind == PickerKind::CurrentTarget {
        let ss = sorted_sessions(reattachable(t.sessions@));
        seq![(
            "New d2b shell `["@ + tl + ":"@ + t.generated_label@ + "]`"@ + posture(t),
            false,
            ActionView::Open(t.domain_name@, t.generated_name@),
        )] + ss.map_values(|s: SessionInfo| reattach_entry(t, s))
    } else {
        let ss = sorted_sessions(t.sessions@);
        seq![
            (
                "New d2b shell on `"@ + tl + "` ("@ + t.generated_label@ + ")"@ + posture(t),
                false,
                ActionView::Open(t.domain_name@, t.generated_name@),
            ),
            (
                "Name new d2b shell on `"@ + tl + "`…"@ + posture(t),
                false,
                ActionView::Manual(t.domain_name@, t.generated_name@),
            ),
        ] + ss.map_values(|s: SessionInfo| open_entry(t, s))
    }
}

/// The entries of all targets, in order.
pub open spec fn spec_build_entries(ts: Seq<TargetInfo>, kind: PickerKind) -> Seq<EntryV>
    decreases ts.len(),
{
    if ts.len() == 0 {
        Seq::empty()
    } else {
        spec_build_entries(ts.drop_last(), kind) + target_entries(ts.last(), kind)
    }
}

fn s3(a: &str, b: &str, c: &str) -> (r: String)
    ensures
        r@ == a@ + b@ + c@,
{
    let mut s = a.to_owned();
    push_str_chars(&mut s, b);
    push_str_chars(&mut s, c);
    s
}

fn sort_sessions(v: &Vec<&SessionInfo>) -> (r: Vec<usize>)
    ensures
        r@.len() == v@.len(),
        forall|p: int| 0 <= p < r@.len() ==> (#[trigger] r@[p]) < v@.len(),
        r@ == text_order_of(v@.map_values(|s: &SessionInfo| session_key(*s))),
{
    let mut keys: Vec<String> = Vec::new();
    let mut i: usize = 0;
    while i < v.len()
        invariant
            i <= v@.len(),
            keys@.len() == i,
            forall|k: int| 0 <= k < i ==> (#[trigger] keys@[k])@ == session_key(*v@[k]),
        decreases v@.len() - i,
    {
        let mut key = String::new();
        assert(key@ =~= Seq::<char>::empty());
        push_char(&mut key, if v[i].is_default { '0' } else { '1' });
        push_str_chars(&mut key, v[i].id.as_str());
        assert(key@ =~= session_key(*v@[i as int]));
        keys.push(key);
        i += 1;
    }
    assert(texts(keys@) =~= v@.map_values(|s: &SessionInfo| session_key(*s)));
    text_order(&keys)
}

fn target_entries_exec(t: &TargetInfo, kind: PickerKind, out: &mut Vec<Entry>)
    ensures
        entries_view(final(out)@) == entries_view(old(out)@) + target_entries(*t, kind),
{
    let ghost start = entries_view(out@);
    let suffix: String = match &t.warning {
        Some(w) => {
            let mut p = " — ".to_owned();
            push_str_chars(&mut p, w.as_str());
            p
        },
        None => String::new(),
    };
    assert(suffix@ =~= posture(*t));
    let tl = t.target_label.as_str();
    if !t.available {
        let reason: &str = match &t.warning {
            Some(w) => w.as_str(),
            None => "unavailable",
        };
        let mut label = s3("Unavailable d2b target `", tl, "` (");
        push_str_chars(&mut label, reason);
        push_str_chars(&mut label, ")");
        out.push(Entry { label, disabled: true, action: EntryAction::Disabled });
        assert(entries_view(out@) =~= start + target_entries(*t, kind));
        return;
    }
    if kind == PickerKind::CurrentTarget {
        let mut label = s3("New d2b shell `[", tl, ":");
        push_str_chars(&mut label, t.generated_label.as_str());
        push_str_chars(&mut label, "]`");
        push_str_chars(&mut label, suffix.as_str());
        out.push(Entry {
            label,
            disabled: false,
            action: EntryAction::Open { domain: t.domain_name.clone(), name: t.generated_name.clone() },
        });
        let ghost after_first = entries_view(out@);
        let mut picked: Vec<&SessionInfo> = Vec::new();
        let mut i: usize = 0;
        while i < t.sessions.len()
            invariant
                i <= t.sessions@.len(),
                deref_all(picked@) == reattachable(t.sessions@.take(i as int)),
            decreases t.sessions@.len() - i,
        {
            let se = &t.sessions[i];
            let ghost pre = t.sessions@.take(i as int);
            assert(t.sessions@.take(i + 1) =~= pre.push(*se));
            proof {
                pre.lemma_filter_push(*se, |s: SessionInfo| !s.attached && s.detached);
            }
            if !se.attached && se.detached {
                picked.push(se);
                assert(deref_all(picked@) =~= reattachable(pre).push(*se));
            } else {
                assert(deref_all(picked@) =~= reattachable(pre));
            }
            i += 1;
        }
        assert(t.sessions@.take(t.sessions@.len() as int) =~= t.sessions@);
        let ghost rs = reattachable(t.sessions@);
        assert(deref_all(picked@) == rs);
        assert(picked@.map_values(|s: &SessionInfo| session_key(*s)) =~= rs.map_values(|s: SessionInfo| session_key(s)));
        let order = sort_sessions(&picked);
        let ghost ss = sorted_sessions(rs);
        let mut k: usize = 0;
        while k < order.len()
            invariant
                k <= order@.len(),
                order@.len() == picked@.len(),
                forall|p: int| 0 <= p < order@.len() ==> (#[trigger] order@[p]) < picked@.len(),
                deref_all(picked@) == rs,
                order@ == text_order_of(rs.map_values(|s: SessionInfo| session_key(s))),
                ss == sorted_sessions(rs),
                suffix@ == posture(*t),
                tl@ == t.target_label@,
                ss.len() == order@.len(),
                entries_view(out@) == after_first + ss.take(k as int).map_values(|s: SessionInfo| reattach_entry(*t, s)),
            decreases order@.len() - k,
        {
            let se = picked[order[k]];
            assert(*se == ss[k as int]);
            let mut label = s3("Reattach d2b shell `[", tl, ":");
            assert(label@ == "Reattach d2b shell `["@ + t.target_label@ + ":"@);
            push_str_chars(&mut label, se.label.as_str());
            assert(se.label@ == ss[k as int].label@);
            push_str_chars(&mut label, "]`");
            push_str_chars(&mut label, suffix.as_str());
            assert(suffix@ == posture(*t));
            assert(label@ == reattach_entry(*t, ss[k as int]).0);
            let ghost before = entries_view(out@);
            let e = Entry {
                label,
                disabled: false,
                action: EntryAction::Open { domain: t.domain_name.clone(), name: se.id.clone() },
            };
            assert((e.label@, e.disabled, action_view(e.action)) == reattach_entry(*t, ss[k as int]));
            out.push(e);
            assert(entries_view(out@) =~= before.push(reattach_entry(*t, ss[k as int])));
            assert(ss.take(k + 1).map_values(|s: SessionInfo| reattach_entry(*t, s)) =~= ss.take(k as int).map_values(|s: SessionInfo| reattach_entry(*t, s)).push(reattach_entry(*t, ss[k as int])));
            k += 1;
        }
        assert(ss.take(ss.len() as int) =~= ss);
        assert(entries_view(out@) =~= start + target_entries(*t, kind));
        return;
    }
    let mut label = s3("New d2b shell on `", tl, "` (");
    push_str_chars(&mut label, t.generated_label.as_str());
    push_str_chars(&mut label, ")");
    push_str_chars(&mut label, suffix.as_str());
    out.push(Entry {
        label,
        disabled: false,
        action: EntryAction::Open { domain: t.domain_name.clone(), name: t.generated_name.clone() },
    });
    let mut label2 = s3("Name new d2b shell on `", tl, "`…");
    push_str_chars(&mut label2, suffix.as_str());
    out.push(Entry {
        label: label2,
        disabled: false,
        action: EntryAction::Manual { domain: t.domain_name.clone(), default_name: t.generated_name.clone() },
    });
    let ghost after_two = entries_view(out@);
    let mut all: Vec<&SessionInfo> = Vec::new();
    let mut i: usize = 0;
    while i < t.sessions.len()
        invariant
            i <= t.sessions@.len(),
            all@.len() == i,
            deref_all(all@) == t.sessions@.take(i as int),
        decreases t.sessions@.len() - i,
    {
        let ghost before = all@;
        all.push(&t.sessions[i]);
        assert(all@ == before.push(&t.sessions@[i as int]));
        assert forall|j: int| 0 <= j < i + 1 implies #[trigger] deref_all(all@)[j] == t.sessions@.take(i + 1)[j] by {
            if j < i {
                assert(deref_all(before)[j] == t.sessions@.take(i as int)[j]);
            }
        }
        assert(deref_all(all@) =~= t.sessions@.take(i + 1));
        i += 1;
    }
    assert(t.sessions@.take(t.sessions@.len() as int) =~= t.sessions@);
    let ghost rs = t.sessions@;
    assert(all@.map_values(|s: &SessionInfo| session_key(*s)) =~= rs.map_values(|s: SessionInfo| session_key(s)));
    let order = sort_sessions(&all);
    let ghost ss = sorted_sessions(rs);
    let mut k: usize = 0;
    while k < order.len()
        invariant
            k <= order@.len(),
            order@.len() == all@.len(),
            forall|p: int| 0 <= p < order@.len() ==> (#[trigger] order@[p]) < all@.len(),
            deref_all(all@) == rs,
            rs == t.sessions@,
            order@ == text_order_of(rs.map_values(|s: SessionInfo| session_key(s))),
            ss == sorted_sessions(rs),
            suffix@ == posture(*t),
            tl@ == t.target_label@,
            ss.len() == order@.len(),
            entries_view(out@) == after_two + ss.take(k as int).map_values(|s: SessionInfo| open_entry(*t, s)),
        decreases order@.len() - k,
    {
        let se = all[order[k]];
        assert(*se == ss[k as int]);
        let state: &str = if se.is_default {
            "default"
        } else if se.attached {
            "attached"
        } else {
            se.state_name.as_str()
        };
        let mut label = s3("Open d2b shell `", tl, ":");
        push_str_chars(&mut label, se.label.as_str());
        push_str_chars(&mut label, "` (");
        push_str_chars(&mut label, state);
        push_str_chars(&mut label, ")");
        push_str_chars(&mut label, suffix.as_str());
        assert(label@ == open_entry(*t, ss[k as int]).0);
        let ghost before = entries_view(out@);
        let e = Entry {
            label,
            disabled: false,
            action: EntryAction::Open { domain: t.domain_name.clone(), name: se.id.clone() },
        };
        assert((e.label@, e.disabled, action_view(e.action)) == open_entry(*t, ss[k as int]));
        out.push(e);
        assert(entries_view(out@) =~= before.push(open_entry(*t, ss[k as int])));
        assert(ss.take(k + 1).map_values(|s: SessionInfo| open_entry(*t, s)) =~= ss.take(k as int).map_values(|s: SessionInfo| open_entry(*t, s)).push(open_entry(*t, ss[k as int])));
        k += 1;
    }
    assert(ss.take(ss.len() as int) =~= ss);
    assert(entries_view(out@) =~= start + target_entries(*t, kind));
}

/// The picker's entries for the discovered targets.
pub fn build_entries(targets: &Vec<TargetInfo>, kind: PickerKind) -> (r: Vec<Entry>)
    ensures
        entries_view(r@) == spec_build_entries(targets@, kind),
{
    let mut out: Vec<Entry> = Vec::new();
    let mut i: usize = 0;
    while i < targets.len()
        invariant
            i <= targets@.len(),
            entries_view(out@) == spec_build_entries(targets@.take(i as int), kind),
        decreases targets@.len() - i,
    {
        assert(targets@.take(i + 1).drop_last() =~= targets@.take(i as int));
        target_entries_exec(&targets[i], kind, &mut out);
        i += 1;
    }
    assert(targets@.take(targets@.len() as int) =~= targets@);
    out
}

/// Typing, in pick mode, the character that completes the label shown on
/// visible row `p` selects the entry drawn beside that label (entry
/// `top_row + p`, not entry `p`) and launches it: an open entry opens its
/// shell and ends the picker, a manual entry asks for a name.
pub proof fn lemma_typed_label_picks_entry_beside_it(s: PickerView, c: char, p: int)
    requires
        s.mode == ModeView::Pick,
        ALPHABET@.contains(c),
        0 <= p < s.labels.len(),
        s.labels[p] == s.selection.push(c),
        forall|q: int| 0 <= q < p ==> s.labels[q] != s.selection.push(c),
    ensures
        ({
            let (t, a) = spec_event(s, PickerInput::Key(KeyPress { key: Key::Char(c), mods: Mods::Plain }), Ok(()));
            &&& t.active_idx == s.top_row + p
            &&& 0 <= s.top_row + p < s.entries.len() ==> spec_picker_row(s, p).3 == s.entries[t.active_idx].0
            &&& 0 <= s.top_row + p < s.entries.len() ==> match s.entries[s.top_row + p].2 {
                ActionView::Open(d, n) => a == Some((d, n)) && t.selection == done_marker(),
                ActionView::Manual(d, n) => a is None && t.mode == ModeView::Prompt(d, n, None),
                ActionView::Disabled => a is None,
            }
        }),
{
    let sel = s.selection.push(c);
    lemma_label_position(s.labels, sel);
    let lp = label_position(s.labels, sel);
    assert(exists|q: int| 0 <= q < s.labels.len() && s.labels[q] == sel);
    assert(lp == Some(p)) by {
        let w = lp->0;
        if w < p {
            assert(s.labels[w] != sel);
        } else if w > p {
            assert(forall|q: int| 0 <= q < w ==> s.labels[q] != sel);
            assert(s.labels[p] != sel);
        }
    }
}

/// In pick mode, `j`/Down moves to the next entry (staying on the last)
/// and `k`/Up to the previous one (staying on the first); an active entry
/// that was in view (rows `top_row` to `top_row + max_items`) stays in
/// view.
pub proof fn lemma_moves_keep_active_in_view(s: PickerView, ev: PickerInput)
    requires
        s.mode == ModeView::Pick,
        0 <= s.active_idx < s.entries.len(),
        0 <= s.max_items,
        0 <= s.top_row <= s.active_idx <= s.top_row + s.max_items,
        ev == PickerInput::Key(KeyPress { key: Key::DownArrow, mods: Mods::Plain }) || ev == PickerInput::Key(
            KeyPress { key: Key::UpArrow, mods: Mods::Plain },
        ),
    ensures
        ({
            let t = spec_event(s, ev, Ok(())).0;
            &&& ev == PickerInput::Key(KeyPress { key: Key::DownArrow, mods: Mods::Plain }) ==> t.active_idx == (
            if s.active_idx + 1 < s.entries.len() { s.active_idx + 1 } else { s.active_idx })
            &&& ev == PickerInput::Key(KeyPress { key: Key::UpArrow, mods: Mods::Plain }) ==> t.active_idx == (
            if s.active_idx > 0 { s.active_idx - 1 } else { 0 })
            &&& 0 <= t.top_row <= t.active_idx <= t.top_row + t.max_items
            &&& t.entries == s.entries && t.max_items == s.max_items
            &&& spec_event(s, ev, Ok(())).1 is None
        }),
{
}

/// In pick mode, Enter launches the active entry: an open entry opens its
/// shell and ends the picker, a manual entry asks for a name, and a
/// disabled entry (or none) changes nothing. Escape ends the picker
/// without opening anything.
pub proof fn lemma_enter_launches_active_entry(s: PickerView)
    requires
        s.mode == ModeView::Pick,
    ensures
        ({
            let (t, a) = spec_event(s, PickerInput::Key(KeyPress { key: Key::Enter, mods: Mods::Plain }), Ok(()));
            &&& t.active_idx == s.active_idx && t.top_row == s.top_row && t.entries == s.entries
            &&& if 0 <= s.active_idx < s.entries.len() {
                match s.entries[s.active_idx].2 {
                    ActionView::Open(d, n) => a == Some((d, n)) && t.selection == done_marker() && t.mode == s.mode,
                    ActionView::Manual(d, n) => a is None && t.mode == ModeView::Prompt(d, n, None),
                    ActionView::Disabled => a is None && t == s,
                }
            } else {
                a is None && t == s
            }
        }),
        ({
            let (t, a) = spec_event(s, PickerInput::Key(KeyPress { key: Key::Escape, mods: Mods::Plain }), Ok(()));
            a is None && t == PickerView { selection: done_marker(), ..s }
        }),
{
}

/// A wheel turn scrolls the list by one row (up: towards the first entry,
/// stopping at it; down: stopping where the last entry is still shown) and,
/// with the pointer on row `y` (counted from 1) of the list, makes active
/// the entry drawn on that row after scrolling. It opens nothing.
pub proof fn lemma_wheel_scrolls_one_row(s: PickerView, up: bool, y: u16)
    requires
        s.mode == ModeView::Pick,
        0 <= s.top_row,
        0 <= s.max_items,
    ensures
        ({
            let (t, a) = spec_event(s, PickerInput::Wheel { up, y }, Ok(()));
            let last_top = if s.entries.len() > s.max_items { s.entries.len() - s.max_items - 1 } else { 0 };
            &&& a is None
            &&& up ==> t.top_row == (if s.top_row > 0 { s.top_row - 1 } else { 0 })
            &&& !up ==> t.top_row == (if s.top_row < last_top { s.top_row + 1 } else { last_top })
            &&& 0 < y <= s.entries.len() ==> t.active_idx == t.top_row + (y - 1)
            &&& !(0 < y <= s.entries.len()) ==> t.active_idx == s.active_idx
            &&& 0 < y <= s.entries.len() && t.active_idx < s.entries.len() ==> spec_picker_row(t, y - 1).3
                == s.entries[t.active_idx].0
            &&& t.entries == s.entries && t.selection == s.selection && t.mode == s.mode
        }),
{
}

} // verus!
