//! Port forwarding overlay: the list of detected and forwarded ports and
//! what each key press does.
use vstd::prelude::*;
use crate::input::{Key, KeyPress, Mods};
use crate::text::{contains_seq, contains_str, decimal_of, push_char, push_decimal};

verus! {

/// Entry for display in the port forwarding overlay
#[derive(Debug)]
pub struct PortDisplayEntry {
    pub remote_port: u16,
    pub local_port: u16,
    pub remote_host: String,
    pub label: Option<String>,
    pub is_forwarded: bool,
    pub is_error: bool,
    pub error_msg: Option<String>,
}

impl Clone for PortDisplayEntry {
    fn clone(&self) -> (r: Self)
        ensures
            r == *self,
    {
        PortDisplayEntry {
            remote_port: self.remote_port,
            local_port: self.local_port,
            remote_host: self.remote_host.clone(),
            label: match &self.label {
                Some(l) => Some(l.clone()),
                None => None,
            },
            is_forwarded: self.is_forwarded,
            is_error: self.is_error,
            error_msg: match &self.error_msg {
                Some(m) => Some(m.clone()),
                None => None,
            },
        }
    }
}

/// Actions that can result from the overlay interaction
#[derive(Debug)]
pub enum PortForwardAction {
    Close,
    StartForward { remote_port: u16, remote_host: String, preferred_local_port: u16 },
    StopForward { remote_port: u16 },
    Exclude { remote_port: u16 },
    ManualForward,
}

/// The port list with its selection and digit filter.
#[derive(Debug)]
pub struct OverlayState {
    pub entries: Vec<PortDisplayEntry>,
    pub selected: usize,
    pub filter: String,
    pub action: Option<PortForwardAction>,
}

/// The entry's port, in decimal, contains `filter`.
pub open spec fn port_matches(e: PortDisplayEntry, filter: Seq<char>) -> bool {
    contains_seq(decimal_of(e.remote_port as nat), filter)
}

/// The entries shown: all of them without a filter, else those whose port
/// contains the filter.
pub open spec fn shown_entries(entries: Seq<PortDisplayEntry>, filter: Seq<char>) -> Seq<PortDisplayEntry>
    decreases entries.len(),
{
    if entries.len() == 0 {
        Seq::empty()
    } else {
        let rest = shown_entries(entries.drop_last(), filter);
        if filter.len() == 0 || port_matches(entries.last(), filter) {
            rest.push(entries.last())
        } else {
            rest
        }
    }
}

fn port_text(port: u16) -> (r: String)
    ensures
        r@ == decimal_of(port as nat),
{
    let mut s = String::new();
    push_decimal(&mut s, port as u64);
    assert(s@ =~= decimal_of(port as nat));
    s
}

impl OverlayState {
    /// The entries the list shows.
    pub fn filtered_entries(&self) -> (r: Vec<&PortDisplayEntry>)
        ensures
            r@.map_values(|e: &PortDisplayEntry| *e) == shown_entries(self.entries@, self.filter@),
    {
        let no_filter = self.filter.as_str().is_empty();
        let mut out: Vec<&PortDisplayEntry> = Vec::new();
        let mut i: usize = 0;
        while i < self.entries.len()
            invariant
                i <= self.entries@.len(),
                no_filter == (self.filter@.len() == 0),
                out@.map_values(|e: &PortDisplayEntry| *e) == shown_entries(self.entries@.take(i as int), self.filter@),
            decreases self.entries@.len() - i,
        {
            let e = &self.entries[i];
            assert(self.entries@.take(i + 1).drop_last() =~= self.entries@.take(i as int));
            if no_filter || contains_str(port_text(e.remote_port).as_str(), self.filter.as_str()) {
                out.push(e);
                assert(out@.map_values(|e: &PortDisplayEntry| *e) =~= shown_entries(self.entries@.take(i as int), self.filter@).push(*e));
            }
            i += 1;
        }
        assert(self.entries@.take(self.entries@.len() as int) =~= self.entries@);
        out
    }

    /// The selected entry among those shown, if the selection is in range.
    pub fn selected_entry(&self) -> (r: Option<PortDisplayEntry>)
        ensures
            match r {
                Some(e) => self.selected < shown_entries(self.entries@, self.filter@).len() && e == shown_entries(
                    self.entries@,
                    self.filter@,
                )[self.selected as int],
                None => self.selected >= shown_entries(self.entries@, self.filter@).len(),
            },
    {
        let filtered = self.filtered_entries();
        if self.selected < filtered.len() {
            let e = filtered[self.selected];
            Some(e.clone())
        } else {
            None
        }
    }
}

/// What the port overlay does with a key press: finish with an action, or
/// go on (after changing the selection or filter).
#[derive(Debug)]
pub enum PortStep {
    Continue,
    Finish(PortForwardAction),
}

/// `s` without its last character, if it has one.
pub open spec fn without_last(s: Seq<char>) -> Seq<char> {
    if s.len() > 0 {
        s.drop_last()
    } else {
        s
    }
}

/// Whether `press` is `c` with no modifier.
pub open spec fn plain(press: KeyPress, c: char) -> bool {
    press.key == Key::Char(c) && press.mods == Mods::Plain
}

/// The action Enter takes on entry `e`: stop a forwarded port, forward
/// another one to the same local port.
pub open spec fn enter_action_matches(a: PortForwardAction, e: PortDisplayEntry) -> bool {
    if e.is_forwarded {
        a == PortForwardAction::StopForward { remote_port: e.remote_port }
    } else {
        a matches PortForwardAction::StartForward { remote_port, remote_host, preferred_local_port }
            && remote_port == e.remote_port && remote_host@ == e.remote_host@ && preferred_local_port
            == e.remote_port
    }
}

/// The selection after moving up: one up, or from the top to the last
/// shown entry.
pub open spec fn moved_up(selected: int, count: int) -> int {
    if selected > 0 {
        selected - 1
    } else if count > 0 {
        count - 1
    } else {
        selected
    }
}

/// The selection after moving down: one down, or past the last shown entry
/// back to the top.
pub open spec fn moved_down(selected: int, count: int) -> int {
    let max = if count > 0 { count - 1 } else { 0 };
    if selected < max {
        selected + 1
    } else {
        0
    }
}

impl OverlayState {
    /// Apply one key press: Escape or `q` closes; Up/`k` and Down/`j` move
    /// the selection with wrap-around; Enter starts or stops forwarding the
    /// selected port; `f` asks for a manual forward; `s` stops the selected
    /// forwarded port; `d` excludes the selected port; Backspace and digits
    /// edit the port filter.
    pub fn handle_key(&mut self, press: KeyPress) -> (r: PortStep)
        ensures
            final(self).entries == old(self).entries,
            final(self).action == old(self).action,
            ({
                let shown = shown_entries(old(self).entries@, old(self).filter@);
                let sel = old(self).selected as int;
                let has_sel = sel < shown.len();
                if press.key == Key::Escape || plain(press, 'q') {
                    r == PortStep::Finish(PortForwardAction::Close) && *final(self) == *old(self)
                } else if press.key == Key::UpArrow || plain(press, 'k') {
                    r == PortStep::Continue && final(self).selected == moved_up(sel, shown.len() as int)
                        && final(self).filter == old(self).filter
                } else if press.key == Key::DownArrow || plain(press, 'j') {
                    r == PortStep::Continue && final(self).selected == moved_down(sel, shown.len() as int)
                        && final(self).filter == old(self).filter
                } else if press.key == Key::Enter {
                    *final(self) == *old(self) && if has_sel {
                        r matches PortStep::Finish(a) && enter_action_matches(a, shown[sel])
                    } else {
                        r == PortStep::Continue
                    }
                } else if plain(press, 'f') {
                    r == PortStep::Finish(PortForwardAction::ManualForward) && *final(self) == *old(self)
                } else if plain(press, 's') {
                    *final(self) == *old(self) && if has_sel && shown[sel].is_forwarded {
                        r == PortStep::Finish(PortForwardAction::StopForward { remote_port: shown[sel].remote_port })
                    } else {
                        r == PortStep::Continue
                    }
                } else if plain(press, 'd') {
                    *final(self) == *old(self) && if has_sel {
                        r == PortStep::Finish(PortForwardAction::Exclude { remote_port: shown[sel].remote_port })
                    } else {
                        r == PortStep::Continue
                    }
                } else if press.key == Key::Backspace {
                    r == PortStep::Continue && final(self).selected == 0 && final(self).filter@ == without_last(old(self).filter@)
                } else if press.mods == Mods::Plain && (press.key matches Key::Char(c) && '0' <= c <= '9') {
                    r == PortStep::Continue && final(self).selected == 0 && final(self).filter@ == old(self).filter@.push(press.key->Char_0)
                } else {
                    r == PortStep::Continue && *final(self) == *old(self)
                }
            }),
    {
        let ghost shown = shown_entries(self.entries@, self.filter@);
        let key = press.key;
        let plain_mods = press.mods == Mods::Plain;
        if key == Key::Escape || (key == Key::Char('q') && plain_mods) {
            return PortStep::Finish(PortForwardAction::Close);
        }
        if key == Key::UpArrow || (key == Key::Char('k') && plain_mods) {
            let count = self.filtered_entries().len();
            if self.selected > 0 {
                self.selected = self.selected - 1;
            } else if count > 0 {
                self.selected = count - 1;
            }
            return PortStep::Continue;
        }
        if key == Key::DownArrow || (key == Key::Char('j') && plain_mods) {
            let count = self.filtered_entries().len();
            let max = if count > 0 { count - 1 } else { 0 };
            if self.selected < max {
                self.selected = self.selected + 1;
            } else {
                self.selected = 0;
            }
            return PortStep::Continue;
        }
        if key == Key::Enter {
            return match self.selected_entry() {
                Some(entry) => if entry.is_forwarded {
                    PortStep::Finish(PortForwardAction::StopForward { remote_port: entry.remote_port })
                } else {
                    PortStep::Finish(PortForwardAction::StartForward {
                        remote_port: entry.remote_port,
                        remote_host: entry.remote_host,
                        preferred_local_port: entry.remote_port,
                    })
                },
                None => PortStep::Continue,
            };
        }
        if key == Key::Char('f') && plain_mods {
            return PortStep::Finish(PortForwardAction::ManualForward);
        }
        if key == Key::Char('s') && plain_mods {
            return match self.selected_entry() {
                Some(entry) => if entry.is_forwarded {
                    PortStep::Finish(PortForwardAction::StopForward { remote_port: entry.remote_port })
                } else {
                    PortStep::Continue
                },
                None => PortStep::Continue,
            };
        }
        if key == Key::Char('d') && plain_mods {
            return match self.selected_entry() {
                Some(entry) => PortStep::Finish(PortForwardAction::Exclude { remote_port: entry.remote_port }),
                None => PortStep::Continue,
            };
        }
        if key == Key::Backspace {
            let _ = crate::text::pop_char(&mut self.filter);
            self.selected = 0;
            return PortStep::Continue;
        }
        if let Key::Char(c) = key {
            if plain_mods && '0' <= c && c <= '9' {
                push_char(&mut self.filter, c);
                self.selected = 0;
            }
        }
        PortStep::Continue
    }
}

/// The list shows every entry when the filter is empty; otherwise exactly
/// the entries, in their order, whose remote port written in decimal
/// contains the filter text (the local port plays no part).
pub proof fn lemma_shown_entries_match_remote_port(entries: Seq<PortDisplayEntry>, filter: Seq<char>)
    ensures
        shown_entries(entries, filter) == entries.filter(
            |e: PortDisplayEntry| filter.len() == 0 || contains_seq(decimal_of(e.remote_port as nat), filter),
        ),
        filter.len() == 0 ==> shown_entries(entries, filter) == entries,
    decreases entries.len(),
{
    let pred = |e: PortDisplayEntry| filter.len() == 0 || contains_seq(decimal_of(e.remote_port as nat), filter);
    reveal(Seq::filter);
    if entries.len() > 0 {
        lemma_shown_entries_match_remote_port(entries.drop_last(), filter);
        let rest = entries.drop_last().filter(pred);
        assert(entries.filter(pred) == (if pred(entries.last()) {
            rest.push(entries.last())
        } else {
            rest
        }));
        assert(pred(entries.last()) == (filter.len() == 0 || port_matches(entries.last(), filter)));
        if filter.len() == 0 {
            assert(entries.drop_last().push(entries.last()) =~= entries);
        }
    }
}

/// Moving the selection through `count` shown entries wraps around and
/// stays on an entry: down steps to the next entry (from the last back to
/// the first), up to the previous one (from the first to the last), and
/// the two undo each other.
pub proof fn lemma_selection_moves_wrap(sel: int, count: int)
    requires
        0 <= sel < count,
    ensures
        0 <= moved_down(sel, count) < count,
        0 <= moved_up(sel, count) < count,
        moved_down(sel, count) == (if sel + 1 < count { sel + 1 } else { 0 }),
        moved_up(sel, count) == (if sel > 0 { sel - 1 } else { count - 1 }),
        moved_up(moved_down(sel, count), count) == sel,
        moved_down(moved_up(sel, count), count) == sel,
{
}

} // verus!
