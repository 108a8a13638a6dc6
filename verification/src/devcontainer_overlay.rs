//! DevContainer manager overlay: the containers it lists and what each key
//! press does.
use vstd::prelude::*;
use crate::input::{Key, KeyPress, Mods};
use crate::port_forward::without_last;
use crate::text::{contains_seq, lowercase, pop_char, push_char, to_lowercase, contains_str};

verus! {

/// Actions that can result from the overlay interaction
#[derive(Debug)]
pub enum DevContainerAction {
    Close,
    /// Connect to a container (open new tab)
    Connect { container_id: String },
    /// Set a container as the primary for new tabs
    SetPrimary { container_id: String },
    /// Start a stopped container
    StartContainer { container_id: String },
    /// Stop a running container
    StopContainer { container_id: String },
    /// Delete a container
    DeleteContainer { container_id: String },
    /// Create a new container from a workspace folder
    CreateContainer { workspace_folder: String },
}

/// What the overlay knows of a discovered container.
#[derive(Debug)]
pub struct ContainerInfo {
    pub container_id: String,
    pub container_name: String,
    pub image: String,
    pub local_folder: String,
    /// The workspace folder inside the container, when known.
    pub workspace_folder: Option<String>,
    pub running: bool,
}

/// The container list with its selection, filter, expanded container and
/// the folder being typed for a new container.
#[derive(Debug)]
pub struct OverlayState {
    pub entries: Vec<ContainerInfo>,
    pub selected: usize,
    pub filter: String,
    pub primary_container_id: Option<String>,
    pub domain_name: String,
    pub host_label: String,
    pub expanded: Option<String>,
    pub create_input: Option<String>,
    pub default_workspace_folder: Option<String>,
}

/// The container's name, image or folder contains the lower-cased filter
/// `f`, compared lower-cased.
pub open spec fn container_matches(e: ContainerInfo, f: Seq<char>) -> bool {
    contains_seq(lowercase(e.container_name@), f) || contains_seq(lowercase(e.image@), f) || contains_seq(
        lowercase(e.local_folder@),
        f,
    )
}

/// The indices of the containers shown under `filter`: all without one.
pub open spec fn shown_containers(entries: Seq<ContainerInfo>, filter: Seq<char>) -> Seq<usize>
    decreases entries.len(),
{
    if entries.len() == 0 {
        Seq::empty()
    } else {
        let rest = shown_containers(entries.drop_last(), filter);
        if filter.len() == 0 || container_matches(entries.last(), lowercase(filter)) {
            rest.push((entries.len() - 1) as usize)
        } else {
            rest
        }
    }
}

pub proof fn lemma_shown_containers_bounds(entries: Seq<ContainerInfo>, filter: Seq<char>)
    ensures
        shown_containers(entries, filter).len() <= entries.len(),
        forall|k: int| 0 <= k < shown_containers(entries, filter).len() ==> (#[trigger] shown_containers(entries, filter)[k]) < entries.len(),
    decreases entries.len(),
{
    if entries.len() > 0 {
        lemma_shown_containers_bounds(entries.drop_last(), filter);
    }
}

fn lower_contains(s: &String, f: &String) -> (r: bool)
    ensures
        r == contains_seq(lowercase(s@), f@),
{
    let l = to_lowercase(s.as_str());
    contains_str(l.as_str(), f.as_str())
}

impl OverlayState {
    /// The indices of the containers shown.
    pub fn filtered_entries(&self) -> (r: Vec<usize>)
        ensures
            r@ == shown_containers(self.entries@, self.filter@),
    {
        let no_filter = self.filter.as_str().is_empty();
        let filter_lower = to_lowercase(self.filter.as_str());
        let mut out: Vec<usize> = Vec::new();
        let mut i: usize = 0;
        while i < self.entries.len()
            invariant
                i <= self.entries@.len(),
                no_filter == (self.filter@.len() == 0),
                filter_lower@ == lowercase(self.filter@),
                out@ == shown_containers(self.entries@.take(i as int), self.filter@),
            decreases self.entries@.len() - i,
        {
            let e = &self.entries[i];
            assert(self.entries@.take(i + 1).drop_last() =~= self.entries@.take(i as int));
            if no_filter || lower_contains(&e.container_name, &filter_lower) || lower_contains(&e.image, &filter_lower)
                || lower_contains(&e.local_folder, &filter_lower) {
                out.push(i);
            }
            i += 1;
        }
        assert(self.entries@.take(self.entries@.len() as int) =~= self.entries@);
        out
    }

    /// The number of rows: the containers shown and the "create new" row.
    pub fn total_rows(&self) -> (r: usize)
        requires
            self.entries@.len() < usize::MAX,
        ensures
            r == shown_containers(self.entries@, self.filter@).len() + 1,
    {
        proof {
            lemma_shown_containers_bounds(self.entries@, self.filter@);
        }
        self.filtered_entries().len() + 1
    }

    /// Whether the "create new" row, after the containers, is selected.
    pub fn is_create_row(&self) -> (r: bool)
        ensures
            r == (self.selected == shown_containers(self.entries@, self.filter@).len()),
    {
        self.selected == self.filtered_entries().len()
    }

    /// The index of the selected container, if a container row is selected.
    pub fn selected_entry(&self) -> (r: Option<usize>)
        ensures
            match r {
                Some(i) => self.selected < shown_containers(self.entries@, self.filter@).len() && i == shown_containers(
                    self.entries@,
                    self.filter@,
                )[self.selected as int] && i < self.entries@.len(),
                None => self.selected >= shown_containers(self.entries@, self.filter@).len(),
            },
    {
        proof {
            lemma_shown_containers_bounds(self.entries@, self.filter@);
        }
        let filtered = self.filtered_entries();
        if self.selected < filtered.len() {
            Some(filtered[self.selected])
        } else {
            None
        }
    }

    /// Whether `container_id` is the primary container.
    pub fn is_primary(&self, container_id: &str) -> (r: bool)
        ensures
            r == (self.primary_container_id matches Some(p) && p@ == container_id@),
    {
        match &self.primary_container_id {
            Some(p) => crate::text::str_eq(p.as_str(), container_id),
            None => false,
        }
    }
}

/// What the devcontainer overlay does with a key press.
#[derive(Debug)]
pub enum DevContainerStep {
    Continue,
    Finish(DevContainerAction),
}

/// The folder prompt is open and holds `text`.
pub open spec fn prompt_is(st: OverlayState, text: Seq<char>) -> bool {
    st.create_input matches Some(t) && t@ == text
}

/// The folder the "create new" prompt starts from.
pub open spec fn default_folder(st: OverlayState) -> Seq<char> {
    match st.default_workspace_folder {
        Some(f) => f@,
        None => Seq::empty(),
    }
}

/// `r` finishes with an action on the container `e` named by `make`, when
/// `cond` holds of it; otherwise the overlay goes on.
pub open spec fn container_action(r: DevContainerStep, st: OverlayState, cond: spec_fn(ContainerInfo) -> bool, kind: int) -> bool {
    let shown = shown_containers(st.entries@, st.filter@);
    if st.selected < shown.len() && cond(st.entries@[shown[st.selected as int] as int]) {
        let id = st.entries@[shown[st.selected as int] as int].container_id@;
        r matches DevContainerStep::Finish(a) && match a {
            DevContainerAction::Connect { container_id } => kind == 0 && container_id@ == id,
            DevContainerAction::SetPrimary { container_id } => kind == 1 && container_id@ == id,
            DevContainerAction::StartContainer { container_id } => kind == 2 && container_id@ == id,
            DevContainerAction::StopContainer { container_id } => kind == 3 && container_id@ == id,
            DevContainerAction::DeleteContainer { container_id } => kind == 4 && container_id@ == id,
            _ => false,
        }
    } else {
        r == DevContainerStep::Continue
    }
}

impl OverlayState {
    /// Apply one key press. While a new container's folder is being typed,
    /// keys edit it (Enter creates the container from a non-empty folder,
    /// Escape cancels). Otherwise: Escape or `q` closes; Up/`k` and Down/`j`
    /// move over the containers and the "create new" row with wrap-around;
    /// Enter starts the folder prompt on the "create new" row, else expands
    /// or folds the selected container; `c`, `p`, `S` act on a running
    /// container (connect, make primary, stop); `s` and `d` on a stopped
    /// one (start, delete); `n` starts the folder prompt; `/` clears the
    /// filter and Backspace shortens it.
    pub fn handle_key(&mut self, press: KeyPress) -> (r: DevContainerStep)
        requires
            old(self).entries@.len() < usize::MAX,
        ensures
            final(self).entries == old(self).entries,
            final(self).primary_container_id == old(self).primary_container_id,
            final(self).default_workspace_folder == old(self).default_workspace_folder,
            ({
                let a = *old(self);
                let b = *final(self);
                let key = press.key;
                let plain = press.mods == Mods::Plain;
                let shown = shown_containers(a.entries@, a.filter@);
                let rows = shown.len() + 1;
                if a.create_input is Some {
                    let text = a.create_input->Some_0@;
                    if key == Key::Escape {
                        r == DevContainerStep::Continue && b == OverlayState { create_input: None, ..a }
                    } else if key == Key::Enter {
                        b == a && if text.len() > 0 {
                            r matches DevContainerStep::Finish(DevContainerAction::CreateContainer { workspace_folder })
                                && workspace_folder@ == text
                        } else {
                            r == DevContainerStep::Continue
                        }
                    } else if key == Key::Backspace {
                        r == DevContainerStep::Continue && prompt_is(b, without_last(text)) && b == OverlayState { create_input: b.create_input, ..a }
                    } else if key is Char {
                        r == DevContainerStep::Continue && prompt_is(b, text.push(key->Char_0)) && b == OverlayState { create_input: b.create_input, ..a }
                    } else {
                        r == DevContainerStep::Continue && b == a
                    }
                } else if key == Key::Escape || (key == Key::Char('q') && plain) {
                    r == DevContainerStep::Finish(DevContainerAction::Close) && b == a
                } else if key == Key::UpArrow || (key == Key::Char('k') && plain) {
                    r == DevContainerStep::Continue && b == OverlayState {
                        selected: if a.selected > 0 { (a.selected - 1) as usize } else { (rows - 1) as usize },
                        ..a
                    }
                } else if key == Key::DownArrow || (key == Key::Char('j') && plain) {
                    r == DevContainerStep::Continue && b == OverlayState {
                        selected: if a.selected < rows - 1 { (a.selected + 1) as usize } else { 0 },
                        ..a
                    }
                } else if key == Key::Enter {
                    r == DevContainerStep::Continue && if a.selected == shown.len() {
                        prompt_is(b, default_folder(a)) && b == OverlayState { create_input: b.create_input, ..a }
                    } else if a.selected < shown.len() {
                        let id = a.entries@[shown[a.selected as int] as int].container_id@;
                        if a.expanded matches Some(x) && x@ == id {
                            b == OverlayState { expanded: None, ..a }
                        } else {
                            b.expanded matches Some(x) && x@ == id && b == OverlayState { expanded: b.expanded, ..a }
                        }
                    } else {
                        b == a
                    }
                } else if key == Key::Char('c') && plain {
                    b == a && container_action(r, a, |e: ContainerInfo| e.running, 0)
                } else if key == Key::Char('p') && plain {
                    b == a && container_action(r, a, |e: ContainerInfo| e.running, 1)
                } else if key == Key::Char('s') && plain {
                    b == a && container_action(r, a, |e: ContainerInfo| !e.running, 2)
                } else if key == Key::Char('S') && (press.mods == Mods::Shift || plain) {
                    b == a && container_action(r, a, |e: ContainerInfo| e.running, 3)
                } else if key == Key::Char('d') && plain {
                    b == a && container_action(r, a, |e: ContainerInfo| !e.running, 4)
                } else if key == Key::Char('n') && plain {
                    r == DevContainerStep::Continue && prompt_is(b, default_folder(a)) && b == OverlayState { create_input: b.create_input, ..a }
                } else if key == Key::Char('/') {
                    r == DevContainerStep::Continue && b.filter@.len() == 0 && b == OverlayState { filter: b.filter, ..a }
                } else if key == Key::Backspace {
                    r == DevContainerStep::Continue && b.filter@ == without_last(a.filter@) && b == OverlayState {
                        filter: b.filter,
                        selected: 0,
                        ..a
                    }
                } else {
                    r == DevContainerStep::Continue && b == a
                }
            }),
    {
        let key = press.key;
        let plain = press.mods == Mods::Plain;
        if self.create_input.is_some() {
            if key == Key::Escape {
                self.create_input = None;
                return DevContainerStep::Continue;
            }
            if key == Key::Enter {
                let folder = match &self.create_input {
                    Some(f) => f.clone(),
                    None => String::new(),
                };
                if !folder.as_str().is_empty() {
                    return DevContainerStep::Finish(DevContainerAction::CreateContainer { workspace_folder: folder });
                }
                return DevContainerStep::Continue;
            }
            if key == Key::Backspace {
                let mut text = self.create_input.take().unwrap();
                let _ = pop_char(&mut text);
                self.create_input = Some(text);
                return DevContainerStep::Continue;
            }
            if let Key::Char(c) = key {
                let mut text = self.create_input.take().unwrap();
                push_char(&mut text, c);
                self.create_input = Some(text);
            }
            return DevContainerStep::Continue;
        }
        if key == Key::Escape || (key == Key::Char('q') && plain) {
            return DevContainerStep::Finish(DevContainerAction::Close);
        }
        if key == Key::UpArrow || (key == Key::Char('k') && plain) {
            let max = self.total_rows();
            if self.selected > 0 {
                self.selected = self.selected - 1;
            } else if max > 0 {
                self.selected = max - 1;
            }
            return DevContainerStep::Continue;
        }
        if key == Key::DownArrow || (key == Key::Char('j') && plain) {
            let max = self.total_rows() - 1;
            if self.selected < max {
                self.selected = self.selected + 1;
            } else {
                self.selected = 0;
            }
            return DevContainerStep::Continue;
        }
        if key == Key::Enter {
            if self.is_create_row() {
                self.create_input = Some(match &self.default_workspace_folder {
                    Some(f) => f.clone(),
                    None => String::new(),
                });
            } else if let Some(i) = self.selected_entry() {
                let same = match &self.expanded {
                    Some(x) => *x == self.entries[i].container_id,
                    None => false,
                };
                if same {
                    self.expanded = None;
                } else {
                    self.expanded = Some(self.entries[i].container_id.clone());
                }
            }
            return DevContainerStep::Continue;
        }
        let action_kind: u8 = if key == Key::Char('c') && plain {
            0
        } else if key == Key::Char('p') && plain {
            1
        } else if key == Key::Char('s') && plain {
            2
        } else if key == Key::Char('S') && (press.mods == Mods::Shift || plain) {
            3
        } else if key == Key::Char('d') && plain {
            4
        } else {
            5
        };
        if action_kind < 5 {
            if let Some(i) = self.selected_entry() {
                let e = &self.entries[i];
                let want_running = action_kind == 0 || action_kind == 1 || action_kind == 3;
                if e.running == want_running {
                    let id = e.container_id.clone();
                    return DevContainerStep::Finish(
                        if action_kind == 0 {
                            DevContainerAction::Connect { container_id: id }
                        } else if action_kind == 1 {
                            DevContainerAction::SetPrimary { container_id: id }
                        } else if action_kind == 2 {
                            DevContainerAction::StartContainer { container_id: id }
                        } else if action_kind == 3 {
                            DevContainerAction::StopContainer { container_id: id }
                        } else {
                            DevContainerAction::DeleteContainer { container_id: id }
                        },
                    );
                }
            }
            return DevContainerStep::Continue;
        }
        if key == Key::Char('n') && plain {
            self.create_input = Some(match &self.default_workspace_folder {
                Some(f) => f.clone(),
                None => String::new(),
            });
            return DevContainerStep::Continue;
        }
        if key == Key::Char('/') {
            self.filter = String::new();
            return DevContainerStep::Continue;
        }
        if key == Key::Backspace {
            let _ = pop_char(&mut self.filter);
            self.selected = 0;
            return DevContainerStep::Continue;
        }
        DevContainerStep::Continue
    }
}

} // verus!
