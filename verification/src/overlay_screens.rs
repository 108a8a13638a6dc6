//! The screens of the port forwarding and devcontainer overlays: the text
//! and color changes that draw them, in order. Sending them to the
//! terminal is the caller's.
use vstd::prelude::*;

use crate::devcontainer_overlay::{shown_containers, ContainerInfo, OverlayState as ContainerOverlay};
use crate::port_forward::{shown_entries, OverlayState as PortOverlay, PortDisplayEntry};
use crate::text::{decimal_of, push_decimal, push_str_chars};
use crate::overlay_view::{byte_len, repeated, utf8_len};
use vstd::utf8::{decode_utf8, encode_utf8, encode_utf8_decode_utf8, is_char_boundary};

verus! {

/// The terminal colors the overlays use.
#[derive(Debug, Clone, Copy, PartialEq, Eq, Structural)]
pub enum AnsiColor {
    White,
    Grey,
    Aqua,
    Cyan,
    Green,
    Yellow,
    Red,
}

/// A change to the screen: text, a foreground color, or bold or normal
/// intensity.
#[derive(Debug, PartialEq, Eq)]
pub enum Piece {
    Text(String),
    Fg(AnsiColor),
    Bold,
    Normal,
}

pub enum PieceView {
    Text(Seq<char>),
    Fg(AnsiColor),
    Bold,
    Normal,
}

pub open spec fn piece_view(p: Piece) -> PieceView {
    match p {
        Piece::Text(s) => PieceView::Text(s@),
        Piece::Fg(c) => PieceView::Fg(c),
        Piece::Bold => PieceView::Bold,
        Piece::Normal => PieceView::Normal,
    }
}

pub open spec fn pieces_view(v: Seq<Piece>) -> Seq<PieceView> {
    v.map_values(|p: Piece| piece_view(p))
}

/// `acc` followed by a text.
pub open spec fn t(acc: Seq<PieceView>, s: Seq<char>) -> Seq<PieceView> {
    acc.push(PieceView::Text(s))
}

/// `acc` followed by a foreground color.
pub open spec fn f(acc: Seq<PieceView>, c: AnsiColor) -> Seq<PieceView> {
    acc.push(PieceView::Fg(c))
}

/// `acc` followed by bold white.
pub open spec fn bold_white(acc: Seq<PieceView>) -> Seq<PieceView> {
    acc.push(PieceView::Fg(AnsiColor::White)).push(PieceView::Bold)
}

/// `acc` followed by normal white.
pub open spec fn white(acc: Seq<PieceView>) -> Seq<PieceView> {
    acc.push(PieceView::Fg(AnsiColor::White)).push(PieceView::Normal)
}

/// `acc` followed by normal grey.
pub open spec fn grey(acc: Seq<PieceView>) -> Seq<PieceView> {
    acc.push(PieceView::Fg(AnsiColor::Grey)).push(PieceView::Normal)
}

/// The rule under the headers and above the footers.
pub open spec fn rule() -> Seq<char> {
    " ──────────────────────────────────────────────────\r\n"@
}

fn push_text(out: &mut Vec<Piece>, s: &str)
    ensures
        pieces_view(final(out)@) == t(pieces_view(old(out)@), s@),
{
    out.push(Piece::Text(s.to_owned()));
    assert(pieces_view(out@) =~= t(pieces_view(old(out)@), s@));
}

fn push_string(out: &mut Vec<Piece>, s: String)
    ensures
        pieces_view(final(out)@) == t(pieces_view(old(out)@), s@),
{
    let ghost v = s@;
    out.push(Piece::Text(s));
    assert(pieces_view(out@) =~= t(pieces_view(old(out)@), v));
}

fn push_fg(out: &mut Vec<Piece>, c: AnsiColor)
    ensures
        pieces_view(final(out)@) == f(pieces_view(old(out)@), c),
{
    out.push(Piece::Fg(c));
    assert(pieces_view(out@) =~= f(pieces_view(old(out)@), c));
}

fn push_plain(out: &mut Vec<Piece>, p: Piece)
    ensures
        pieces_view(final(out)@) == pieces_view(old(out)@).push(piece_view(p)),
{
    let ghost v = piece_view(p);
    out.push(p);
    assert(pieces_view(out@) =~= pieces_view(old(out)@).push(v));
}

fn push_bold_white(out: &mut Vec<Piece>)
    ensures
        pieces_view(final(out)@) == bold_white(pieces_view(old(out)@)),
{
    push_plain(out, Piece::Fg(AnsiColor::White));
    push_plain(out, Piece::Bold);
}

fn push_white(out: &mut Vec<Piece>)
    ensures
        pieces_view(final(out)@) == white(pieces_view(old(out)@)),
{
    push_plain(out, Piece::Fg(AnsiColor::White));
    push_plain(out, Piece::Normal);
}

fn push_grey(out: &mut Vec<Piece>)
    ensures
        pieces_view(final(out)@) == grey(pieces_view(old(out)@)),
{
    push_plain(out, Piece::Fg(AnsiColor::Grey));
    push_plain(out, Piece::Normal);
}

/// The port of an entry: the remote port, and where it is forwarded to.
pub open spec fn port_text(e: PortDisplayEntry) -> Seq<char> {
    if e.is_forwarded {
        ":"@ + decimal_of(e.remote_port as nat) + " → localhost:"@ + decimal_of(e.local_port as nat)
    } else {
        ":"@ + decimal_of(e.remote_port as nat)
    }
}

/// `acc` followed by a line of the port list: a marker on the selected
/// entry, its state (failed, forwarded or only detected), its port, label
/// and error, and a note on a port only detected.
pub open spec fn port_row(acc: Seq<PieceView>, e: PortDisplayEntry, selected: bool) -> Seq<PieceView> {
    let a1 = if selected { t(f(acc, AnsiColor::Cyan), " ▸ "@) } else { t(acc, "   "@) };
    let a2 = if e.is_error {
        t(f(a1, AnsiColor::Red), "✗ "@)
    } else if e.is_forwarded {
        t(f(a1, AnsiColor::Green), "● "@)
    } else {
        t(f(a1, AnsiColor::Yellow), "○ "@)
    };
    let a3 = t(f(a2, AnsiColor::White), port_text(e));
    let a4 = match e.label {
        Some(l) => t(f(a3, AnsiColor::Grey), "  ("@ + l@ + ")"@),
        None => a3,
    };
    let a5 = match e.error_msg {
        Some(m) => t(f(a4, AnsiColor::Red), "  ["@ + m@ + "]"@),
        None => a4,
    };
    let a6 = if !e.is_forwarded && !e.is_error { t(f(a5, AnsiColor::Grey), "  (detected)"@) } else { a5 };
    t(a6, "\r\n"@)
}

/// `acc` followed by the rows of the shown ports.
pub open spec fn port_rows(acc: Seq<PieceView>, es: Seq<PortDisplayEntry>, selected: int) -> Seq<PieceView>
    decreases es.len(),
{
    if es.len() == 0 {
        acc
    } else {
        port_row(port_rows(acc, es.drop_last(), selected), es.last(), es.len() - 1 == selected)
    }
}

/// The port forwarding screen: a header, a line per shown port (or a note
/// when none is shown), the footer with the keys, and the filter if any.
pub open spec fn spec_port_screen(st: PortOverlay) -> Seq<PieceView> {
    let shown = shown_entries(st.entries@, st.filter@);
    let head = t(
        f(t(bold_white(Seq::empty()), " Port Forwarding                      [Esc] close\r\n"@).push(PieceView::Normal), AnsiColor::Grey),
        rule(),
    );
    let body = if shown.len() == 0 {
        t(f(head, AnsiColor::Grey), "  No ports detected. Waiting for activity...\r\n"@)
    } else {
        port_rows(head, shown, st.selected as int)
    };
    let foot = t(t(f(body, AnsiColor::Grey), rule()), " [Enter] toggle  [F]orward new  [S]top  [D]elete  "@);
    if st.filter@.len() > 0 { t(foot, "\r\n Filter: "@ + st.filter@) } else { foot }
}

fn port_row_exec(e: &PortDisplayEntry, selected: bool, out: &mut Vec<Piece>)
    ensures
        pieces_view(final(out)@) == port_row(pieces_view(old(out)@), *e, selected),
{
    if selected {
        push_fg(out, AnsiColor::Cyan);
        push_text(out, " ▸ ");
    } else {
        push_text(out, "   ");
    }
    if e.is_error {
        push_fg(out, AnsiColor::Red);
        push_text(out, "✗ ");
    } else if e.is_forwarded {
        push_fg(out, AnsiColor::Green);
        push_text(out, "● ");
    } else {
        push_fg(out, AnsiColor::Yellow);
        push_text(out, "○ ");
    }
    push_fg(out, AnsiColor::White);
    let mut p = ":".to_owned();
    push_decimal(&mut p, e.remote_port as u64);
    if e.is_forwarded {
        push_str_chars(&mut p, " → localhost:");
        push_decimal(&mut p, e.local_port as u64);
    }
    push_string(out, p);
    if let Some(l) = &e.label {
        push_fg(out, AnsiColor::Grey);
        let mut s = "  (".to_owned();
        push_str_chars(&mut s, l.as_str());
        push_str_chars(&mut s, ")");
        push_string(out, s);
    }
    if let Some(m) = &e.error_msg {
        push_fg(out, AnsiColor::Red);
        let mut s = "  [".to_owned();
        push_str_chars(&mut s, m.as_str());
        push_str_chars(&mut s, "]");
        push_string(out, s);
    }
    if !e.is_forwarded && !e.is_error {
        push_fg(out, AnsiColor::Grey);
        push_text(out, "  (detected)");
    }
    push_text(out, "\r\n");
}

/// The port forwarding screen for the overlay's state.
pub fn port_forward_screen(st: &PortOverlay) -> (r: Vec<Piece>)
    ensures
        pieces_view(r@) == spec_port_screen(*st),
{
    let mut out: Vec<Piece> = Vec::new();
    assert(pieces_view(out@) =~= Seq::<PieceView>::empty());
    push_bold_white(&mut out);
    push_text(&mut out, " Port Forwarding                      [Esc] close\r\n");
    push_plain(&mut out, Piece::Normal);
    push_fg(&mut out, AnsiColor::Grey);
    push_text(&mut out, " ──────────────────────────────────────────────────\r\n");
    let ghost head = pieces_view(out@);
    let shown = st.filtered_entries();
    let ghost sv = shown_entries(st.entries@, st.filter@);
    if shown.len() == 0 {
        push_fg(&mut out, AnsiColor::Grey);
        push_text(&mut out, "  No ports detected. Waiting for activity...\r\n");
    } else {
        let mut i: usize = 0;
        while i < shown.len()
            invariant
                i <= shown@.len(),
                shown@.map_values(|e: &PortDisplayEntry| *e) == sv,
                pieces_view(out@) == port_rows(head, sv.take(i as int), st.selected as int),
            decreases shown@.len() - i,
        {
            let ghost tk = sv.take(i + 1);
            assert(tk.drop_last() =~= sv.take(i as int));
            assert(tk.last() == *shown@[i as int]);
            port_row_exec(shown[i], i == st.selected, &mut out);
            i += 1;
        }
        assert(sv.take(sv.len() as int) =~= sv);
    }
    push_fg(&mut out, AnsiColor::Grey);
    push_text(&mut out, " ──────────────────────────────────────────────────\r\n");
    push_text(&mut out, " [Enter] toggle  [F]orward new  [S]top  [D]elete  ");
    if !st.filter.as_str().is_empty() {
        let mut s = "\r\n Filter: ".to_owned();
        push_str_chars(&mut s, st.filter.as_str());
        push_string(&mut out, s);
    }
    out
}

/// The first `n` bytes of `s`, as characters.
pub open spec fn byte_prefix(s: Seq<char>, n: int) -> Seq<char> {
    decode_utf8(encode_utf8(s).subrange(0, n))
}

/// `s` padded with spaces to `w` characters.
pub open spec fn pad_right(s: Seq<char>, w: int) -> Seq<char> {
    if s.len() < w { s + repeated(' ', (w - s.len()) as nat) } else { s }
}

/// A container's name column: cut to 18 bytes and `..` when over 20 bytes,
/// else padded to 20 characters.
pub open spec fn name_cell(name: Seq<char>) -> Seq<char> {
    if utf8_len(name) > 20 { byte_prefix(name, 18) + ".."@ } else { pad_right(name, 20) }
}

/// A container's image column: its first 16 bytes, padded to 16
/// characters, after a blank.
pub open spec fn image_cell(image: Seq<char>) -> Seq<char> {
    " "@ + pad_right(if utf8_len(image) > 16 { byte_prefix(image, 16) } else { image }, 16)
}

/// A container's id, cut to 12 bytes.
pub open spec fn short_id(id: Seq<char>) -> Seq<char> {
    if utf8_len(id) > 12 { byte_prefix(id, 12) } else { id }
}

/// The texts a container row cuts are cut at character boundaries.
pub open spec fn cuts_cleanly(e: ContainerInfo) -> bool {
    &&& utf8_len(e.container_name@) > 20 ==> is_char_boundary(encode_utf8(e.container_name@), 18)
    &&& utf8_len(e.image@) > 16 ==> is_char_boundary(encode_utf8(e.image@), 16)
    &&& utf8_len(e.container_id@) > 12 ==> is_char_boundary(encode_utf8(e.container_id@), 12)
}

pub open spec fn is_expanded(st: ContainerOverlay, e: ContainerInfo) -> bool {
    st.expanded matches Some(x) && x@ == e.container_id@
}

/// `acc` followed by a container's line: a marker on the selected row
/// (open or closed as the container's details are shown), its state, a
/// star on the primary container, its name, image and folder.
pub open spec fn container_row(acc: Seq<PieceView>, st: ContainerOverlay, e: ContainerInfo, row: int) -> Seq<PieceView> {
    let primary = st.primary_container_id matches Some(p) && p@ == e.container_id@;
    let a1 = if st.selected == row {
        t(f(acc, AnsiColor::Aqua), if is_expanded(st, e) { " ▾ "@ } else { " ▸ "@ })
    } else {
        t(acc, "   "@)
    };
    let a2 = if e.running { t(f(a1, AnsiColor::Green), "● "@) } else { t(f(a1, AnsiColor::Yellow), "○ "@) };
    let a3 = if primary { t(f(a2, AnsiColor::Yellow), "★ "@) } else { t(a2, "  "@) };
    let a4 = t(bold_white(a3), name_cell(e.container_name@));
    t(t(t(grey(a4), image_cell(e.image@)), "  "@ + e.local_folder@), "\r\n"@)
}

/// `acc` followed by the details under an expanded container.
pub open spec fn container_details(acc: Seq<PieceView>, e: ContainerInfo) -> Seq<PieceView> {
    let a1 = t(t(t(t(grey(acc), "   │  ID ··············· "@ + short_id(e.container_id@) + "\r\n"@), "   │  Image ············ "@ + e.image@ + "\r\n"@),
        "   │  Folder ··········· "@ + e.local_folder@ + "\r\n"@),
        "   │  Workspace ········ "@ + (match e.workspace_folder { Some(w) => w@, None => "(unknown)"@ }) + "\r\n"@);
    let a2 = white(t(a1, "   │\r\n"@));
    let a3 = t(a2, if e.running { "   │  [c] Connect  [p] Set primary  [S] Stop\r\n"@ } else { "   │  [s] Start  [d] Delete\r\n"@ });
    t(grey(a3), "   │\r\n"@)
}

/// `acc` followed by a container's row and, when expanded, its details.
pub open spec fn container_block(acc: Seq<PieceView>, st: ContainerOverlay, e: ContainerInfo, row: int) -> Seq<PieceView> {
    let a = container_row(acc, st, e, row);
    if is_expanded(st, e) { container_details(a, e) } else { a }
}

/// `acc` followed by the blocks of containers `ids` (indices into the
/// entries), numbered from `first`.
pub open spec fn container_blocks(acc: Seq<PieceView>, st: ContainerOverlay, ids: Seq<usize>, first: int) -> Seq<PieceView>
    decreases ids.len(),
{
    if ids.len() == 0 {
        acc
    } else {
        container_block(container_blocks(acc, st, ids.drop_last(), first), st, st.entries@[ids.last() as int], first + ids.len() - 1)
    }
}

/// The running (or stopped) containers among `ids`, in order.
pub open spec fn with_state(st: ContainerOverlay, ids: Seq<usize>, running: bool) -> Seq<usize> {
    ids.filter(|i: usize| st.entries@[i as int].running == running)
}

/// `acc` followed by a group of containers under its heading, numbered
/// from `first`; nothing for an empty group.
pub open spec fn group(acc: Seq<PieceView>, st: ContainerOverlay, ids: Seq<usize>, first: int, title: Seq<char>) -> Seq<PieceView> {
    if ids.len() == 0 {
        acc
    } else {
        t(container_blocks(t(bold_white(acc), " "@ + title + " ("@ + decimal_of(ids.len()) + ")\r\n\r\n"@), st, ids, first), "\r\n"@)
    }
}

/// The devcontainer screen: the header with the host, the running then
/// the stopped containers (or a hint when there are none at all), the row
/// creating a container with the folder being typed, and the footer.
pub open spec fn spec_container_screen(st: ContainerOverlay) -> Seq<PieceView> {
    let shown = shown_containers(st.entries@, st.filter@);
    let running = with_state(st, shown, true);
    let stopped = with_state(st, shown, false);
    let head = t(t(grey(t(bold_white(Seq::empty()), " DevContainer Manager ─ "@ + st.host_label@)), "                    Esc close\r\n"@), rule());
    let body = if shown.len() == 0 && st.entries@.len() == 0 {
        t(t(grey(head), "\r\n ⚠ No devcontainers found.\r\n\r\n"@), "   Press n to create a new devcontainer.\r\n\r\n"@)
    } else {
        let g = group(group(t(head, "\r\n"@), st, running, 0, "RUNNING"@), st, stopped, running.len() as int, "STOPPED"@);
        let c1 = if st.selected == running.len() + stopped.len() { t(f(g, AnsiColor::Aqua), " ▸ "@) } else { t(g, "   "@) };
        let c2 = t(f(c1, AnsiColor::Green), "+ Create new container...\r\n"@);
        match st.create_input {
            Some(x) => t(grey(t(white(t(t(grey(c2), "   │\r\n"@), "   │  Workspace folder: "@)), x@ + "▏\r\n"@)), "   │\r\n"@),
            None => c2,
        }
    };
    t(white(t(t(grey(body), rule()), " ★ = primary (new tabs open here)\r\n"@)), " Enter expand  c connect  p primary  n new  s start  S stop  d delete\r\n"@)
}

fn cut_bytes(s: &str, n: usize) -> (r: String)
    requires
        is_char_boundary(encode_utf8(s@), n as int),
    ensures
        r@ == byte_prefix(s@, n as int),
{
    let (head, _) = s.split_at(n);
    proof {
        encode_utf8_decode_utf8(head@);
    }
    head.to_owned()
}

fn pad_spaces_to(s: &mut String, w: usize)
    ensures
        final(s)@ == pad_right(old(s)@, w as int),
{
    let n = crate::text::chars_of(s.as_str()).len();
    if n < w {
        let mut i: usize = n;
        let ghost base = s@;
        while i < w
            invariant
                n <= i <= w,
                n == base.len(),
                s@ == base + repeated(' ', (i - n) as nat),
            decreases w - i,
        {
            crate::text::push_char(s, ' ');
            assert(s@ =~= base + repeated(' ', (i + 1 - n) as nat));
            i += 1;
        }
    }
}

fn container_row_exec(st: &ContainerOverlay, e: &ContainerInfo, row: usize, out: &mut Vec<Piece>) -> (expanded: bool)
    requires
        cuts_cleanly(*e),
    ensures
        pieces_view(final(out)@) == container_row(pieces_view(old(out)@), *st, *e, row as int),
        expanded == is_expanded(*st, *e),
{
    let expanded = match &st.expanded {
        Some(x) => crate::text::str_eq(x.as_str(), e.container_id.as_str()),
        None => false,
    };
    if st.selected == row {
        push_fg(out, AnsiColor::Aqua);
        if expanded {
            push_text(out, " ▾ ");
        } else {
            push_text(out, " ▸ ");
        }
    } else {
        push_text(out, "   ");
    }
    if e.running {
        push_fg(out, AnsiColor::Green);
        push_text(out, "● ");
    } else {
        push_fg(out, AnsiColor::Yellow);
        push_text(out, "○ ");
    }
    if st.is_primary(e.container_id.as_str()) {
        push_fg(out, AnsiColor::Yellow);
        push_text(out, "★ ");
    } else {
        push_text(out, "  ");
    }
    push_bold_white(out);
    let name = if byte_len(&e.container_name) > 20 {
        let mut s = cut_bytes(e.container_name.as_str(), 18);
        push_str_chars(&mut s, "..");
        s
    } else {
        let mut s = e.container_name.clone();
        pad_spaces_to(&mut s, 20);
        s
    };
    push_string(out, name);
    push_grey(out);
    let mut image = if byte_len(&e.image) > 16 { cut_bytes(e.image.as_str(), 16) } else { e.image.clone() };
    pad_spaces_to(&mut image, 16);
    let mut img = " ".to_owned();
    push_str_chars(&mut img, image.as_str());
    push_string(out, img);
    let mut folder = "  ".to_owned();
    push_str_chars(&mut folder, e.local_folder.as_str());
    push_string(out, folder);
    push_text(out, "\r\n");
    expanded
}

fn container_details_exec(e: &ContainerInfo, out: &mut Vec<Piece>)
    requires
        cuts_cleanly(*e),
    ensures
        pieces_view(final(out)@) == container_details(pieces_view(old(out)@), *e),
{
    push_grey(out);
    let id = if byte_len(&e.container_id) > 12 { cut_bytes(e.container_id.as_str(), 12) } else { e.container_id.clone() };
    let mut l1 = "   │  ID ··············· ".to_owned();
    push_str_chars(&mut l1, id.as_str());
    push_str_chars(&mut l1, "\r\n");
    push_string(out, l1);
    let mut l2 = "   │  Image ············ ".to_owned();
    push_str_chars(&mut l2, e.image.as_str());
    push_str_chars(&mut l2, "\r\n");
    push_string(out, l2);
    let mut l3 = "   │  Folder ··········· ".to_owned();
    push_str_chars(&mut l3, e.local_folder.as_str());
    push_str_chars(&mut l3, "\r\n");
    push_string(out, l3);
    let mut l4 = "   │  Workspace ········ ".to_owned();
    match &e.workspace_folder {
        Some(w) => push_str_chars(&mut l4, w.as_str()),
        None => push_str_chars(&mut l4, "(unknown)"),
    }
    push_str_chars(&mut l4, "\r\n");
    push_string(out, l4);
    push_text(out, "   │\r\n");
    push_white(out);
    if e.running {
        push_text(out, "   │  [c] Connect  [p] Set primary  [S] Stop\r\n");
    } else {
        push_text(out, "   │  [s] Start  [d] Delete\r\n");
    }
    push_grey(out);
    push_text(out, "   │\r\n");
}

fn group_exec(st: &ContainerOverlay, ids: &Vec<usize>, first: usize, title: &str, out: &mut Vec<Piece>)
    requires
        forall|k: int| 0 <= k < ids@.len() ==> (#[trigger] ids@[k]) < st.entries@.len(),
        forall|k: int| 0 <= k < st.entries@.len() ==> cuts_cleanly(#[trigger] st.entries@[k]),
        first + ids@.len() <= usize::MAX,
    ensures
        pieces_view(final(out)@) == group(pieces_view(old(out)@), *st, ids@, first as int, title@),
{
    if ids.len() == 0 {
        return;
    }
    push_bold_white(out);
    let mut h = " ".to_owned();
    push_str_chars(&mut h, title);
    push_str_chars(&mut h, " (");
    push_decimal(&mut h, ids.len() as u64);
    push_str_chars(&mut h, ")\r\n\r\n");
    push_string(out, h);
    let ghost head = pieces_view(out@);
    let mut k: usize = 0;
    while k < ids.len()
        invariant
            k <= ids@.len(),
            forall|q: int| 0 <= q < ids@.len() ==> (#[trigger] ids@[q]) < st.entries@.len(),
            forall|q: int| 0 <= q < st.entries@.len() ==> cuts_cleanly(#[trigger] st.entries@[q]),
            first + ids@.len() <= usize::MAX,
            pieces_view(out@) == container_blocks(head, *st, ids@.take(k as int), first as int),
        decreases ids@.len() - k,
    {
        let ghost tk = ids@.take(k + 1);
        assert(tk.drop_last() =~= ids@.take(k as int));
        assert(tk.last() == ids@[k as int]);
        let e = &st.entries[ids[k]];
        if container_row_exec(st, e, first + k, out) {
            container_details_exec(e, out);
        }
        k += 1;
    }
    assert(ids@.take(ids@.len() as int) =~= ids@);
    push_text(out, "\r\n");
}

fn split_by_state(st: &ContainerOverlay, shown: &Vec<usize>) -> (r: (Vec<usize>, Vec<usize>))
    requires
        forall|q: int| 0 <= q < shown@.len() ==> (#[trigger] shown@[q]) < st.entries@.len(),
    ensures
        r.0@ == with_state(*st, shown@, true),
        r.1@ == with_state(*st, shown@, false),
        forall|q: int| 0 <= q < r.0@.len() ==> (#[trigger] r.0@[q]) < st.entries@.len(),
        forall|q: int| 0 <= q < r.1@.len() ==> (#[trigger] r.1@[q]) < st.entries@.len(),
        r.0@.len() + r.1@.len() == shown@.len(),
{
    let mut running: Vec<usize> = Vec::new();
    let mut stopped: Vec<usize> = Vec::new();
    let mut i: usize = 0;
    while i < shown.len()
        invariant
            i <= shown@.len(),
            forall|q: int| 0 <= q < shown@.len() ==> (#[trigger] shown@[q]) < st.entries@.len(),
            running@ == with_state(*st, shown@.take(i as int), true),
            stopped@ == with_state(*st, shown@.take(i as int), false),
            forall|q: int| 0 <= q < running@.len() ==> (#[trigger] running@[q]) < st.entries@.len(),
            forall|q: int| 0 <= q < stopped@.len() ==> (#[trigger] stopped@[q]) < st.entries@.len(),
            running@.len() + stopped@.len() == i,
        decreases shown@.len() - i,
    {
        let ghost pre = shown@.take(i as int);
        assert(shown@.take(i + 1) =~= pre.push(shown@[i as int]));
        proof {
            pre.lemma_filter_push(shown@[i as int], |j: usize| st.entries@[j as int].running == true);
            pre.lemma_filter_push(shown@[i as int], |j: usize| st.entries@[j as int].running == false);
        }
        let x = shown[i];
        if st.entries[x].running {
            running.push(x);
        } else {
            stopped.push(x);
        }
        i += 1;
    }
    assert(shown@.take(shown@.len() as int) =~= shown@);
    (running, stopped)
}

/// The devcontainer screen for the overlay's state.
pub fn devcontainer_screen(st: &ContainerOverlay) -> (r: Vec<Piece>)
    requires
        forall|k: int| 0 <= k < st.entries@.len() ==> cuts_cleanly(#[trigger] st.entries@[k]),
    ensures
        pieces_view(r@) == spec_container_screen(*st),
{
    let mut out: Vec<Piece> = Vec::new();
    assert(pieces_view(out@) =~= Seq::<PieceView>::empty());
    push_bold_white(&mut out);
    let mut h = " DevContainer Manager ─ ".to_owned();
    push_str_chars(&mut h, st.host_label.as_str());
    push_string(&mut out, h);
    push_grey(&mut out);
    push_text(&mut out, "                    Esc close\r\n");
    push_text(&mut out, " ──────────────────────────────────────────────────\r\n");
    let shown = st.filtered_entries();
    proof {
        crate::devcontainer_overlay::lemma_shown_containers_bounds(st.entries@, st.filter@);
    }
    if shown.len() == 0 && st.entries.len() == 0 {
        push_grey(&mut out);
        push_text(&mut out, "\r\n ⚠ No devcontainers found.\r\n\r\n");
        push_text(&mut out, "   Press n to create a new devcontainer.\r\n\r\n");
    } else {
        push_text(&mut out, "\r\n");
        let (running, stopped) = split_by_state(st, &shown);
        group_exec(st, &running, 0, "RUNNING", &mut out);
        group_exec(st, &stopped, running.len(), "STOPPED", &mut out);
        let n = running.len() + stopped.len();
        if st.selected == n {
            push_fg(&mut out, AnsiColor::Aqua);
            push_text(&mut out, " ▸ ");
        } else {
            push_text(&mut out, "   ");
        }
        push_fg(&mut out, AnsiColor::Green);
        push_text(&mut out, "+ Create new container...\r\n");
        if let Some(x) = &st.create_input {
            push_grey(&mut out);
            push_text(&mut out, "   │\r\n");
            push_text(&mut out, "   │  Workspace folder: ");
            push_white(&mut out);
            let mut l = x.clone();
            push_str_chars(&mut l, "▏\r\n");
            push_string(&mut out, l);
            push_grey(&mut out);
            push_text(&mut out, "   │\r\n");
        }
    }
    push_grey(&mut out);
    push_text(&mut out, " ──────────────────────────────────────────────────\r\n");
    push_text(&mut out, " ★ = primary (new tabs open here)\r\n");
    push_white(&mut out);
    push_text(&mut out, " Enter expand  c connect  p primary  n new  s start  S stop  d delete\r\n");
    out
}

} // verus!
