use weezterm::devcontainer_overlay::{ContainerInfo, OverlayState as ContainerOverlay};
use weezterm::overlay_screens::{devcontainer_screen, port_forward_screen, AnsiColor, Piece};
use weezterm::port_forward::{OverlayState as PortOverlay, PortDisplayEntry};

const RULE: &str = " ──────────────────────────────────────────────────\r\n";

fn texts(p: &[Piece]) -> Vec<String> {
    p.iter()
        .filter_map(|x| match x {
            Piece::Text(s) => Some(s.clone()),
            _ => None,
        })
        .collect()
}

fn colors(p: &[Piece]) -> Vec<AnsiColor> {
    p.iter()
        .filter_map(|x| match x {
            Piece::Fg(c) => Some(*c),
            _ => None,
        })
        .collect()
}

fn port(remote: u16, local: u16, label: Option<&str>, fwd: bool, err: Option<&str>) -> PortDisplayEntry {
    PortDisplayEntry {
        remote_port: remote,
        local_port: local,
        remote_host: "127.0.0.1".to_string(),
        label: label.map(|s| s.to_string()),
        is_forwarded: fwd,
        is_error: err.is_some(),
        error_msg: err.map(|s| s.to_string()),
    }
}

#[test]
fn port_forward_screen_lists_ports() {
    let st = PortOverlay {
        entries: vec![
            port(3000, 3000, Some("webpack"), true, None),
            port(8080, 0, None, false, None),
            port(9000, 0, None, false, Some("refused")),
        ],
        selected: 1,
        filter: String::new(),
        action: None,
    };
    let p = port_forward_screen(&st);
    assert_eq!(&p[..3], &[Piece::Fg(AnsiColor::White), Piece::Bold, Piece::Text(" Port Forwarding                      [Esc] close\r\n".to_string())]);
    assert_eq!(p[3], Piece::Normal);
    assert_eq!(
        texts(&p),
        vec![
            " Port Forwarding                      [Esc] close\r\n",
            RULE,
            "   ", "● ", ":3000 → localhost:3000", "  (webpack)", "\r\n",
            " ▸ ", "○ ", ":8080", "  (detected)", "\r\n",
            "   ", "✗ ", ":9000", "  [refused]", "\r\n",
            RULE,
            " [Enter] toggle  [F]orward new  [S]top  [D]elete  ",
        ]
    );
    assert_eq!(
        colors(&p),
        vec![
            AnsiColor::White, AnsiColor::Grey,
            AnsiColor::Green, AnsiColor::White, AnsiColor::Grey,
            AnsiColor::Cyan, AnsiColor::Yellow, AnsiColor::White, AnsiColor::Grey,
            AnsiColor::Red, AnsiColor::White, AnsiColor::Red,
            AnsiColor::Grey,
        ]
    );
}

#[test]
fn port_forward_screen_without_ports_shows_filter() {
    let st = PortOverlay { entries: vec![port(3000, 0, None, false, None)], selected: 0, filter: "80".to_string(), action: None };
    let t = texts(&port_forward_screen(&st));
    assert_eq!(t[2], "  No ports detected. Waiting for activity...\r\n");
    assert_eq!(t.last().unwrap(), "\r\n Filter: 80");
}

fn container(id: &str, name: &str, image: &str, folder: &str, ws: Option<&str>, running: bool) -> ContainerInfo {
    ContainerInfo {
        container_id: id.to_string(),
        container_name: name.to_string(),
        image: image.to_string(),
        local_folder: folder.to_string(),
        workspace_folder: ws.map(|s| s.to_string()),
        running,
    }
}

fn overlay(entries: Vec<ContainerInfo>) -> ContainerOverlay {
    ContainerOverlay {
        entries,
        selected: 0,
        filter: String::new(),
        primary_container_id: Some("ff".to_string()),
        domain_name: "local".to_string(),
        host_label: "local".to_string(),
        expanded: Some("abcdef0123456789".to_string()),
        create_input: Some("/tmp".to_string()),
        default_workspace_folder: None,
    }
}

#[test]
fn devcontainer_screen_groups_running_and_stopped() {
    let st = overlay(vec![
        container("ff", "a-very-long-container-name", "mcr.microsoft.com/devcontainers/rust", "/src/x", None, false),
        container("abcdef0123456789", "web", "node:18", "/src/web", Some("/workspaces/web"), true),
    ]);
    let p = devcontainer_screen(&st);
    assert_eq!(
        texts(&p),
        vec![
            " DevContainer Manager ─ local".to_string(),
            "                    Esc close\r\n".to_string(),
            RULE.to_string(),
            "\r\n".to_string(),
            " RUNNING (1)\r\n\r\n".to_string(),
            " ▾ ".to_string(), "● ".to_string(), "  ".to_string(),
            format!("web{}", " ".repeat(17)),
            format!(" node:18{}", " ".repeat(9)),
            "  /src/web".to_string(),
            "\r\n".to_string(),
            "   │  ID ··············· abcdef012345\r\n".to_string(),
            "   │  Image ············ node:18\r\n".to_string(),
            "   │  Folder ··········· /src/web\r\n".to_string(),
            "   │  Workspace ········ /workspaces/web\r\n".to_string(),
            "   │\r\n".to_string(),
            "   │  [c] Connect  [p] Set primary  [S] Stop\r\n".to_string(),
            "   │\r\n".to_string(),
            "\r\n".to_string(),
            " STOPPED (1)\r\n\r\n".to_string(),
            "   ".to_string(), "○ ".to_string(), "★ ".to_string(),
            "a-very-long-contai..".to_string(),
            " mcr.microsoft.co".to_string(),
            "  /src/x".to_string(),
            "\r\n".to_string(),
            "\r\n".to_string(),
            "   ".to_string(),
            "+ Create new container...\r\n".to_string(),
            "   │\r\n".to_string(),
            "   │  Workspace folder: ".to_string(),
            "/tmp▏\r\n".to_string(),
            "   │\r\n".to_string(),
            RULE.to_string(),
            " ★ = primary (new tabs open here)\r\n".to_string(),
            " Enter expand  c connect  p primary  n new  s start  S stop  d delete\r\n".to_string(),
        ]
    );
    assert_eq!(&p[..2], &[Piece::Fg(AnsiColor::White), Piece::Bold]);
}

#[test]
fn devcontainer_screen_without_containers() {
    let mut st = overlay(vec![]);
    st.create_input = None;
    let t = texts(&devcontainer_screen(&st));
    assert_eq!(t[3], "\r\n ⚠ No devcontainers found.\r\n\r\n");
    assert_eq!(t[4], "   Press n to create a new devcontainer.\r\n\r\n");
    assert_eq!(t.len(), 8);
}
