//! Toast notifications: what is shown and how the notification server's
//! replies are read.
use vstd::prelude::*;

use crate::text::{owned, push_char, push_str_chars, str_eq};

verus! {

/// A desktop notification.
#[derive(Debug)]
pub struct ToastNotification {
    pub title: String,
    pub message: String,
    /// A URL opened when the user clicks the notification's button.
    pub url: Option<String>,
    /// How long the notification stays up, in seconds; `None` for the
    /// server's default.
    pub timeout_secs: Option<u64>,
}

pub open spec fn opt_view(s: Option<String>) -> Option<Seq<char>> {
    match s {
        Some(v) => Some(v@),
        None => None,
    }
}

/// A notification that stays until dismissed and opens `url` when clicked.
pub fn persistent_toast_notification_with_click_to_open_url(
    title: &str,
    message: &str,
    url: &str,
) -> (r: ToastNotification)
    ensures
        r.title@ == title@,
        r.message@ == message@,
        opt_view(r.url) == Some(url@),
        r.timeout_secs is None,
{
    ToastNotification {
        title: owned(title),
        message: owned(message),
        url: Some(owned(url)),
        timeout_secs: None,
    }
}

/// A notification that stays until dismissed.
pub fn persistent_toast_notification(title: &str, message: &str) -> (r: ToastNotification)
    ensures
        r.title@ == title@,
        r.message@ == message@,
        r.url is None,
        r.timeout_secs is None,
{
    ToastNotification { title: owned(title), message: owned(message), url: None, timeout_secs: None }
}

/// The confirmation shown before opening a URL requested by a remote host:
/// titled `Open URL?`, naming the URL, opening it when clicked, and
/// dismissed after `timeout_secs` seconds.
pub fn confirm_open_url_notification(url: &str, timeout_secs: u64) -> (r: ToastNotification)
    ensures
        r.title@ == "Open URL?"@,
        r.message@ == "Remote host wants to open:\n"@ + url@,
        opt_view(r.url) == Some(url@),
        r.timeout_secs == Some(timeout_secs),
{
    let mut message = owned("Remote host wants to open:\n");
    let cs = crate::text::chars_of(url);
    let mut i: usize = 0;
    while i < cs.len()
        invariant
            i <= cs@.len(),
            cs@ == url@,
            message@ == "Remote host wants to open:\n"@ + cs@.take(i as int),
        decreases cs@.len() - i,
    {
        push_char(&mut message, cs[i]);
        assert(message@ =~= "Remote host wants to open:\n"@ + cs@.take(i + 1));
        i += 1;
    }
    assert(cs@.take(cs@.len() as int) =~= cs@);
    ToastNotification {
        title: owned("Open URL?"),
        message,
        url: Some(owned(url)),
        timeout_secs: Some(timeout_secs),
    }
}

/// Why the notification server closed a notification.
#[derive(Debug, Clone, Copy, PartialEq, Eq, Structural)]
pub enum Reason {
    Expired,
    Dismissed,
    Closed,
    Unknown(u32),
}

impl Reason {
    /// Decodes the reason code of a `NotificationClosed` signal: 1 expired,
    /// 2 dismissed by the user, 3 closed by request, anything else unknown.
    pub fn new(n: u32) -> (r: Reason)
        ensures
            r == (if n == 1 {
                Reason::Expired
            } else if n == 2 {
                Reason::Dismissed
            } else if n == 3 {
                Reason::Closed
            } else {
                Reason::Unknown(n)
            }),
    {
        if n == 1 {
            Reason::Expired
        } else if n == 2 {
            Reason::Dismissed
        } else if n == 3 {
            Reason::Closed
        } else {
            Reason::Unknown(n)
        }
    }
}

/// The server lists the `actions` capability.
pub open spec fn has_actions_capability(caps: Seq<Seq<char>>) -> bool {
    exists|i: int| 0 <= i < caps.len() && #[trigger] caps[i] == "actions"@
}

/// Whether the capability list of the notification server contains
/// `actions`.
pub fn supports_actions(caps: &Vec<String>) -> (r: bool)
    ensures
        r == has_actions_capability(caps@.map_values(|c: String| c@)),
{
    let ghost v = caps@.map_values(|c: String| c@);
    let mut i: usize = 0;
    while i < caps.len()
        invariant
            i <= caps@.len(),
            v == caps@.map_values(|c: String| c@),
            forall|j: int| 0 <= j < i ==> #[trigger] v[j] != "actions"@,
        decreases caps@.len() - i,
    {
        if str_eq(caps[i].as_str(), "actions") {
            assert(v[i as int] == "actions"@);
            return true;
        }
        i += 1;
    }
    false
}

/// The notification offers a `Show` button (and its click is listened
/// for) exactly when it has a URL and the server supports actions.
pub fn offers_show_action(notif: &ToastNotification, has_actions: bool) -> (r: bool)
    ensures
        r == (notif.url is Some && has_actions),
{
    notif.url.is_some() && has_actions
}

/// The action list passed to the server: `show` / `Show` when the
/// notification offers its button, otherwise none.
pub fn notification_actions(offers_show: bool) -> (r: Vec<&'static str>)
    ensures
        offers_show ==> r@ == seq!["show", "Show"],
        !offers_show ==> r@.len() == 0,
{
    if offers_show {
        vec!["show", "Show"]
    } else {
        Vec::new()
    }
}

/// A 32-bit pattern `low` read as a signed integer.
pub open spec fn low_i32(low: int) -> int {
    if low <= i32::MAX {
        low
    } else {
        low - 0x1_0000_0000
    }
}

/// The expiry passed to the server, in milliseconds: 0 (never) without a
/// timeout, otherwise the timeout in milliseconds as an `i32`.
pub fn expire_timeout_ms(timeout_secs: Option<u64>) -> (r: i32)
    ensures
        r == match timeout_secs {
            None => 0,
            Some(s) => low_i32((s as int * 1000) % 0x1_0000_0000),
        },
{
    match timeout_secs {
        None => 0,
        Some(s) => {
            let ms: u128 = s as u128 * 1000;
            let low: u32 = (ms % 0x1_0000_0000) as u32;
            let r: i32 = if low <= 0x7fff_ffff {
                low as i32
            } else {
                ((low - 0x8000_0000) as i32) - 0x7fff_ffff - 1
            };
            r
        },
    }
}

/// How long, in seconds, the notification may stay up before it is closed
/// on the user's behalf: its timeout, or two minutes without one.
pub fn close_after_secs(timeout_secs: Option<u64>) -> (r: u64)
    ensures
        r == match timeout_secs {
            Some(s) => s,
            None => 120,
        },
{
    match timeout_secs {
        Some(s) => s,
        None => 120,
    }
}

/// Whether the watcher closes the notification now: its deadline passed,
/// or the caller cancelled it.
pub fn should_close(elapsed_ms: u64, deadline_ms: u64, cancelled: bool) -> (r: bool)
    ensures
        r == (elapsed_ms >= deadline_ms || cancelled),
{
    elapsed_ms >= deadline_ms || cancelled
}

/// What a notification server reports about itself.
#[derive(Debug)]
pub struct ServerInformation {
    /// The product name of the server.
    pub name: String,
    /// The vendor name. For example "KDE," "GNOME," "freedesktop.org" or "Microsoft".
    pub vendor: String,
    /// The server's version number.
    pub version: String,
    /// The specification version the server is compliant with.
    pub spec_version: String,
}


/// The text of a character inside XML character data: `<`, `>` and `&` as
/// entities, any other character as itself.
pub open spec fn pcdata_char(c: char) -> Seq<char> {
    if c == '<' {
        seq!['&', 'l', 't', ';']
    } else if c == '>' {
        seq!['&', 'g', 't', ';']
    } else if c == '&' {
        seq!['&', 'a', 'm', 'p', ';']
    } else {
        seq![c]
    }
}

/// `s` escaped for XML character data, character by character.
pub open spec fn pcdata_escaped(s: Seq<char>) -> Seq<char>
    decreases s.len(),
{
    if s.len() == 0 {
        Seq::empty()
    } else {
        pcdata_escaped(s.drop_last()) + pcdata_char(s.last())
    }
}

/// `xml::escape::escape_str_pcdata`: each `<`, `>` and `&` of `s` becomes
/// its entity, every other character stays as it is.
#[verifier::external_body]
fn escape_pcdata(s: &str) -> (r: String)
    ensures
        r@ == pcdata_escaped(s@),
{
    xml::escape::escape_str_pcdata(s).into_owned()
}

/// The opening of the toast document, up to its attributes.
pub open spec fn toast_head() -> Seq<char> {
    "<toast duration=\"long\""@
}

/// The attribute that keeps a toast with a URL in the foreground.
pub open spec fn toast_scenario() -> Seq<char> {
    " scenario=\"urgentMessage\""@
}

/// From the end of the toast tag to the first text element's content.
pub open spec fn toast_before_title() -> Seq<char> {
    ">\n        <visual>\n            <binding template=\"ToastGeneric\">\n                <text>"@
}

/// Between the title and the message.
pub open spec fn toast_between() -> Seq<char> {
    "</text>\n                <text>"@
}

/// From the message to the place of the actions.
pub open spec fn toast_after_message() -> Seq<char> {
    "</text>\n            </binding>\n        </visual>\n        "@
}

/// The `Show` button of a toast with a URL.
pub open spec fn toast_actions() -> Seq<char> {
    "\n        <actions>\n           <action content=\"Show\" arguments=\"show\" />\n        </actions>\n        "@
}

/// The end of the toast document.
pub open spec fn toast_tail() -> Seq<char> {
    "\n    </toast>"@
}

/// The Windows toast document of `notif`: a long toast with the title and
/// the message (escaped) as its two texts; with a URL it is an urgent
/// message with a `Show` button.
pub fn toast_xml(notif: &ToastNotification) -> (r: String)
    ensures
        r@ == toast_head() + (if notif.url is Some { toast_scenario() } else { Seq::empty() })
            + toast_before_title() + pcdata_escaped(notif.title@) + toast_between()
            + pcdata_escaped(notif.message@) + toast_after_message()
            + (if notif.url is Some { toast_actions() } else { Seq::empty() }) + toast_tail(),
{
    let has_url = notif.url.is_some();
    let mut out = String::new();
    push_str_chars(&mut out, "<toast duration=\"long\"");
    if has_url {
        push_str_chars(&mut out, " scenario=\"urgentMessage\"");
    }
    push_str_chars(&mut out, ">\n        <visual>\n            <binding template=\"ToastGeneric\">\n                <text>");
    let title = escape_pcdata(notif.title.as_str());
    push_str_chars(&mut out, title.as_str());
    push_str_chars(&mut out, "</text>\n                <text>");
    let message = escape_pcdata(notif.message.as_str());
    push_str_chars(&mut out, message.as_str());
    push_str_chars(&mut out, "</text>\n            </binding>\n        </visual>\n        ");
    if has_url {
        push_str_chars(
            &mut out,
            "\n        <actions>\n           <action content=\"Show\" arguments=\"show\" />\n        </actions>\n        ",
        );
    }
    push_str_chars(&mut out, "\n    </toast>");
    proof {
        if !has_url {
            assert(out@ =~= toast_head() + Seq::<char>::empty() + toast_before_title() + pcdata_escaped(notif.title@)
                + toast_between() + pcdata_escaped(notif.message@) + toast_after_message() + Seq::<char>::empty()
                + toast_tail());
        }
    }
    out
}

} // verus!
