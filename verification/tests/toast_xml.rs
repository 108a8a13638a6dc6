use weezterm::toast::{persistent_toast_notification, persistent_toast_notification_with_click_to_open_url, toast_xml};

fn expected(scenario: &str, title: &str, message: &str, actions: &str) -> String {
    format!(
        r#"<toast duration="long"{}>
        <visual>
            <binding template="ToastGeneric">
                <text>{}</text>
                <text>{}</text>
            </binding>
        </visual>
        {}
    </toast>"#,
        scenario, title, message, actions
    )
}

#[test]
fn plain_toast_document() {
    let n = persistent_toast_notification("Build <done>", "a & b");
    assert_eq!(toast_xml(&n), expected("", "Build &lt;done&gt;", "a &amp; b", ""));
}

#[test]
fn url_toast_is_urgent_with_show_button() {
    let n = persistent_toast_notification_with_click_to_open_url("Open URL?", "☃ \"x\" 'y'", "https://example.com");
    let actions = r#"
        <actions>
           <action content="Show" arguments="show" />
        </actions>
        "#;
    assert_eq!(toast_xml(&n), expected(r#" scenario="urgentMessage""#, "Open URL?", "☃ \"x\" 'y'", actions));
}
