use weezterm::overlay_data::SshDomainConfig;
use weezterm::overlay_persistence::{
    domain_to_json, overlay_json, parse_ssh_domains, split_overlay_json, JsonNumber, JsonValue, OverlayData,
};

/// The library's JSON model of a parsed document.
fn from_serde(v: &serde_json::Value) -> JsonValue {
    match v {
        serde_json::Value::Null => JsonValue::Null,
        serde_json::Value::Bool(b) => JsonValue::Bool(*b),
        serde_json::Value::Number(n) => JsonValue::Number(if let Some(i) = n.as_i64() {
            JsonNumber::Int(i)
        } else if let Some(u) = n.as_u64() {
            JsonNumber::UInt(u)
        } else {
            JsonNumber::Float(n.as_f64().unwrap_or(0.0).to_bits())
        }),
        serde_json::Value::String(s) => JsonValue::String(s.clone()),
        serde_json::Value::Array(a) => JsonValue::Array(a.iter().map(from_serde).collect()),
        serde_json::Value::Object(o) => JsonValue::Object(o.iter().map(|(k, v)| (k.clone(), from_serde(v))).collect()),
    }
}

fn member<'a>(obj: &'a JsonValue, key: &str) -> Option<&'a JsonValue> {
    match obj {
        JsonValue::Object(o) => o.iter().find(|(k, _)| k == key).map(|(_, v)| v),
        _ => None,
    }
}

fn object_len(v: &JsonValue) -> usize {
    match v {
        JsonValue::Object(o) => o.len(),
        _ => 0,
    }
}

#[test]
fn test_domain_to_json_roundtrip() {
    let dom = SshDomainConfig {
        name: "test-host".to_string(),
        remote_address: "10.0.0.1:22".to_string(),
        username: "deploy".to_string(),
        multiplexing: "WezTerm".to_string(),
        ssh_backend: "Ssh2".to_string(),
        no_agent_auth: true,
        connect_automatically: false,
    };
    let json = domain_to_json(&dom);
    let domains = parse_ssh_domains(&JsonValue::Array(vec![json]));
    assert_eq!(domains.len(), 1);
    assert_eq!(domains[0], dom);
}

#[test]
fn test_parse_ssh_domains_empty() {
    let domains = parse_ssh_domains(&JsonValue::Array(vec![]));
    assert!(domains.is_empty());
}

#[test]
fn test_parse_ssh_domains_defaults() {
    let json = JsonValue::Array(vec![JsonValue::Object(vec![
        ("name".to_string(), JsonValue::String("myhost".to_string())),
        ("remote_address".to_string(), JsonValue::String("myhost".to_string())),
    ])]);
    let domains = parse_ssh_domains(&json);
    assert_eq!(domains.len(), 1);
    assert_eq!(domains[0].name, "myhost");
    assert_eq!(domains[0].remote_address, "myhost");
    assert_eq!(domains[0].username, "");
    assert_eq!(domains[0].multiplexing, "None");
    assert_eq!(domains[0].ssh_backend, "LibSsh");
    assert!(!domains[0].no_agent_auth);
    assert!(!domains[0].connect_automatically);
}

#[test]
fn test_overlay_data_default() {
    let data = OverlayData::default();
    assert!(data.proposals.is_empty());
    assert!(data.ssh_domains.is_empty());
}

#[test]
fn test_new_format_json_parsing() {
    let json_str = r#"{
        "proposals": {
            "font_size": 14,
            "color_scheme": "Dracula"
        },
        "ssh_domains": [
            {
                "name": "myhost",
                "remote_address": "myhost:22",
                "username": "root",
                "multiplexing": "None",
                "ssh_backend": "LibSsh",
                "no_agent_auth": false,
                "connect_automatically": true
            }
        ]
    }"#;
    let json = from_serde(&serde_json::from_str(json_str).unwrap());
    assert!(member(&json, "proposals").is_some());
    let (proposals, domains) = split_overlay_json(&json);
    let proposals = proposals.unwrap();
    assert_eq!(object_len(proposals), 2);
    assert!(matches!(member(proposals, "font_size"), Some(JsonValue::Number(JsonNumber::Int(14)))));
    assert_eq!(domains.len(), 1);
    assert_eq!(domains[0].name, "myhost");
    assert_eq!(domains[0].remote_address, "myhost:22");
    assert_eq!(domains[0].username, "root");
    assert!(domains[0].connect_automatically);
}

#[test]
fn test_old_format_backward_compat() {
    let json_str = r#"{"font_size": 14, "color_scheme": "Dracula"}"#;
    let json = from_serde(&serde_json::from_str(json_str).unwrap());
    assert!(member(&json, "proposals").is_none());
    let (proposals, domains) = split_overlay_json(&json);
    assert_eq!(object_len(proposals.unwrap()), 2);
    assert!(domains.is_empty());
}

#[test]
fn saved_overlay_reads_back() {
    let domains = vec![
        SshDomainConfig { name: "a".to_string(), ..Default::default() },
        SshDomainConfig { name: "b".to_string(), no_agent_auth: true, ..Default::default() },
    ];
    let proposals = JsonValue::Object(vec![("font_size".to_string(), JsonValue::Number(JsonNumber::Int(12)))]);
    let file = overlay_json(proposals, &domains);
    let (p, d) = split_overlay_json(&file);
    assert!(matches!(member(p.unwrap(), "font_size"), Some(JsonValue::Number(JsonNumber::Int(12)))));
    assert_eq!(d, domains);
}

#[test]
fn non_object_files_hold_nothing() {
    let empty = JsonValue::Array(vec![]);
    let (p, d) = split_overlay_json(&empty);
    assert!(p.is_none());
    assert!(d.is_empty());
    assert!(parse_ssh_domains(&JsonValue::Null).is_empty());
    let mixed = JsonValue::Array(vec![JsonValue::Bool(true), JsonValue::Object(vec![])]);
    assert_eq!(parse_ssh_domains(&mixed), vec![SshDomainConfig::default()]);
}
