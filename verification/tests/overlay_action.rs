use weezterm::config_overlay::DynValue;
use weezterm::overlay_data::{get_field_defs, DomainEntry, DomainSource, SshDomainConfig};
use weezterm::overlay_events::{ConfigOverlayAction, OverlayStep};
use weezterm::overlay_state::OverlayState;

#[test]
fn test_config_overlay_action_save_has_domains() {
    let action = ConfigOverlayAction::Save {
        proposals: Vec::new(),
        ssh_domains: vec![SshDomainConfig {
            name: "test".to_string(),
            remote_address: "host:22".to_string(),
            ..Default::default()
        }],
    };
    match action {
        ConfigOverlayAction::Save { proposals, ssh_domains } => {
            assert!(proposals.is_empty());
            assert_eq!(ssh_domains.len(), 1);
            assert_eq!(ssh_domains[0].name, "test");
        }
        _ => panic!("Expected Save"),
    }
}

fn state() -> OverlayState {
    let saved = vec![("font_size".to_string(), DynValue::I64(14))];
    let overlay_domain = SshDomainConfig { name: "mine".to_string(), ..Default::default() };
    let lua = DomainEntry {
        config: SshDomainConfig { name: "lua".to_string(), ..Default::default() },
        source: DomainSource::Lua,
        expanded: false,
    };
    OverlayState::new(vec![], saved, vec![overlay_domain], vec![lua], get_field_defs())
}

#[test]
fn finishing_hands_back_proposals_and_overlay_domains() {
    let st = state();
    match st.finish(&OverlayStep::Save) {
        Some(ConfigOverlayAction::Save { proposals, ssh_domains }) => {
            assert_eq!(proposals.len(), 1);
            assert_eq!(proposals[0].0, "font_size");
            assert!(matches!(proposals[0].1, DynValue::I64(14)));
            assert_eq!(ssh_domains.len(), 1);
            assert_eq!(ssh_domains[0].name, "mine");
        }
        _ => panic!("Expected Save"),
    }
    match st.finish(&OverlayStep::Preview) {
        Some(ConfigOverlayAction::Preview(proposals)) => assert_eq!(proposals.len(), 1),
        _ => panic!("Expected Preview"),
    }
    assert!(matches!(st.finish(&OverlayStep::Close), Some(ConfigOverlayAction::Close)));
    assert!(st.finish(&OverlayStep::Continue).is_none());
    assert!(st.finish(&OverlayStep::Resized).is_none());
}
