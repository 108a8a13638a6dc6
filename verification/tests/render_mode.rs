use std::str::FromStr;
use weezterm::render_mode::{
    is_dcomp, only_virtual_gpus_available, parse_render_mode, render_mode_override, resolve,
    windows_build_number, DxgiAdapterInfo, RenderEnvironment, RenderMode,
};

fn env(is_windows: bool, rdp: bool, virt: bool, build: u32) -> RenderEnvironment {
    RenderEnvironment { is_windows, in_rdp_session: rdp, only_virtual_gpus: virt, windows_build: build }
}

#[test]
fn parse_round_trip() {
    for m in [RenderMode::WgpuDComp, RenderMode::WgpuClassic, RenderMode::SoftwareRdp] {
        assert_eq!(m.as_str().parse::<RenderMode>().unwrap(), m);
    }
}

#[test]
fn rejects_unknown() {
    assert!("nope".parse::<RenderMode>().is_err());
}

#[test]
fn auto_select_is_deterministic_per_call() {
    let e = env(true, false, false, 22631);
    assert_eq!(RenderMode::auto_select(&e), RenderMode::auto_select(&e));
}

#[test]
fn auto_select_follows_the_environment() {
    assert_eq!(RenderMode::auto_select(&env(false, false, false, 0)), RenderMode::WgpuClassic);
    assert_eq!(RenderMode::auto_select(&env(true, true, false, 22631)), RenderMode::WgpuClassic);
    assert_eq!(RenderMode::auto_select(&env(true, false, true, 22631)), RenderMode::WgpuClassic);
    assert_eq!(RenderMode::auto_select(&env(true, false, false, 19040)), RenderMode::WgpuClassic);
    assert_eq!(RenderMode::auto_select(&env(true, false, false, 19041)), RenderMode::WgpuDComp);
}

#[test]
fn parse_ignores_ascii_case_and_reports_unknown() {
    assert_eq!(parse_render_mode("Software_RDP"), Ok(RenderMode::SoftwareRdp));
    assert_eq!(parse_render_mode("WGPU_Classic"), Ok(RenderMode::WgpuClassic));
    assert_eq!(parse_render_mode("Nope"), Err("unknown RenderMode: nope".to_string()));
}

#[test]
fn override_and_resolve() {
    assert_eq!(render_mode_override(Some("  ")), None);
    assert_eq!(render_mode_override(None), None);
    assert_eq!(render_mode_override(Some("Software_Rdp")), Some("software_rdp".to_string()));
    let e = env(true, false, false, 22631);
    assert_eq!(resolve(Some("software_rdp".to_string()), &e), RenderMode::SoftwareRdp);
    assert_eq!(resolve(Some("bogus".to_string()), &e), RenderMode::WgpuDComp);
    assert_eq!(resolve(None, &env(true, true, false, 22631)), RenderMode::WgpuClassic);
    assert!(is_dcomp(None, &e));
    assert!(!is_dcomp(Some("wgpu_classic".to_string()), &e));
}

#[test]
fn virtual_gpus_and_build_numbers() {
    let hyperv = || DxgiAdapterInfo {
        description: "Microsoft Hyper-V Video".to_string(),
        vendor_id: 0x1414,
        device_id: 0x5353,
        is_software: false,
    };
    let nvidia = DxgiAdapterInfo {
        description: "NVIDIA GeForce RTX 4090".to_string(),
        vendor_id: 0x10de,
        device_id: 0x2684,
        is_software: false,
    };
    assert!(!only_virtual_gpus_available(&[]));
    assert!(only_virtual_gpus_available(&[hyperv()]));
    assert!(!only_virtual_gpus_available(&[hyperv(), nvidia]));
    assert_eq!(windows_build_number(Some("22631")), 22631);
    assert_eq!(windows_build_number(Some("x")), 0);
    assert_eq!(windows_build_number(None), 0);
}

#[test]
fn software_opengl_in_rdp_or_when_configured() {
    assert!(weezterm::render_mode::prefer_swrast(env(true, true, false, 0), false));
    assert!(!weezterm::render_mode::prefer_swrast(env(false, true, false, 0), false));
    assert!(weezterm::render_mode::prefer_swrast(env(false, false, false, 0), true));
    assert!(!weezterm::render_mode::prefer_swrast(env(true, false, true, 22000), false));
}

#[test]
fn from_str_parses_names_and_reports_unknown_ones() {
    assert_eq!(RenderMode::from_str("Software_RDP"), Ok(RenderMode::SoftwareRdp));
    assert_eq!(RenderMode::from_str("wgpu_dcomp"), Ok(RenderMode::WgpuDComp));
    assert_eq!(RenderMode::from_str("Nope"), Err("unknown RenderMode: nope".to_string()));
}
