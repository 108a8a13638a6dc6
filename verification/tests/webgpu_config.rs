use weezterm::render_mode::RenderMode;
use weezterm::webgpu_config::{
    adapter_info_to_gpu_info, adapter_matches, select_preferred_adapter, surface_choices,
    window_uses_translucency, AdapterInfo, CompositeAlphaMode, Dx12SwapchainKind, GpuInfo, PresentMode,
    SystemBackdrop,
};

fn adapter(name: &str, backend: &str, vendor: u32) -> AdapterInfo {
    AdapterInfo {
        name: name.to_string(),
        vendor,
        device: 7,
        device_type: "DiscreteGpu".to_string(),
        driver: String::new(),
        driver_info: "21.0".to_string(),
        backend: backend.to_string(),
    }
}

fn preference(name: &str, backend: &str) -> GpuInfo {
    GpuInfo {
        name: name.to_string(),
        device_type: "DiscreteGpu".to_string(),
        backend: backend.to_string(),
        driver: None,
        driver_info: None,
        vendor: None,
        device: None,
    }
}

#[test]
fn gpu_info_drops_empty_driver_texts() {
    let info = adapter_info_to_gpu_info(&adapter("GPU", "Dx12", 0x10de));
    assert_eq!(info.name, "GPU");
    assert_eq!(info.vendor, Some(0x10de));
    assert_eq!(info.device, Some(7));
    assert_eq!(info.driver, None);
    assert_eq!(info.driver_info, Some("21.0".to_string()));
    assert_eq!(info.backend, "Dx12");
    assert_eq!(info.device_type, "DiscreteGpu");
}

#[test]
fn preference_matches_named_fields_only() {
    let a = adapter("GPU", "Vulkan", 0x10de);
    let mut p = preference("GPU", "Vulkan");
    assert!(adapter_matches(&p, &a));
    p.vendor = Some(0x1002);
    assert!(!adapter_matches(&p, &a));
    p.vendor = Some(0x10de);
    p.driver = Some("nvidia".to_string());
    assert!(!adapter_matches(&p, &a));
    p.driver = None;
    p.driver_info = Some("other".to_string());
    assert!(adapter_matches(&p, &a));
    assert!(!adapter_matches(&preference("GPU", "Dx12"), &a));
    assert!(!adapter_matches(&preference("Other", "Vulkan"), &a));
}

#[test]
fn first_compatible_preferred_adapter_is_chosen() {
    let p = preference("GPU", "Vulkan");
    let adapters = vec![
        (adapter("GPU", "Vulkan", 1), false),
        (adapter("GPU", "Dx12", 2), true),
        (adapter("GPU", "Vulkan", 3), true),
        (adapter("GPU", "Vulkan", 4), true),
    ];
    assert_eq!(select_preferred_adapter(&p, &adapters), Some(2));
    assert_eq!(select_preferred_adapter(&p, &adapters[..2].to_vec()), None);
    assert_eq!(select_preferred_adapter(&p, &vec![]), None);
}

#[test]
fn translucency_from_opacity_or_backdrop() {
    assert!(window_uses_translucency(true, SystemBackdrop::Auto));
    assert!(window_uses_translucency(false, SystemBackdrop::Mica));
    assert!(window_uses_translucency(false, SystemBackdrop::Acrylic));
    assert!(window_uses_translucency(false, SystemBackdrop::Tabbed));
    assert!(!window_uses_translucency(false, SystemBackdrop::Disable));
    assert!(!window_uses_translucency(false, SystemBackdrop::Auto));
}

#[test]
fn dcomp_surface_choices() {
    let c = surface_choices(
        RenderMode::WgpuDComp,
        true,
        &vec![PresentMode::Fifo, PresentMode::Immediate],
        &vec![CompositeAlphaMode::PostMultiplied],
    );
    assert_eq!(c.presentation_system, Dx12SwapchainKind::DxgiFromVisual);
    assert!(c.latency_waitable);
    assert_eq!(c.present_mode, PresentMode::Immediate);
    assert_eq!(c.alpha_mode, CompositeAlphaMode::PreMultiplied);
    assert_eq!(c.desired_maximum_frame_latency, 1);
    let c = surface_choices(RenderMode::WgpuDComp, false, &vec![PresentMode::Mailbox], &vec![]);
    assert_eq!(c.present_mode, PresentMode::Mailbox);
    assert_eq!(c.alpha_mode, CompositeAlphaMode::Opaque);
}

#[test]
fn classic_surface_choices_follow_capabilities() {
    let c = surface_choices(
        RenderMode::WgpuClassic,
        true,
        &vec![PresentMode::Fifo],
        &vec![CompositeAlphaMode::Opaque, CompositeAlphaMode::PreMultiplied],
    );
    assert_eq!(c.presentation_system, Dx12SwapchainKind::DxgiFromHwnd);
    assert!(!c.latency_waitable);
    assert_eq!(c.present_mode, PresentMode::AutoVsync);
    assert_eq!(c.alpha_mode, CompositeAlphaMode::PreMultiplied);
    assert_eq!(c.desired_maximum_frame_latency, 2);
    let c = surface_choices(
        RenderMode::SoftwareRdp,
        false,
        &vec![PresentMode::Mailbox, PresentMode::Immediate],
        &vec![CompositeAlphaMode::PreMultiplied, CompositeAlphaMode::PostMultiplied],
    );
    assert_eq!(c.present_mode, PresentMode::Mailbox);
    assert_eq!(c.alpha_mode, CompositeAlphaMode::PostMultiplied);
    let c = surface_choices(RenderMode::WgpuClassic, false, &vec![], &vec![CompositeAlphaMode::Opaque]);
    assert_eq!(c.alpha_mode, CompositeAlphaMode::Auto);
}
