//! The choices made when the WebGPU surface is set up: which adapter
//! serves a configured preference, and how the surface presents and
//! blends for a render mode.
use vstd::prelude::*;
use crate::render_mode::RenderMode;
use crate::text::str_eq;

verus! {

/// How presented frames are queued.
#[derive(Debug, Clone, Copy, PartialEq, Eq, Structural)]
pub enum PresentMode {
    AutoVsync,
    AutoNoVsync,
    Fifo,
    FifoRelaxed,
    Immediate,
    Mailbox,
}

/// How the compositor blends the surface with what is behind it.
#[derive(Debug, Clone, Copy, PartialEq, Eq, Structural)]
pub enum CompositeAlphaMode {
    Auto,
    Opaque,
    PreMultiplied,
    PostMultiplied,
    Inherit,
}

/// How the DX12 swap chain is presented.
#[derive(Debug, Clone, Copy, PartialEq, Eq, Structural)]
pub enum Dx12SwapchainKind {
    /// A swap chain bound to the window.
    DxgiFromHwnd,
    /// A swap chain bound to a DirectComposition visual.
    DxgiFromVisual,
}

/// The system backdrop configured for a Windows window.
#[derive(Debug, Clone, Copy, PartialEq, Eq, Structural)]
pub enum SystemBackdrop {
    Auto,
    Disable,
    Acrylic,
    Mica,
    Tabbed,
}

/// What the graphics API reports of an adapter; the device type and
/// backend by their names.
#[derive(Debug, Clone, PartialEq, Eq)]
pub struct AdapterInfo {
    pub name: String,
    pub vendor: u32,
    pub device: u32,
    pub device_type: String,
    pub driver: String,
    pub driver_info: String,
    pub backend: String,
}

/// A description of a GPU, as the configuration names a preferred one.
#[derive(Debug, Clone, PartialEq, Eq)]
pub struct GpuInfo {
    pub name: String,
    pub device_type: String,
    pub backend: String,
    pub driver: Option<String>,
    pub driver_info: Option<String>,
    pub vendor: Option<u32>,
    pub device: Option<u32>,
}

/// `None` for an empty text, else the text.
pub open spec fn text_if_any(s: Seq<char>) -> Option<Seq<char>> {
    if s.len() == 0 {
        None
    } else {
        Some(s)
    }
}

pub open spec fn opt_text(s: Option<String>) -> Option<Seq<char>> {
    match s {
        Some(v) => Some(v@),
        None => None,
    }
}

fn text_or_none(s: &String) -> (r: Option<String>)
    ensures
        opt_text(r) == text_if_any(s@),
{
    if s.as_str().is_empty() {
        None
    } else {
        Some(s.clone())
    }
}

/// The GPU description of an adapter: its ids always given, an empty
/// driver or driver description left out.
pub fn adapter_info_to_gpu_info(info: &AdapterInfo) -> (r: GpuInfo)
    ensures
        r.name@ == info.name@,
        r.vendor == Some(info.vendor),
        r.device == Some(info.device),
        r.device_type@ == info.device_type@,
        opt_text(r.driver) == text_if_any(info.driver@),
        opt_text(r.driver_info) == text_if_any(info.driver_info@),
        r.backend@ == info.backend@,
{
    GpuInfo {
        name: info.name.clone(),
        vendor: Some(info.vendor),
        device: Some(info.device),
        device_type: info.device_type.clone(),
        driver: text_or_none(&info.driver),
        driver_info: text_or_none(&info.driver_info),
        backend: info.backend.clone(),
    }
}

/// An adapter is the preferred one when its name, device type and
/// backend are those preferred, and so are its driver, vendor and device
/// where the preference names them.
pub open spec fn spec_adapter_matches(pref: GpuInfo, info: AdapterInfo) -> bool {
    &&& pref.name@ == info.name@
    &&& pref.device_type@ == info.device_type@
    &&& pref.backend@ == info.backend@
    &&& (pref.driver matches Some(d) ==> d@ == info.driver@)
    &&& (pref.vendor matches Some(v) ==> v == info.vendor)
    &&& (pref.device matches Some(d) ==> d == info.device)
}

/// Whether the adapter `info` is the one `pref` describes.
pub fn adapter_matches(pref: &GpuInfo, info: &AdapterInfo) -> (r: bool)
    ensures
        r == spec_adapter_matches(*pref, *info),
{
    if !str_eq(pref.name.as_str(), info.name.as_str()) {
        return false;
    }
    if !str_eq(pref.device_type.as_str(), info.device_type.as_str()) {
        return false;
    }
    if !str_eq(pref.backend.as_str(), info.backend.as_str()) {
        return false;
    }
    if let Some(driver) = &pref.driver {
        if !str_eq(driver.as_str(), info.driver.as_str()) {
            return false;
        }
    }
    if let Some(vendor) = pref.vendor {
        if vendor != info.vendor {
            return false;
        }
    }
    if let Some(device) = pref.device {
        if device != info.device {
            return false;
        }
    }
    true
}

/// Adapter `i` of `adapters` (each with whether it can present to the
/// window's surface) can serve and is the preferred one.
pub open spec fn usable_preferred(pref: GpuInfo, adapters: Seq<(AdapterInfo, bool)>, i: int) -> bool {
    adapters[i].1 && spec_adapter_matches(pref, adapters[i].0)
}

/// The first of `adapters` that can present to the surface and is the
/// preferred one, if any.
pub fn select_preferred_adapter(pref: &GpuInfo, adapters: &Vec<(AdapterInfo, bool)>) -> (r: Option<usize>)
    ensures
        match r {
            Some(i) => {
                &&& i < adapters@.len()
                &&& usable_preferred(*pref, adapters@, i as int)
                &&& forall|j: int| 0 <= j < i ==> !#[trigger] usable_preferred(*pref, adapters@, j)
            },
            None => forall|j: int| 0 <= j < adapters@.len() ==> !#[trigger] usable_preferred(*pref, adapters@, j),
        },
{
    let mut i: usize = 0;
    while i < adapters.len()
        invariant
            i <= adapters@.len(),
            forall|j: int| 0 <= j < i ==> !#[trigger] usable_preferred(*pref, adapters@, j),
        decreases adapters@.len() - i,
    {
        let (info, supported) = &adapters[i];
        if *supported && adapter_matches(pref, info) {
            return Some(i);
        }
        i += 1;
    }
    None
}

/// Whether the configuration asks for a translucent window: a background
/// opacity below one, or an Acrylic, Mica or Tabbed backdrop.
pub fn window_uses_translucency(opacity_below_one: bool, backdrop: SystemBackdrop) -> (r: bool)
    ensures
        r == (opacity_below_one || backdrop == SystemBackdrop::Acrylic || backdrop == SystemBackdrop::Mica
            || backdrop == SystemBackdrop::Tabbed),
{
    if opacity_below_one {
        return true;
    }
    match backdrop {
        SystemBackdrop::Acrylic | SystemBackdrop::Mica | SystemBackdrop::Tabbed => true,
        _ => false,
    }
}

/// How the surface is set up.
#[derive(Debug, Clone, Copy, PartialEq, Eq, Structural)]
pub struct SurfaceChoices {
    pub presentation_system: Dx12SwapchainKind,
    /// Whether presents wait on the swap chain's frame latency object.
    pub latency_waitable: bool,
    pub present_mode: PresentMode,
    pub alpha_mode: CompositeAlphaMode,
    pub desired_maximum_frame_latency: u32,
}

/// The present mode: mailbox where offered, else immediate, else the
/// automatic vsync mode.
pub open spec fn spec_present_mode(modes: Seq<PresentMode>) -> PresentMode {
    if modes.contains(PresentMode::Mailbox) {
        PresentMode::Mailbox
    } else if modes.contains(PresentMode::Immediate) {
        PresentMode::Immediate
    } else {
        PresentMode::AutoVsync
    }
}

/// The alpha mode: with DirectComposition, premultiplied for a
/// translucent window and opaque otherwise; without it, post-multiplied
/// where offered, else premultiplied where offered, else automatic.
pub open spec fn spec_alpha_mode(mode: RenderMode, translucent: bool, modes: Seq<CompositeAlphaMode>) -> CompositeAlphaMode {
    if mode == RenderMode::WgpuDComp {
        if translucent {
            CompositeAlphaMode::PreMultiplied
        } else {
            CompositeAlphaMode::Opaque
        }
    } else if modes.contains(CompositeAlphaMode::PostMultiplied) {
        CompositeAlphaMode::PostMultiplied
    } else if modes.contains(CompositeAlphaMode::PreMultiplied) {
        CompositeAlphaMode::PreMultiplied
    } else {
        CompositeAlphaMode::Auto
    }
}

fn offers_present(v: &Vec<PresentMode>, x: PresentMode) -> (r: bool)
    ensures
        r == v@.contains(x),
{
    let mut i: usize = 0;
    while i < v.len()
        invariant
            i <= v@.len(),
            forall|j: int| 0 <= j < i ==> v@[j] != x,
        decreases v@.len() - i,
    {
        if v[i] == x {
            assert(v@[i as int] == x);
            return true;
        }
        i += 1;
    }
    false
}

fn offers_alpha(v: &Vec<CompositeAlphaMode>, x: CompositeAlphaMode) -> (r: bool)
    ensures
        r == v@.contains(x),
{
    let mut i: usize = 0;
    while i < v.len()
        invariant
            i <= v@.len(),
            forall|j: int| 0 <= j < i ==> v@[j] != x,
        decreases v@.len() - i,
    {
        if v[i] == x {
            assert(v@[i as int] == x);
            return true;
        }
        i += 1;
    }
    false
}

/// The surface set-up for `mode`: DirectComposition presents through a
/// visual, waits on the frame latency object and keeps one frame in
/// flight; the other modes present to the window with two frames in
/// flight. `present_modes` and `alpha_modes` are what the surface offers.
pub fn surface_choices(
    mode: RenderMode,
    translucent: bool,
    present_modes: &Vec<PresentMode>,
    alpha_modes: &Vec<CompositeAlphaMode>,
) -> (r: SurfaceChoices)
    ensures
        r.presentation_system == (if mode == RenderMode::WgpuDComp {
            Dx12SwapchainKind::DxgiFromVisual
        } else {
            Dx12SwapchainKind::DxgiFromHwnd
        }),
        r.latency_waitable == (mode == RenderMode::WgpuDComp),
        r.present_mode == spec_present_mode(present_modes@),
        r.alpha_mode == spec_alpha_mode(mode, translucent, alpha_modes@),
        r.desired_maximum_frame_latency == (if mode == RenderMode::WgpuDComp { 1u32 } else { 2u32 }),
{
    let dcomp = mode == RenderMode::WgpuDComp;
    let present_mode = if offers_present(present_modes, PresentMode::Mailbox) {
        PresentMode::Mailbox
    } else if offers_present(present_modes, PresentMode::Immediate) {
        PresentMode::Immediate
    } else {
        PresentMode::AutoVsync
    };
    let alpha_mode = if dcomp {
        if translucent {
            CompositeAlphaMode::PreMultiplied
        } else {
            CompositeAlphaMode::Opaque
        }
    } else if offers_alpha(alpha_modes, CompositeAlphaMode::PostMultiplied) {
        CompositeAlphaMode::PostMultiplied
    } else if offers_alpha(alpha_modes, CompositeAlphaMode::PreMultiplied) {
        CompositeAlphaMode::PreMultiplied
    } else {
        CompositeAlphaMode::Auto
    };
    SurfaceChoices {
        presentation_system: if dcomp { Dx12SwapchainKind::DxgiFromVisual } else { Dx12SwapchainKind::DxgiFromHwnd },
        latency_waitable: dcomp,
        present_mode,
        alpha_mode,
        desired_maximum_frame_latency: if dcomp { 1 } else { 2 },
    }
}

} // verus!
