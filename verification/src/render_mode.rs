//! Render mode selection for the window stack.
use vstd::prelude::*;

use crate::text::{
    ascii_lower, contains_seq, contains_str, lowercase, owned, push_char, str_eq,
    to_ascii_lowercase, to_lowercase,
};

verus! {

/// How a window renders.
#[derive(Debug, Clone, Copy, PartialEq, Eq, Structural)]
pub enum RenderMode {
    /// wgpu DX12 + DirectComposition.
    WgpuDComp,
    /// wgpu DX12 without DirectComposition.
    WgpuClassic,
    /// CPU rasteriser + WARP + dirty-rect presents.
    SoftwareRdp,
}

/// What the environment tells mode selection.
#[derive(Debug, Clone, Copy, PartialEq, Eq, Structural)]
pub struct RenderEnvironment {
    /// Running on Windows.
    pub is_windows: bool,
    /// Running inside a remote desktop session.
    pub in_rdp_session: bool,
    /// Every graphics adapter present is a virtual one.
    pub only_virtual_gpus: bool,
    /// The Windows build number (0 when unknown).
    pub windows_build: u32,
}

/// Windows build from which DirectComposition presentation is used.
pub const DCOMP_MIN_BUILD: u32 = 19041;

pub open spec fn spec_as_str(m: RenderMode) -> Seq<char> {
    match m {
        RenderMode::WgpuDComp => "wgpu_dcomp"@,
        RenderMode::WgpuClassic => "wgpu_classic"@,
        RenderMode::SoftwareRdp => "software_rdp"@,
    }
}

pub open spec fn spec_auto_select(env: RenderEnvironment) -> RenderMode {
    if !env.is_windows {
        RenderMode::WgpuClassic
    } else if env.in_rdp_session || env.only_virtual_gpus {
        RenderMode::WgpuClassic
    } else if env.windows_build < DCOMP_MIN_BUILD {
        RenderMode::WgpuClassic
    } else {
        RenderMode::WgpuDComp
    }
}

/// The mode whose name is `lower`, if any.
pub open spec fn mode_named(lower: Seq<char>) -> Option<RenderMode> {
    if lower == "wgpu_dcomp"@ {
        Some(RenderMode::WgpuDComp)
    } else if lower == "wgpu_classic"@ {
        Some(RenderMode::WgpuClassic)
    } else if lower == "software_rdp"@ {
        Some(RenderMode::SoftwareRdp)
    } else {
        None
    }
}

/// The error text for an unknown mode name.
pub open spec fn unknown_mode_message(lower: Seq<char>) -> Seq<char> {
    "unknown RenderMode: "@ + lower
}

impl RenderMode {
    /// Chooses the mode from the environment: off Windows, and on Windows
    /// in remote sessions, with only virtual GPUs or before build 19041,
    /// the classic wgpu path; otherwise DirectComposition.
    pub fn auto_select(env: &RenderEnvironment) -> (r: RenderMode)
        ensures
            r == spec_auto_select(*env),
    {
        if !env.is_windows {
            return RenderMode::WgpuClassic;
        }
        if env.in_rdp_session || env.only_virtual_gpus {
            return RenderMode::WgpuClassic;
        }
        if env.windows_build < DCOMP_MIN_BUILD {
            return RenderMode::WgpuClassic;
        }
        RenderMode::WgpuDComp
    }

    /// The mode's name.
    pub fn as_str(self) -> (r: &'static str)
        ensures
            r@ == spec_as_str(self),
    {
        match self {
            RenderMode::WgpuDComp => "wgpu_dcomp",
            RenderMode::WgpuClassic => "wgpu_classic",
            RenderMode::SoftwareRdp => "software_rdp",
        }
    }
}

/// Parses a mode name, ignoring ASCII case.
pub fn parse_render_mode(s: &str) -> (r: Result<RenderMode, String>)
    ensures
        match mode_named(ascii_lower(s@)) {
            Some(m) => r == Ok::<RenderMode, String>(m),
            None => r matches Err(e) && e@ == unknown_mode_message(ascii_lower(s@)),
        },
{
    let lower = to_ascii_lowercase(s);
    let l = lower.as_str();
    if str_eq(l, "wgpu_dcomp") {
        Ok(RenderMode::WgpuDComp)
    } else if str_eq(l, "wgpu_classic") {
        Ok(RenderMode::WgpuClassic)
    } else if str_eq(l, "software_rdp") {
        Ok(RenderMode::SoftwareRdp)
    } else {
        let mut msg = owned("unknown RenderMode: ");
        let cs = crate::text::chars_of(l);
        let mut i: usize = 0;
        while i < cs.len()
            invariant
                i <= cs@.len(),
                cs@ == lower@,
                msg@ == "unknown RenderMode: "@ + cs@.take(i as int),
            decreases cs@.len() - i,
        {
            push_char(&mut msg, cs[i]);
            assert(cs@.take(i + 1) =~= cs@.take(i as int).push(cs@[i as int]));
            assert(msg@ =~= "unknown RenderMode: "@ + cs@.take(i + 1));
            i += 1;
        }
        assert(cs@.take(cs@.len() as int) =~= cs@);
        Err(msg)
    }
}

impl core::str::FromStr for RenderMode {
    type Err = String;

    fn from_str(s: &str) -> (r: Result<Self, String>)
        ensures
            match mode_named(ascii_lower(s@)) {
                Some(m) => r == Ok::<RenderMode, String>(m),
                None => r matches Err(e) && e@ == unknown_mode_message(ascii_lower(s@)),
            },
    {
        parse_render_mode(s)
    }
}

/// Parsing a mode's name gives the mode back.
pub proof fn lemma_parse_as_str_round_trip(m: RenderMode)
    ensures
        mode_named(ascii_lower(spec_as_str(m))) == Some(m),
{
    reveal_strlit("wgpu_dcomp");
    reveal_strlit("wgpu_classic");
    reveal_strlit("software_rdp");
    let s = spec_as_str(m);
    assert(ascii_lower(s) =~= s);
    assert("wgpu_dcomp"@.len() == 10);
    assert("wgpu_classic"@.len() == 12);
    assert("software_rdp"@.len() == 12);
    if m == RenderMode::SoftwareRdp {
        assert(s[0] != "wgpu_classic"@[0]);
    }
}

/// The recognised values of the render-mode override variable.
pub open spec fn is_override_name(lower: Seq<char>) -> bool {
    lower == "auto"@ || lower == "wgpu_dcomp"@ || lower == "wgpu_classic"@ || lower
        == "software_rdp"@
}

/// Validates the raw value of the render-mode override variable: its
/// lower-cased form when it is `auto` or a mode name, otherwise nothing.
pub fn render_mode_override(raw: Option<&str>) -> (r: Option<String>)
    ensures
        match raw {
            None => r is None,
            Some(v) => if is_override_name(lowercase(v@)) {
                r matches Some(l) && l@ == lowercase(v@)
            } else {
                r is None
            },
        },
{
    match raw {
        None => None,
        Some(v) => {
            let lower = to_lowercase(v);
            let l = lower.as_str();
            if str_eq(l, "auto") || str_eq(l, "wgpu_dcomp") || str_eq(l, "wgpu_classic")
                || str_eq(l, "software_rdp") {
                Some(lower)
            } else {
                None
            }
        },
    }
}

pub open spec fn spec_resolve(override_value: Option<Seq<char>>, env: RenderEnvironment) -> RenderMode {
    match override_value {
        Some(o) => if o == "auto"@ {
            spec_auto_select(env)
        } else {
            match mode_named(ascii_lower(o)) {
                Some(m) => m,
                None => spec_auto_select(env),
            }
        },
        None => spec_auto_select(env),
    }
}

pub open spec fn opt_string_view(s: Option<String>) -> Option<Seq<char>> {
    match s {
        Some(v) => Some(v@),
        None => None,
    }
}

/// The render mode: the validated override when it names a mode,
/// otherwise the automatic choice.
pub fn resolve(override_value: Option<String>, env: &RenderEnvironment) -> (r: RenderMode)
    ensures
        r == spec_resolve(opt_string_view(override_value), *env),
{
    match override_value {
        Some(raw) => {
            if str_eq(raw.as_str(), "auto") {
                return RenderMode::auto_select(env);
            }
            match parse_render_mode(raw.as_str()) {
                Ok(mode) => mode,
                Err(_) => RenderMode::auto_select(env),
            }
        },
        None => RenderMode::auto_select(env),
    }
}

/// Whether the resolved mode is `WgpuDComp`.
pub fn is_dcomp(override_value: Option<String>, env: &RenderEnvironment) -> (r: bool)
    ensures
        r == (spec_resolve(opt_string_view(override_value), *env) == RenderMode::WgpuDComp),
{
    resolve(override_value, env) == RenderMode::WgpuDComp
}

/// A description of one DXGI adapter.
#[derive(Debug)]
pub struct DxgiAdapterInfo {
    pub description: String,
    pub vendor_id: u32,
    pub device_id: u32,
    /// The adapter is a software one (WARP and the like).
    pub is_software: bool,
}

/// The description of a virtual GPU, lower-cased, contains one of the
/// well-known virtual adapter names.
pub open spec fn is_virtual_description(description: Seq<char>) -> bool {
    let d = lowercase(description);
    contains_seq(d, "microsoft basic display"@) || contains_seq(d, "microsoft hyper-v video"@)
        || contains_seq(d, "microsoft remote display adapter"@)
}

/// True when there is at least one adapter and every adapter is a
/// well-known virtual GPU (matched case-insensitively by substring).
pub fn only_virtual_gpus_available(adapters: &[DxgiAdapterInfo]) -> (r: bool)
    ensures
        r == (adapters@.len() > 0 && forall|i: int|
            0 <= i < adapters@.len() ==> is_virtual_description(#[trigger] adapters@[i].description@)),
{
    if adapters.len() == 0 {
        return false;
    }
    let mut i: usize = 0;
    while i < adapters.len()
        invariant
            i <= adapters@.len(),
            forall|j: int| 0 <= j < i ==> is_virtual_description(#[trigger] adapters@[j].description@),
        decreases adapters@.len() - i,
    {
        let desc = to_lowercase(adapters[i].description.as_str());
        let d = desc.as_str();
        let is_virtual = contains_str(d, "microsoft basic display") || contains_str(
            d,
            "microsoft hyper-v video",
        ) || contains_str(d, "microsoft remote display adapter");
        if !is_virtual {
            assert(!is_virtual_description(adapters@[i as int].description@));
            return false;
        }
        i += 1;
    }
    true
}

/// The Windows build number held by the registry value
/// `CurrentBuildNumber`: its value when it parses as a `u32`, otherwise 0
/// (also when the value could not be read).
pub fn windows_build_number(current_build_number: Option<&str>) -> (r: u32)
    ensures
        r == match current_build_number {
            Some(v) => match crate::text::parse_unsigned(v@, u32::MAX as int) {
                Some(n) => n,
                None => 0,
            },
            None => 0,
        },
{
    match current_build_number {
        Some(v) => {
            let cs = crate::text::chars_of(v);
            assert(cs@.subrange(0, cs@.len() as int) =~= v@);
            match crate::text::parse_unsigned_exec(&cs, 0, cs.len(), 0xffff_ffff) {
                Some(n) => n as u32,
                None => 0,
            }
        },
        None => 0,
    }
}


/// Whether OpenGL renders in software: always in a Windows remote desktop
/// session (hardware OpenGL misbehaves when it disconnects), otherwise when
/// the software front end is configured.
pub fn prefer_swrast(env: RenderEnvironment, front_end_is_software: bool) -> (r: bool)
    ensures
        r == ((env.is_windows && env.in_rdp_session) || front_end_is_software),
{
    if env.is_windows && env.in_rdp_session {
        return true;
    }
    front_end_is_software
}

} // verus!
