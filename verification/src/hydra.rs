//! The renderer's vocabulary: display modes, renderer settings, render outputs, and the
//! requests the viewer checks before they reach the bridge.
use vstd::prelude::*;
use crate::error::{check_c_string, nul_message, CStringArg, DuError};
use crate::text::{ascii_lowercase, eq_ascii_lower};

verus! {

/// Display mode for the viewport.
#[derive(Debug, Clone, Copy, PartialEq, Eq, Structural)]
pub enum DisplayMode {
    SmoothShaded,
    Wireframe,
    WireframeOnShaded,
    FlatShaded,
    Points,
    Textured,
    GeomOnly,
    GeomFlat,
    GeomSmooth,
}

/// The bridge's encoding of a display mode.
#[derive(Debug, Clone, Copy, PartialEq, Eq, Structural)]
pub enum DuDisplayMode {
    SmoothShaded,
    Wireframe,
    WireframeOnShaded,
    FlatShaded,
    Points,
    Textured,
    GeomOnly,
    GeomFlat,
    GeomSmooth,
}

/// The bridge's display mode for each viewer display mode, variant for variant.
pub open spec fn du_display_mode(m: DisplayMode) -> DuDisplayMode {
    match m {
        DisplayMode::SmoothShaded => DuDisplayMode::SmoothShaded,
        DisplayMode::Wireframe => DuDisplayMode::Wireframe,
        DisplayMode::WireframeOnShaded => DuDisplayMode::WireframeOnShaded,
        DisplayMode::FlatShaded => DuDisplayMode::FlatShaded,
        DisplayMode::Points => DuDisplayMode::Points,
        DisplayMode::Textured => DuDisplayMode::Textured,
        DisplayMode::GeomOnly => DuDisplayMode::GeomOnly,
        DisplayMode::GeomFlat => DuDisplayMode::GeomFlat,
        DisplayMode::GeomSmooth => DuDisplayMode::GeomSmooth,
    }
}

impl From<DisplayMode> for DuDisplayMode {
    fn from(m: DisplayMode) -> (r: Self) {
        match m {
            DisplayMode::SmoothShaded => DuDisplayMode::SmoothShaded,
            DisplayMode::Wireframe => DuDisplayMode::Wireframe,
            DisplayMode::WireframeOnShaded => DuDisplayMode::WireframeOnShaded,
            DisplayMode::FlatShaded => DuDisplayMode::FlatShaded,
            DisplayMode::Points => DuDisplayMode::Points,
            DisplayMode::Textured => DuDisplayMode::Textured,
            DisplayMode::GeomOnly => DuDisplayMode::GeomOnly,
            DisplayMode::GeomFlat => DuDisplayMode::GeomFlat,
            DisplayMode::GeomSmooth => DuDisplayMode::GeomSmooth,
        }
    }
}

impl vstd::std_specs::convert::FromSpecImpl<DisplayMode> for DuDisplayMode {
    open spec fn obeys_from_spec() -> bool {
        true
    }

    open spec fn from_spec(v: DisplayMode) -> Self {
        du_display_mode(v)
    }
}

/// The kind of value a renderer setting holds.
#[derive(Debug, Clone, Copy, PartialEq, Eq, Structural)]
pub enum RendererSettingType {
    Flag,
    Int,
    Float,
    String,
}

/// The bridge's encoding of a renderer setting's kind.
#[derive(Debug, Clone, Copy, PartialEq, Eq, Structural)]
pub enum DuRendererSettingType {
    Flag,
    Int,
    Float,
    String,
}

pub open spec fn setting_type_of(v: DuRendererSettingType) -> RendererSettingType {
    match v {
        DuRendererSettingType::Flag => RendererSettingType::Flag,
        DuRendererSettingType::Int => RendererSettingType::Int,
        DuRendererSettingType::Float => RendererSettingType::Float,
        DuRendererSettingType::String => RendererSettingType::String,
    }
}

impl From<DuRendererSettingType> for RendererSettingType {
    fn from(v: DuRendererSettingType) -> (r: Self) {
        match v {
            DuRendererSettingType::Flag => RendererSettingType::Flag,
            DuRendererSettingType::Int => RendererSettingType::Int,
            DuRendererSettingType::Float => RendererSettingType::Float,
            DuRendererSettingType::String => RendererSettingType::String,
        }
    }
}

impl vstd::std_specs::convert::FromSpecImpl<DuRendererSettingType> for RendererSettingType {
    open spec fn obeys_from_spec() -> bool {
        true
    }

    open spec fn from_spec(v: DuRendererSettingType) -> Self {
        setting_type_of(v)
    }
}

/// A setting the active render delegate exposes, with its values as text.
pub struct RendererSetting {
    pub key: String,
    pub name: String,
    pub setting_type: RendererSettingType,
    pub current_value: String,
    pub default_value: String,
}

/// The Vulkan image a render pass produced.
pub struct VkImageInfo {
    pub image: u64,
    pub image_view: u64,
    pub format: u32,
    pub width: u32,
    pub height: u32,
}

/// The platform texture of the colour output.
pub struct NativeTextureInfo {
    pub texture: u64,
    pub width: u32,
    pub height: u32,
}

/// Checks the paths of a selection request: the first path that holds a NUL character
/// refuses the whole request.
pub fn check_selection_paths(paths: &Vec<String>) -> (r: Result<(), DuError>)
    ensures
        r is Ok <==> (forall|k: int| 0 <= k < paths@.len() ==> !(#[trigger] paths@[k])@.contains('\0')),
        r is Err ==> (r->Err_0 is Invalid && r->Err_0->Invalid_0@ == nul_message(CStringArg::SelectionPath)),
{
    let n = paths.len();
    let mut i: usize = 0;
    while i < n
        invariant
            n == paths@.len(),
            i <= n,
            forall|k: int| 0 <= k < i ==> !(#[trigger] paths@[k])@.contains('\0'),
        decreases n - i,
    {
        match check_c_string(paths[i].as_str(), CStringArg::SelectionPath) {
            Ok(()) => {},
            Err(e) => {
                return Err(e);
            },
        }
        i = i + 1;
    }
    Ok(())
}

/// The highlighted paths that a selection of at most one prim asks the renderer for: that
/// path, or none; refused where the path holds a NUL character.
pub fn selection_request(selected_path: Option<&str>) -> (r: Result<Vec<String>, DuError>)
    ensures
        selected_path is None ==> (r matches Ok(v) && v@.len() == 0),
        selected_path is Some && !selected_path.unwrap()@.contains('\0') ==> (r matches Ok(v)
            && v@.len() == 1 && v@[0]@ == selected_path.unwrap()@),
        selected_path is Some && selected_path.unwrap()@.contains('\0') ==> (r matches Err(e)
            && e is Invalid && e->Invalid_0@ == nul_message(CStringArg::SelectionPath)),
{
    let mut paths: Vec<String> = Vec::new();
    if let Some(p) = selected_path {
        paths.push(String::from_str(p));
    }
    match check_selection_paths(&paths) {
        Ok(()) => Ok(paths),
        Err(e) => Err(e),
    }
}

/// A flag setting's text means enabled: in ASCII lower case it is `1`, `true`, `yes` or `on`.
pub open spec fn flag_enabled(value: Seq<char>) -> bool {
    let t = ascii_lowercase(value);
    t == "1"@ || t == "true"@ || t == "yes"@ || t == "on"@
}

/// Whether a flag setting's current text means enabled (see `flag_enabled`).
pub fn flag_setting_enabled(value: &str) -> (r: bool)
    ensures
        r == flag_enabled(value@),
{
    proof {
        reveal_strlit("1");
        reveal_strlit("true");
        reveal_strlit("yes");
        reveal_strlit("on");
        assert(ascii_lowercase("1"@) =~= "1"@);
        assert(ascii_lowercase("true"@) =~= "true"@);
        assert(ascii_lowercase("yes"@) =~= "yes"@);
        assert(ascii_lowercase("on"@) =~= "on"@);
    }
    eq_ascii_lower(value, "1") || eq_ascii_lower(value, "true")
        || eq_ascii_lower(value, "yes") || eq_ascii_lower(
        value,
        "on",
    )
}

/// The characters of `d` are all ASCII digits.
pub open spec fn all_ascii_digits(d: Seq<char>) -> bool {
    forall|i: int| 0 <= i < d.len() ==> '0' <= #[trigger] d[i] <= '9'
}

/// The number the decimal digits `d` spell.
pub open spec fn digits_value(d: Seq<char>) -> int
    decreases d.len(),
{
    if d.len() == 0 {
        0
    } else {
        digits_value(d.drop_last()) * 10 + (d.last() as int - '0' as int)
    }
}

/// The `i32` a text spells as `str::parse` reads it: an optional `+` or `-`, then one or
/// more ASCII digits and nothing else, with a value in the range of `i32`; `None` for any
/// other text.
pub open spec fn parsed_i32(s: Seq<char>) -> Option<i32> {
    let negative = s.len() > 0 && s[0] == '-';
    let digits = if s.len() > 0 && (s[0] == '-' || s[0] == '+') {
        s.drop_first()
    } else {
        s
    };
    let v = if negative {
        -digits_value(digits)
    } else {
        digits_value(digits)
    };
    if digits.len() == 0 || !all_ascii_digits(digits) || v < i32::MIN || v > i32::MAX {
        None
    } else {
        Some(v as i32)
    }
}

/// Calls `str::parse::<i32>`. As the standard library documents it, the text must be an
/// optional `+` or `-` sign followed by decimal digits only, and the number must fit in an
/// `i32`; anything else (an empty text, spaces, underscores, a fraction) is an error.
#[verifier::external_body]
fn parse_i32(s: &str) -> (r: Option<i32>)
    ensures
        r == parsed_i32(s@),
{
    s.parse::<i32>().ok()
}

/// The value an integer setting's editor starts from: the number its text spells, else 0.
pub fn int_setting_value(value: &str) -> (r: i32)
    ensures
        r == (match parsed_i32(value@) {
            Some(v) => v,
            None => 0i32,
        }),
{
    match parse_i32(value) {
        Some(v) => v,
        None => 0,
    }
}

/// The number of entries of the display mode menu.
pub const DISPLAY_MODE_COUNT: usize = 9;

/// The display mode menu's entry at `index`: its caption and mode.
pub fn display_mode_entry(index: usize) -> (r: (&'static str, DisplayMode))
    requires
        index < DISPLAY_MODE_COUNT,
    ensures
        index == 0 ==> r.0@ == "Smooth Shaded"@ && r.1 == DisplayMode::SmoothShaded,
        index == 1 ==> r.0@ == "Wireframe"@ && r.1 == DisplayMode::Wireframe,
        index == 2 ==> r.0@ == "Wireframe on Shaded"@ && r.1 == DisplayMode::WireframeOnShaded,
        index == 3 ==> r.0@ == "Flat Shaded"@ && r.1 == DisplayMode::FlatShaded,
        index == 4 ==> r.0@ == "Points"@ && r.1 == DisplayMode::Points,
        index == 5 ==> r.0@ == "Textured"@ && r.1 == DisplayMode::Textured,
        index == 6 ==> r.0@ == "Geom Only"@ && r.1 == DisplayMode::GeomOnly,
        index == 7 ==> r.0@ == "Geom Flat"@ && r.1 == DisplayMode::GeomFlat,
        index == 8 ==> r.0@ == "Geom Smooth"@ && r.1 == DisplayMode::GeomSmooth,
{
    if index == 0 {
        ("Smooth Shaded", DisplayMode::SmoothShaded)
    } else if index == 1 {
        ("Wireframe", DisplayMode::Wireframe)
    } else if index == 2 {
        ("Wireframe on Shaded", DisplayMode::WireframeOnShaded)
    } else if index == 3 {
        ("Flat Shaded", DisplayMode::FlatShaded)
    } else if index == 4 {
        ("Points", DisplayMode::Points)
    } else if index == 5 {
        ("Textured", DisplayMode::Textured)
    } else if index == 6 {
        ("Geom Only", DisplayMode::GeomOnly)
    } else if index == 7 {
        ("Geom Flat", DisplayMode::GeomFlat)
    } else {
        ("Geom Smooth", DisplayMode::GeomSmooth)
    }
}

/// The number of entries of the viewport complexity menu.
pub const COMPLEXITY_COUNT: usize = 4;

/// The caption of the viewport complexity menu's entry at `index`.
pub fn complexity_label(index: usize) -> (r: &'static str)
    requires
        index < COMPLEXITY_COUNT,
    ensures
        index == 0 ==> r@ == "Low"@,
        index == 1 ==> r@ == "Medium"@,
        index == 2 ==> r@ == "High"@,
        index == 3 ==> r@ == "Very High"@,
{
    if index == 0 {
        "Low"
    } else if index == 1 {
        "Medium"
    } else if index == 2 {
        "High"
    } else {
        "Very High"
    }
}

} // verus!
