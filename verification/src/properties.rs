//! The properties panel: which prim it inspects, its search, its pin, and how it reads and
//! writes attribute values.
use vstd::prelude::*;
use crate::error::{error_text, DuError};
use crate::edits::{undo_block, in_undo_block, lemma_undo_block_balanced, is_plain, well_bracketed, StageEdit};
use crate::scene::{find_in_stage, find_prim_recursive, Stage};
use crate::text::{
    ascii_lowercase, contains_ignore_ascii_case, contains_str, ends_with, has_prefix, has_substring, has_suffix,
    starts_with, str_eq, trim, trim_str, eq_ascii_lower,
};

verus! {

/// The two pages of the panel.
#[derive(Debug, Clone, Copy, PartialEq, Eq, Structural)]
pub enum PropertiesTab {
    Quick,
    Inspector,
}

impl PropertiesTab {
    /// The tab's caption.
    pub fn label(self) -> (r: &'static str)
        ensures
            r@ == (match self {
                PropertiesTab::Quick => "Quick"@,
                PropertiesTab::Inspector => "Inspector"@,
            }),
    {
        match self {
            PropertiesTab::Quick => "Quick",
            PropertiesTab::Inspector => "Inspector",
        }
    }
}

/// The panel's state: the open tab, the search text, and the prim pinned as the inspected one.
pub struct PropertiesPanel {
    pub active_tab: PropertiesTab,
    pub search_text: String,
    pub pinned_path: Option<String>,
}

/// The pinned path after a frame starts: a pin whose prim no longer exists (or with no stage
/// open) is dropped.
pub open spec fn pin_after_check(pinned: Option<String>, stage: Option<Stage>) -> Option<String> {
    match pinned {
        None => None,
        Some(p) => match stage {
            Some(s) => if find_in_stage(s, p@) is Some {
                Some(p)
            } else {
                None
            },
            None => None,
        },
    }
}

/// The search admits `text`: the trimmed search is empty, or occurs in `text` with ASCII
/// letters compared case-insensitively.
pub open spec fn search_admits(search: Seq<char>, text: Seq<char>) -> bool {
    let q = trim(search);
    q.len() == 0 || has_substring(ascii_lowercase(text), ascii_lowercase(q))
}

/// Attributes the quick page lists.
pub open spec fn is_quick_attr(name: Seq<char>) -> bool {
    ||| name == "visibility"@
    ||| name == "purpose"@
    ||| name == "kind"@
    ||| name == "doubleSided"@
    ||| name == "subdivisionScheme"@
    ||| name == "orientation"@
    ||| name == "xformOpOrder"@
    ||| name == "active"@
    ||| has_prefix(name, "primvars:display"@)
}

/// Type names of light prims.
pub open spec fn is_light(t: Seq<char>) -> bool {
    ||| t == "DistantLight"@
    ||| t == "DomeLight"@
    ||| t == "DomeLight_1"@
    ||| t == "SphereLight"@
    ||| t == "RectLight"@
    ||| t == "DiskLight"@
    ||| t == "CylinderLight"@
    ||| t == "PortalLight"@
}

/// The boolean a string spells: after trimming and folding ASCII case, `1`, `true`, `yes`
/// and `on` are true; `0`, `false`, `no` and `off` are false.
pub open spec fn spec_parse_bool(raw: Seq<char>) -> Option<bool> {
    let t = ascii_lowercase(trim(raw));
    if t == "1"@ || t == "true"@ || t == "yes"@ || t == "on"@ {
        Some(true)
    } else if t == "0"@ || t == "false"@ || t == "no"@ || t == "off"@ {
        Some(false)
    } else {
        None
    }
}

/// The first candidate attribute, in order, whose value was read and is not blank;
/// `values[i]` is what reading `attrs[i]` gave, and candidates past the shorter of the two
/// lists are not considered.
pub open spec fn first_attr(attrs: Seq<&str>, values: Seq<Option<String>>) -> Option<(Seq<char>, Seq<char>)>
    decreases attrs.len(),
{
    if attrs.len() == 0 || values.len() == 0 {
        None
    } else if values[0] matches Some(v) && trim(v@).len() != 0 {
        Some((attrs[0]@, values[0].unwrap()@))
    } else {
        first_attr(attrs.drop_first(), values.drop_first())
    }
}

/// The button the toolbar offers: to unpin the inspected prim, to pin the selection, or none.
#[derive(Debug, Clone, Copy, PartialEq, Eq, Structural)]
pub enum PinButton {
    Unpin,
    Pin,
    Hidden,
}

/// The boolean a string spells (see `spec_parse_bool`).
pub fn parse_bool(raw: &str) -> (r: Option<bool>)
    ensures
        r == spec_parse_bool(raw@),
{
    proof {
        reveal_strlit("1");
        reveal_strlit("true");
        reveal_strlit("yes");
        reveal_strlit("on");
        reveal_strlit("0");
        reveal_strlit("false");
        reveal_strlit("no");
        reveal_strlit("off");
        assert(ascii_lowercase("1"@) =~= "1"@);
        assert(ascii_lowercase("true"@) =~= "true"@);
        assert(ascii_lowercase("yes"@) =~= "yes"@);
        assert(ascii_lowercase("on"@) =~= "on"@);
        assert(ascii_lowercase("0"@) =~= "0"@);
        assert(ascii_lowercase("false"@) =~= "false"@);
        assert(ascii_lowercase("no"@) =~= "no"@);
        assert(ascii_lowercase("off"@) =~= "off"@);
    }
    let t = trim_str(raw);
    if eq_ascii_lower(t, "1") || eq_ascii_lower(t, "true")
        || eq_ascii_lower(t, "yes") || eq_ascii_lower(t, "on") {
        Some(true)
    } else if eq_ascii_lower(t, "0") || eq_ascii_lower(t, "false")
        || eq_ascii_lower(t, "no") || eq_ascii_lower(t, "off") {
        Some(false)
    } else {
        None
    }
}

/// Every value, where all were read; `None` as soon as one could not be.
pub fn collect_attr_values(values: &Vec<Option<String>>) -> (r: Option<Vec<String>>)
    ensures
        r is Some <==> (forall|k: int| 0 <= k < values@.len() ==> values@[k] is Some),
        r matches Some(v) ==> v@.len() == values@.len() && forall|k: int|
            0 <= k < values@.len() ==> #[trigger] v@[k] == values@[k].unwrap(),
{
    let mut out: Vec<String> = Vec::new();
    let n = values.len();
    let mut i: usize = 0;
    while i < n
        invariant
            n == values@.len(),
            i <= n,
            out@.len() == i,
            forall|k: int| 0 <= k < i ==> values@[k] is Some,
            forall|k: int| 0 <= k < i ==> #[trigger] out@[k] == values@[k].unwrap(),
        decreases n - i,
    {
        match &values[i] {
            None => {
                return None;
            },
            Some(v) => {
                out.push(v.clone());
            },
        }
        i = i + 1;
    }
    Some(out)
}

/// The first candidate attribute whose value was read and is not blank, with that value;
/// `values[i]` is what reading `attrs[i]` gave.
pub fn read_first_attr(attrs: &Vec<&str>, values: &Vec<Option<String>>) -> (r: Option<(String, String)>)
    ensures
        r is Some == first_attr(attrs@, values@) is Some,
        r matches Some(x) ==> first_attr(attrs@, values@) == Some((x.0@, x.1@)),
{
    let na = attrs.len();
    let nv = values.len();
    let n = if na < nv { na } else { nv };
    let mut i: usize = 0;
    assert(attrs@.subrange(0, na as int) =~= attrs@);
    assert(values@.subrange(0, nv as int) =~= values@);
    while i < n
        invariant
            na == attrs@.len(),
            nv == values@.len(),
            n <= na,
            n <= nv,
            n == na || n == nv,
            i <= n,
            first_attr(attrs@, values@) == first_attr(
                attrs@.subrange(i as int, na as int),
                values@.subrange(i as int, nv as int),
            ),
        decreases n - i,
    {
        let ghost ra = attrs@.subrange(i as int, na as int);
        let ghost rv = values@.subrange(i as int, nv as int);
        assert(ra[0] == attrs@[i as int]);
        assert(rv[0] == values@[i as int]);
        assert(ra.drop_first() =~= attrs@.subrange(i + 1, na as int));
        assert(rv.drop_first() =~= values@.subrange(i + 1, nv as int));
        match &values[i] {
            Some(v) => {
                if trim_str(v.as_str()).unicode_len() != 0 {
                    return Some((String::from_str(attrs[i]), v.clone()));
                }
            },
            None => {},
        }
        i = i + 1;
    }
    assert(attrs@.subrange(i as int, na as int).len() == 0 || values@.subrange(i as int, nv as int).len() == 0);
    None
}

/// The first candidate attribute that holds a non-blank value, and the boolean that value
/// spells; `None` where there is no such attribute or its value spells no boolean.
pub fn read_first_bool_attr(attrs: &Vec<&str>, values: &Vec<Option<String>>) -> (r: Option<(String, bool)>)
    ensures
        r is Some == (first_attr(attrs@, values@) matches Some(x) && spec_parse_bool(x.1) is Some),
        r matches Some(y) ==> first_attr(attrs@, values@) matches Some(x) && x.0 == y.0@
            && spec_parse_bool(x.1) == Some(y.1),
{
    match read_first_attr(attrs, values) {
        None => None,
        Some((name, raw)) => match parse_bool(raw.as_str()) {
            Some(b) => Some((name, b)),
            None => None,
        },
    }
}

/// The first candidate attribute that holds a non-blank value, and that value trimmed where
/// it spells a number; `None` where there is no such attribute or its value spells no number.
pub fn read_first_number_attr(attrs: &Vec<&str>, values: &Vec<Option<String>>) -> (r: Option<(String, String)>)
    ensures
        r is Some == (first_attr(attrs@, values@) matches Some(x) && crate::numbers::is_float_text(
            trim(x.1),
        )),
        r matches Some(y) ==> first_attr(attrs@, values@) matches Some(x) && x.0 == y.0@ && y.1@
            == trim(x.1),
{
    match read_first_attr(attrs, values) {
        None => None,
        Some((name, raw)) => {
            let t = trim_str(raw.as_str());
            if crate::numbers::is_float_literal(t) {
                Some((name, String::from_str(t)))
            } else {
                None
            }
        },
    }
}

/// The first candidate attribute that holds a non-blank value, and the three number texts of
/// that value where it spells a 3-vector (see `vec3_parts`).
pub fn read_first_vec3_attr(attrs: &Vec<&str>, values: &Vec<Option<String>>) -> (r: Option<(String, Vec<String>)>)
    ensures
        r is Some == (first_attr(attrs@, values@) matches Some(x) && vec3_parts(x.1) is Some),
        r matches Some(y) ==> first_attr(attrs@, values@) matches Some(x) && x.0 == y.0@
            && y.1@.map_values(|c: String| c@) == vec3_parts(x.1).unwrap(),
{
    match read_first_attr(attrs, values) {
        None => None,
        Some((name, raw)) => match vec3_components(raw.as_str()) {
            Some(v) => Some((name, v)),
            None => None,
        },
    }
}

/// A row of the light editor.
#[derive(Debug, Clone, Copy, PartialEq, Eq, Structural)]
pub enum LightControl {
    Intensity,
    Exposure,
    Color,
    Shadow,
    Radius,
    Angle,
}

impl LightControl {
    /// The rows of the light editor, in order.
    pub fn all() -> (r: Vec<LightControl>)
        ensures
            r@ == seq![
                LightControl::Intensity,
                LightControl::Exposure,
                LightControl::Color,
                LightControl::Shadow,
                LightControl::Radius,
                LightControl::Angle,
            ],
    {
        let mut v: Vec<LightControl> = Vec::new();
        v.push(LightControl::Intensity);
        v.push(LightControl::Exposure);
        v.push(LightControl::Color);
        v.push(LightControl::Shadow);
        v.push(LightControl::Radius);
        v.push(LightControl::Angle);
        v
    }

    /// The row's caption.
    pub fn label(self) -> (r: &'static str)
        ensures
            r@ == (match self {
                LightControl::Intensity => "Intensity"@,
                LightControl::Exposure => "Exposure"@,
                LightControl::Color => "Color"@,
                LightControl::Shadow => "Shadow"@,
                LightControl::Radius => "Radius"@,
                LightControl::Angle => "Angle"@,
            }),
    {
        match self {
            LightControl::Intensity => "Intensity",
            LightControl::Exposure => "Exposure",
            LightControl::Color => "Color",
            LightControl::Shadow => "Shadow",
            LightControl::Radius => "Radius",
            LightControl::Angle => "Angle",
        }
    }

    /// The attributes the row edits, most preferred first: the row edits the first of them
    /// that holds a value.
    pub fn attributes(self) -> (r: Vec<&'static str>)
        ensures
            r@.map_values(|a: &str| a@) == (match self {
                LightControl::Intensity => seq!["inputs:intensity"@, "intensity"@],
                LightControl::Exposure => seq!["inputs:exposure"@, "exposure"@],
                LightControl::Color => seq!["inputs:color"@, "color"@],
                LightControl::Shadow => seq!["inputs:shadow:enable"@, "shadow:enable"@, "hasShadow"@],
                LightControl::Radius => seq!["inputs:radius"@, "radius"@],
                LightControl::Angle => seq!["inputs:angle"@, "angle"@],
            }),
    {
        let mut v: Vec<&'static str> = Vec::new();
        match self {
            LightControl::Intensity => {
                v.push("inputs:intensity");
                v.push("intensity");
            },
            LightControl::Exposure => {
                v.push("inputs:exposure");
                v.push("exposure");
            },
            LightControl::Color => {
                v.push("inputs:color");
                v.push("color");
            },
            LightControl::Shadow => {
                v.push("inputs:shadow:enable");
                v.push("shadow:enable");
                v.push("hasShadow");
            },
            LightControl::Radius => {
                v.push("inputs:radius");
                v.push("radius");
            },
            LightControl::Angle => {
                v.push("inputs:angle");
                v.push("angle");
            },
        }
        assert(v@.map_values(|a: &str| a@) =~= (match self {
            LightControl::Intensity => seq!["inputs:intensity"@, "intensity"@],
            LightControl::Exposure => seq!["inputs:exposure"@, "exposure"@],
            LightControl::Color => seq!["inputs:color"@, "color"@],
            LightControl::Shadow => seq!["inputs:shadow:enable"@, "shadow:enable"@, "hasShadow"@],
            LightControl::Radius => seq!["inputs:radius"@, "radius"@],
            LightControl::Angle => seq!["inputs:angle"@, "angle"@],
        }));
        v
    }
}

/// An attribute of the quick page (see `is_quick_attr`).
pub fn is_quick_attribute(name: &str) -> (r: bool)
    ensures
        r == is_quick_attr(name@),
{
    str_eq(name, "visibility") || str_eq(name, "purpose") || str_eq(name, "kind") || str_eq(
        name,
        "doubleSided",
    ) || str_eq(name, "subdivisionScheme") || str_eq(name, "orientation") || str_eq(
        name,
        "xformOpOrder",
    ) || str_eq(name, "active") || starts_with(name, "primvars:display")
}

/// A light type name (see `is_light`).
pub fn is_light_type(prim_type: &str) -> (r: bool)
    ensures
        r == is_light(prim_type@),
{
    str_eq(prim_type, "DistantLight") || str_eq(prim_type, "DomeLight") || str_eq(
        prim_type,
        "DomeLight_1",
    ) || str_eq(prim_type, "SphereLight") || str_eq(prim_type, "RectLight") || str_eq(
        prim_type,
        "DiskLight",
    ) || str_eq(prim_type, "CylinderLight") || str_eq(prim_type, "PortalLight")
}

/// How fast a dragged number changes: by a hundredth, five hundredths or a tenth of a unit
/// per pixel.
#[derive(Debug, Clone, Copy, PartialEq, Eq, Structural)]
pub enum DragSpeed {
    Fine,
    Normal,
    Coarse,
}

/// The drag speed of a transform row: rotation drags coarsely, scale finely, the rest at the
/// normal speed.
pub fn axis_speed(label: &str) -> (r: DragSpeed)
    ensures
        r == (if label@ == "Rotate"@ {
            DragSpeed::Coarse
        } else if label@ == "Scale"@ {
            DragSpeed::Fine
        } else {
            DragSpeed::Normal
        }),
{
    if str_eq(label, "Rotate") {
        DragSpeed::Coarse
    } else if str_eq(label, "Scale") {
        DragSpeed::Fine
    } else {
        DragSpeed::Normal
    }
}

/// The drag speed of a numeric attribute: intensities and exposures drag coarsely, radii and
/// scales finely, the rest at the normal speed.
pub fn number_speed(name: &str) -> (r: DragSpeed)
    ensures
        r == (if has_substring(name@, "intensity"@) || has_substring(name@, "exposure"@) {
            DragSpeed::Coarse
        } else if has_substring(name@, "radius"@) || has_substring(name@, "scale"@) {
            DragSpeed::Fine
        } else {
            DragSpeed::Normal
        }),
{
    if contains_str(name, "intensity") || contains_str(name, "exposure") {
        DragSpeed::Coarse
    } else if contains_str(name, "radius") || contains_str(name, "scale") {
        DragSpeed::Fine
    } else {
        DragSpeed::Normal
    }
}

/// The quick page opens with a light section: the type starts with `DomeLight` or
/// `DistantLight`, or ends with `Light`.
pub fn quick_page_shows_light(prim_type: &str) -> (r: bool)
    ensures
        r == (has_prefix(prim_type@, "DomeLight"@) || has_prefix(prim_type@, "DistantLight"@)
            || has_suffix(prim_type@, "Light"@)),
{
    starts_with(prim_type, "DomeLight") || starts_with(prim_type, "DistantLight") || ends_with(
        prim_type,
        "Light",
    )
}

/// The inspector page's first section: the default-light editor for the viewer's default
/// lights, the light editor for light types, or none.
#[derive(Debug, Clone, Copy, PartialEq, Eq, Structural)]
pub enum LightSection {
    DefaultLight,
    Light,
    Absent,
}

/// Which light section the inspector page opens with.
pub fn inspector_light_section(path: &str, prim_type: &str) -> (r: LightSection)
    ensures
        has_prefix(path@, "/_DefaultLights/"@) ==> r == LightSection::DefaultLight,
        !has_prefix(path@, "/_DefaultLights/"@) && is_light(prim_type@) ==> r == LightSection::Light,
        !has_prefix(path@, "/_DefaultLights/"@) && !is_light(prim_type@) ==> r == LightSection::Absent,
{
    if starts_with(path, "/_DefaultLights/") {
        LightSection::DefaultLight
    } else if is_light_type(prim_type) {
        LightSection::Light
    } else {
        LightSection::Absent
    }
}

/// A collapsible section of a properties page.
#[derive(Debug, Clone, Copy, PartialEq, Eq, Structural)]
pub enum Section {
    DefaultLight,
    Light,
    Transform,
    Common,
    Attributes,
    Variants,
    Hierarchy,
    Material,
}

impl Section {
    /// The section's title.
    pub fn title(self) -> (r: &'static str)
        ensures
            r@ == (match self {
                Section::DefaultLight => "Default Light"@,
                Section::Light => "Light"@,
                Section::Transform => "Transform"@,
                Section::Common => "Common"@,
                Section::Attributes => "Attributes"@,
                Section::Variants => "Variants"@,
                Section::Hierarchy => "Hierarchy"@,
                Section::Material => "Material"@,
            }),
    {
        match self {
            Section::DefaultLight => "Default Light",
            Section::Light => "Light",
            Section::Transform => "Transform",
            Section::Common => "Common",
            Section::Attributes => "Attributes",
            Section::Variants => "Variants",
            Section::Hierarchy => "Hierarchy",
            Section::Material => "Material",
        }
    }
}

/// The sections of a page for the prim at `path` of type `t`, in order, each with whether it
/// starts open. The quick page: a light section for light-like types, then transform, common
/// attributes, variants and material, all open. The inspector: the light section that
/// `inspector_light_section` names, transform and attributes open, then variants, hierarchy
/// and material closed.
pub open spec fn sections_of(tab: PropertiesTab, path: Seq<char>, t: Seq<char>) -> Seq<(Section, bool)> {
    match tab {
        PropertiesTab::Quick => (if has_prefix(t, "DomeLight"@) || has_prefix(t, "DistantLight"@)
            || has_suffix(t, "Light"@) {
            seq![(Section::Light, true)]
        } else {
            Seq::empty()
        }) + seq![
            (Section::Transform, true),
            (Section::Common, true),
            (Section::Variants, true),
            (Section::Material, true),
        ],
        PropertiesTab::Inspector => (if has_prefix(path, "/_DefaultLights/"@) {
            seq![(Section::DefaultLight, true)]
        } else if is_light(t) {
            seq![(Section::Light, true)]
        } else {
            Seq::empty()
        }) + seq![
            (Section::Transform, true),
            (Section::Attributes, true),
            (Section::Variants, false),
            (Section::Hierarchy, false),
            (Section::Material, false),
        ],
    }
}

/// The sections of a page (see `sections_of`).
pub fn page_sections(tab: PropertiesTab, path: &str, prim_type: &str) -> (r: Vec<(Section, bool)>)
    ensures
        r@ == sections_of(tab, path@, prim_type@),
{
    let mut v: Vec<(Section, bool)> = Vec::new();
    let ghost head: Seq<(Section, bool)>;
    match tab {
        PropertiesTab::Quick => {
            if quick_page_shows_light(prim_type) {
                v.push((Section::Light, true));
            }
            proof {
                head = v@;
            }
            v.push((Section::Transform, true));
            v.push((Section::Common, true));
            v.push((Section::Variants, true));
            v.push((Section::Material, true));
            assert(v@ =~= head + seq![
                (Section::Transform, true),
                (Section::Common, true),
                (Section::Variants, true),
                (Section::Material, true),
            ]);
        },
        PropertiesTab::Inspector => {
            match inspector_light_section(path, prim_type) {
                LightSection::DefaultLight => v.push((Section::DefaultLight, true)),
                LightSection::Light => v.push((Section::Light, true)),
                LightSection::Absent => {},
            }
            proof {
                head = v@;
            }
            v.push((Section::Transform, true));
            v.push((Section::Attributes, true));
            v.push((Section::Variants, false));
            v.push((Section::Hierarchy, false));
            v.push((Section::Material, false));
            assert(v@ =~= head + seq![
                (Section::Transform, true),
                (Section::Attributes, true),
                (Section::Variants, false),
                (Section::Hierarchy, false),
                (Section::Material, false),
            ]);
        },
    }
    v
}

/// What the transform section says instead of its editors: the first of the prim's local
/// matrix, translation, rotation and scale that could not be read, with its error; nothing
/// where all four were read.
pub fn transform_unavailable<M, V>(
    matrix: &Result<M, DuError>,
    translate: &Result<V, DuError>,
    rotate: &Result<V, DuError>,
    scale: &Result<V, DuError>,
) -> (r: Option<String>)
    ensures
        matrix matches Err(e) ==> (r matches Some(m) && m@ == "(no transform: "@ + error_text(*e) + ")"@),
        matrix is Ok ==> (translate matches Err(e) ==> (r matches Some(m) && m@
            == "(translate unavailable: "@ + error_text(*e) + ")"@)),
        matrix is Ok && translate is Ok ==> (rotate matches Err(e) ==> (r matches Some(m) && m@
            == "(rotate unavailable: "@ + error_text(*e) + ")"@)),
        matrix is Ok && translate is Ok && rotate is Ok ==> (scale matches Err(e) ==> (r matches Some(
            m,
        ) && m@ == "(scale unavailable: "@ + error_text(*e) + ")"@)),
        matrix is Ok && translate is Ok && rotate is Ok && scale is Ok ==> r is None,
{
    if let Err(e) = matrix {
        return Some(String::from_str("(no transform: ").concat(e.to_message().as_str()).concat(")"));
    }
    if let Err(e) = translate {
        return Some(String::from_str("(translate unavailable: ").concat(e.to_message().as_str()).concat(")"));
    }
    if let Err(e) = rotate {
        return Some(String::from_str("(rotate unavailable: ").concat(e.to_message().as_str()).concat(")"));
    }
    if let Err(e) = scale {
        return Some(String::from_str("(scale unavailable: ").concat(e.to_message().as_str()).concat(")"));
    }
    None
}

/// Row `row` of a 4x4 matrix stored column by column.
pub fn matrix_row<T: Copy>(m: &[T; 16], row: usize) -> (r: [T; 4])
    requires
        row < 4,
    ensures
        r@ == seq![m@[row as int], m@[row + 4], m@[row + 8], m@[row + 12]],
{
    let r = [m[row], m[row + 4], m[row + 8], m[row + 12]];
    assert(r@ =~= seq![m@[row as int], m@[row + 4], m@[row + 8], m@[row + 12]]);
    r
}

impl PropertiesPanel {
    /// A panel on its quick page, with no search and no pin.
    pub fn new() -> (r: Self)
        ensures
            r.active_tab == PropertiesTab::Quick,
            r.search_text@ == Seq::<char>::empty(),
            r.pinned_path is None,
    {
        PropertiesPanel {
            active_tab: PropertiesTab::Quick,
            search_text: String::new(),
            pinned_path: None,
        }
    }

    /// Starts a frame: drops a pin whose prim is gone, and returns the path to inspect — the
    /// pinned one, else the current selection.
    pub fn begin_frame(&mut self, stage: Option<&Stage>, current_selection: Option<&str>) -> (r: Option<String>)
        ensures
            final(self).pinned_path == pin_after_check(
                old(self).pinned_path,
                match stage {
                    Some(s) => Some(*s),
                    None => None,
                },
            ),
            final(self).active_tab == old(self).active_tab,
            final(self).search_text == old(self).search_text,
            final(self).pinned_path matches Some(p) ==> r matches Some(x) && x@ == p@,
            final(self).pinned_path is None ==> (r matches Some(x) ==> current_selection matches Some(c) && x@ == c@),
            final(self).pinned_path is None ==> (r is None <==> current_selection is None),
    {
        let keep = match &self.pinned_path {
            None => false,
            Some(p) => match stage {
                Some(s) => find_prim_recursive(s, p.as_str()).is_some(),
                None => false,
            },
        };
        if !keep {
            self.pinned_path = None;
        }
        match &self.pinned_path {
            Some(p) => Some(p.clone()),
            None => match current_selection {
                Some(c) => Some(String::from_str(c)),
                None => None,
            },
        }
    }

    /// The search admits `text` (see `search_admits`).
    pub fn matches_search(&self, text: &str) -> (r: bool)
        ensures
            r == search_admits(self.search_text@, text@),
    {
        let query = trim_str(self.search_text.as_str());
        query.unicode_len() == 0 || contains_ignore_ascii_case(text, query)
    }

    /// The attributes a page lists, in the prim's order: those the search admits, and on the
    /// quick page only the quick attributes.
    pub fn listed_attributes(&self, names: &Vec<String>, quick_only: bool) -> (r: Vec<String>)
        ensures
            r@.map_values(|x: String| x@) == names@.map_values(|x: String| x@).filter(
                |a: Seq<char>| (!quick_only || is_quick_attr(a)) && search_admits(self.search_text@, a),
            ),
    {
        let ghost nv = names@.map_values(|x: String| x@);
        let ghost keep = |a: Seq<char>| (!quick_only || is_quick_attr(a)) && search_admits(self.search_text@, a);
        let mut out: Vec<String> = Vec::new();
        let n = names.len();
        let mut i: usize = 0;
        assert(nv.subrange(0, 0) =~= Seq::<Seq<char>>::empty());
        while i < n
            invariant
                n == names@.len(),
                nv == names@.map_values(|x: String| x@),
                keep == (|a: Seq<char>| (!quick_only || is_quick_attr(a)) && search_admits(self.search_text@, a)),
                i <= n,
                out@.map_values(|x: String| x@) == nv.subrange(0, i as int).filter(keep),
            decreases n - i,
        {
            let ghost pre = nv.subrange(0, i as int);
            let ghost post = nv.subrange(0, i + 1);
            proof {
                assert(post.drop_last() =~= pre);
                assert(post.last() == names@[i as int]@);
                crate::text::lemma_filter_push(pre, keep, post.last());
                assert(pre.push(post.last()) =~= post);
            }
            let name = names[i].as_str();
            if (!quick_only || is_quick_attribute(name)) && self.matches_search(name) {
                let ghost ov = out@.map_values(|x: String| x@);
                out.push(names[i].clone());
                assert(out@.map_values(|x: String| x@) =~= ov.push(names@[i as int]@));
            }
            i = i + 1;
        }
        assert(nv.subrange(0, n as int) =~= nv);
        out
    }

    /// What the page says where there is no prim to inspect: that the pinned prim is gone, or
    /// that nothing is selected.
    pub fn no_prim_message(&self) -> (r: &'static str)
        ensures
            self.pinned_path is Some ==> r@ == "Pinned prim no longer exists"@,
            self.pinned_path is None ==> r@ == "No prim selected"@,
    {
        if self.pinned_path.is_some() {
            "Pinned prim no longer exists"
        } else {
            "No prim selected"
        }
    }

    /// More than one prim is selected and nothing is pinned: the panel edits the whole selection.
    pub fn shows_multi_edit(&self, selected_count: usize) -> (r: bool)
        ensures
            r == (self.pinned_path is None && selected_count > 1),
    {
        self.pinned_path.is_none() && selected_count > 1
    }

    /// The toolbar's pin button: `Unpin` where the inspected prim is the pinned one, else `Pin`
    /// where something is selected, else none.
    pub fn pin_button(&self, inspected_path: Option<&str>, current_selection: Option<&str>) -> (r: PinButton)
        ensures
            (inspected_path matches Some(i) && self.pinned_path matches Some(p) && i@ == p@) ==> r
                == PinButton::Unpin,
            !(inspected_path matches Some(i) && self.pinned_path matches Some(p) && i@ == p@) ==> (
            if current_selection is Some {
                r == PinButton::Pin
            } else {
                r == PinButton::Hidden
            }),
    {
        let pinned_here = match (inspected_path, &self.pinned_path) {
            (Some(i), Some(p)) => str_eq(i, p.as_str()),
            _ => false,
        };
        if pinned_here {
            PinButton::Unpin
        } else if current_selection.is_some() {
            PinButton::Pin
        } else {
            PinButton::Hidden
        }
    }

    /// What a click on the pin button does: `Unpin` drops the pin, `Pin` pins the selection.
    pub fn press_pin_button(&mut self, button: PinButton, current_selection: Option<&str>)
        ensures
            button == PinButton::Unpin ==> final(self).pinned_path is None,
            button == PinButton::Pin && current_selection is Some ==> (final(self).pinned_path matches Some(p)
                && p@ == current_selection.unwrap()@),
            button == PinButton::Hidden || (button == PinButton::Pin && current_selection is None)
                ==> final(self).pinned_path == old(self).pinned_path,
            final(self).active_tab == old(self).active_tab,
            final(self).search_text == old(self).search_text,
    {
        match button {
            PinButton::Unpin => {
                self.pinned_path = None;
            },
            PinButton::Pin => {
                if let Some(sel) = current_selection {
                    self.pinned_path = Some(String::from_str(sel));
                }
            },
            PinButton::Hidden => {},
        }
    }
}

/// The first value of a multi-prim enum attribute, trimmed, and whether any other value
/// differs from it once trimmed.
pub open spec fn enum_summary(values: Seq<String>) -> (Seq<char>, bool) {
    let first = trim(values[0]@);
    (first, exists|k: int| 1 <= k < values.len() && trim(values[k]@) != first)
}

/// The trimmed first value and whether the values are mixed (see `enum_summary`).
pub fn multi_enum_summary(values: &Vec<String>) -> (r: (String, bool))
    requires
        values@.len() > 0,
    ensures
        (r.0@, r.1) == enum_summary(values@),
{
    let first = trim_str(values[0].as_str());
    let n = values.len();
    let mut i: usize = 1;
    while i < n
        invariant
            n == values@.len(),
            1 <= i <= n,
            first@ == trim(values@[0]@),
            forall|k: int| 1 <= k < i ==> trim(values@[k]@) == first@,
        decreases n - i,
    {
        if !str_eq(trim_str(values[i].as_str()), first) {
            return (String::from_str(first), true);
        }
        i = i + 1;
    }
    (String::from_str(first), false)
}

/// What the enum row's selector shows where the values are mixed; never written.
pub open spec fn mixed_marker() -> Seq<char> {
    "__mixed__"@
}

/// The choice in a multi-prim enum row is written to every prim: it is a real option, and
/// the values were mixed or the choice differs from them.
pub fn multi_enum_writes(chosen: &str, first: &str, mixed: bool) -> (r: bool)
    ensures
        r == (chosen@ != mixed_marker() && (mixed || chosen@ != first@)),
{
    !str_eq(chosen, "__mixed__") && (mixed || !str_eq(chosen, first))
}

/// The parent the move editor offers for a prim path: the part before the last `/`, `/`
/// where that part is empty or the path has no `/`.
pub open spec fn reparent_default(p: Seq<char>) -> Seq<char> {
    match crate::text::last_index_of(p, '/') {
        None => "/"@,
        Some(i) => if i == 0 {
            "/"@
        } else {
            p.subrange(0, i)
        },
    }
}

/// The parent the move editor offers (see `reparent_default`).
pub fn reparent_default_parent(current_path: &str) -> (r: String)
    ensures
        r@ == reparent_default(current_path@),
{
    let n = current_path.unicode_len();
    assert(current_path@.subrange(0, n as int) =~= current_path@);
    let found = crate::text::rfind_char(current_path, n, '/');
    proof {
        crate::paths::lemma_last_index_bound(current_path@, '/');
        match crate::text::last_index_of(current_path@, '/') {
            Some(i) => {
                assert(found == Some(i as usize));
            },
            None => {
                assert(found is None);
            },
        }
    }
    match found {
        None => String::from_str("/"),
        Some(i) => {
            if i == 0 {
                String::from_str("/")
            } else {
                String::from_str(current_path.substring_char(0, i))
            }
        },
    }
}

/// The last segment of a prim path (after its last `/`), or `Prim` where that segment is
/// empty.
pub open spec fn moved_name(p: Seq<char>) -> Seq<char> {
    let seg = match crate::text::last_index_of(p, '/') {
        None => p,
        Some(i) => p.subrange(i + 1, p.len() as int),
    };
    if seg.len() == 0 {
        "Prim"@
    } else {
        seg
    }
}

/// The path a prim takes when moved under `target_parent`.
pub open spec fn moved_path(current: Seq<char>, target_parent: Seq<char>) -> Seq<char> {
    if target_parent == "/"@ {
        "/"@ + moved_name(current)
    } else {
        target_parent + "/"@ + moved_name(current)
    }
}

/// The path the prim at `current_path` takes when moved under `target_parent`.
pub fn moved_prim_path(current_path: &str, target_parent: &str) -> (r: String)
    ensures
        r@ == moved_path(current_path@, target_parent@),
{
    let n = current_path.unicode_len();
    assert(current_path@.subrange(0, n as int) =~= current_path@);
    proof {
        crate::paths::lemma_last_index_bound(current_path@, '/');
    }
    let seg = match crate::text::rfind_char(current_path, n, '/') {
        None => current_path,
        Some(i) => current_path.substring_char(i + 1, n),
    };
    let name = if seg.unicode_len() == 0 {
        "Prim"
    } else {
        seg
    };
    if str_eq(target_parent, "/") {
        String::from_str("/").concat(name)
    } else {
        String::from_str(target_parent).concat("/").concat(name)
    }
}

/// The edits that move a prim under `target_parent`, inside an undo block where there is a
/// stage.
pub fn reparent_with_undo(has_stage: bool, prim: usize, target_parent: &str) -> (r: Vec<StageEdit>)
    ensures
        has_stage ==> r@.len() == 3 && r@[0] is UndoBegin && r@[2] is UndoEnd,
        !has_stage ==> r@.len() == 1,
        r@[if has_stage { 1int } else { 0int }] matches StageEdit::Reparent { prim: p, new_parent }
            && p == prim && new_parent@ == target_parent@,
        well_bracketed(r@),
{
    let mut body: Vec<StageEdit> = Vec::new();
    body.push(StageEdit::Reparent { prim, new_parent: String::from_str(target_parent) });
    let ghost b = body@;
    let r = undo_block(has_stage, body);
    proof {
        lemma_undo_block_balanced(has_stage, b, r@);
        if has_stage {
            assert(r@[1] == b[0]);
        }
    }
    r
}

/// The edits that select `variant` in the variant set `set_name`, inside an undo block where
/// there is a stage.
pub fn select_variant_with_undo(has_stage: bool, prim: usize, set_name: &str, variant: &str) -> (r: Vec<StageEdit>)
    ensures
        has_stage ==> r@.len() == 3 && r@[0] is UndoBegin && r@[2] is UndoEnd,
        !has_stage ==> r@.len() == 1,
        r@[if has_stage { 1int } else { 0int }] matches StageEdit::SetVariantSelection { prim: p, set_name: s, variant: v }
            && p == prim && s@ == set_name@ && v@ == variant@,
        well_bracketed(r@),
{
    let mut body: Vec<StageEdit> = Vec::new();
    body.push(
        StageEdit::SetVariantSelection {
            prim,
            set_name: String::from_str(set_name),
            variant: String::from_str(variant),
        },
    );
    let ghost b = body@;
    let r = undo_block(has_stage, body);
    proof {
        lemma_undo_block_balanced(has_stage, b, r@);
        if has_stage {
            assert(r@[1] == b[0]);
        }
    }
    r
}

/// The edits that set a parameter of a material, inside an undo block.
pub fn set_material_param_with_undo(prim: usize, name: &str, value: &str) -> (r: Vec<StageEdit>)
    ensures
        r@.len() == 3 && r@[0] is UndoBegin && r@[2] is UndoEnd,
        r@[1] matches StageEdit::SetMaterialParam { prim: p, name: n, value: v }
            && p == prim && n@ == name@ && v@ == value@,
        well_bracketed(r@),
{
    let mut body: Vec<StageEdit> = Vec::new();
    body.push(
        StageEdit::SetMaterialParam { prim, name: String::from_str(name), value: String::from_str(value) },
    );
    let ghost b = body@;
    let r = undo_block(true, body);
    proof {
        lemma_undo_block_balanced(true, b, r@);
        assert(r@[1] == b[0]);
    }
    r
}

/// An editable input of a material's surface shader, with its value as text.
pub struct MaterialParam {
    pub name: String,
    pub param_type: String,
    pub value: String,
    pub is_texture: bool,
}

/// The caption of a material input's row: its name, then its type (and `texture` for
/// textures) in brackets.
pub fn material_param_label(param: &MaterialParam) -> (r: String)
    ensures
        param.is_texture ==> r@ == param.name@ + " ("@ + param.param_type@ + ", texture)"@,
        !param.is_texture ==> r@ == param.name@ + " ("@ + param.param_type@ + ")"@,
{
    let head = param.name.clone().concat(" (").concat(param.param_type.as_str());
    if param.is_texture {
        head.concat(", texture)")
    } else {
        head.concat(")")
    }
}

/// What the attribute page shows when no attribute passes the search: `(none)` for an empty
/// search, else that nothing matches the trimmed search.
pub fn no_attributes_label(search_text: &str) -> (r: String)
    ensures
        trim(search_text@).len() == 0 ==> r@ == "(none)"@,
        trim(search_text@).len() != 0 ==> r@ == "No attributes match \""@ + trim(search_text@) + "\""@,
{
    let q = trim_str(search_text);
    if q.unicode_len() == 0 {
        String::from_str("(none)")
    } else {
        String::from_str("No attributes match \"").concat(q).concat("\"")
    }
}

/// The status line after a multi-prim enum attribute was written.
pub fn multi_enum_status(attr_name: &str, prim_count: usize) -> (r: String)
    ensures
        r@ == "Updated "@ + attr_name@ + " for "@ + crate::fmt::decimal(prim_count as nat) + " prims"@,
{
    String::from_str("Updated ").concat(attr_name).concat(" for ").concat(
        crate::fmt::decimal_string(prim_count).as_str(),
    ).concat(" prims")
}

/// The header of the multi-prim page: how many prims the selection names.
pub fn multi_selection_header(prim_count: usize) -> (r: String)
    ensures
        r@ == crate::fmt::decimal(prim_count as nat) + " prims selected"@,
{
    crate::fmt::decimal_string(prim_count).concat(" prims selected")
}

/// What the material section shows for a prim's bound material: `None` where it has no
/// binding (the panel shows `(none)`), else the line naming the binding.
pub fn material_binding_line(binding: &str) -> (r: Option<String>)
    ensures
        binding@.len() == 0 ==> r is None,
        binding@.len() != 0 ==> (r matches Some(x) && x@ == "Bound: "@ + binding@),
{
    if binding.unicode_len() == 0 {
        None
    } else {
        Some(String::from_str("Bound: ").concat(binding))
    }
}

/// Selecting a bound material selects its path and says so in the status line.
pub fn select_material(binding: &str) -> (r: (String, String))
    ensures
        r.0@ == binding@,
        r.1@ == "Selected material: "@ + binding@,
{
    (String::from_str(binding), String::from_str("Selected material: ").concat(binding))
}

/// The result of a move: the moved prim becomes the selection where the move succeeded; the
/// status line says where it went or why it failed.
pub fn move_outcome(result: &Result<(), crate::error::DuError>, new_path: &str) -> (r: (Option<String>, String))
    ensures
        result is Ok ==> (r.0 matches Some(p) && p@ == new_path@) && r.1@ == "Moved: "@ + new_path@,
        result matches Err(e) ==> r.0 is None && r.1@ == "Move failed: "@ + crate::error::error_text(*e),
{
    match result {
        Ok(()) => (Some(String::from_str(new_path)), String::from_str("Moved: ").concat(new_path)),
        Err(e) => (None, String::from_str("Move failed: ").concat(e.to_message().as_str())),
    }
}

/// The lines under the inspected prim's path in the panel's header: its type where known,
/// the current selection where it is another prim, and a note where the prim is pinned.
pub fn header_lines(panel: &PropertiesPanel, path: &str, prim_type: &str, current_selection: Option<&str>) -> (r: Vec<String>)
    ensures
        r@.map_values(|x: String| x@) == (if prim_type@.len() != 0 {
            seq!["Type: "@ + prim_type@]
        } else {
            Seq::empty()
        }) + (if current_selection is Some && current_selection.unwrap()@ != path@ {
            seq!["Selection: "@ + current_selection.unwrap()@]
        } else {
            Seq::empty()
        }) + (if panel.pinned_path is Some && panel.pinned_path.unwrap()@ == path@ {
            seq!["Pinned inspector target"@]
        } else {
            Seq::empty()
        }),
{
    let mut lines: Vec<String> = Vec::new();
    let ghost a = if prim_type@.len() != 0 {
        seq!["Type: "@ + prim_type@]
    } else {
        Seq::<Seq<char>>::empty()
    };
    let ghost b = if current_selection is Some && current_selection.unwrap()@ != path@ {
        seq!["Selection: "@ + current_selection.unwrap()@]
    } else {
        Seq::<Seq<char>>::empty()
    };
    let ghost c = if panel.pinned_path is Some && panel.pinned_path.unwrap()@ == path@ {
        seq!["Pinned inspector target"@]
    } else {
        Seq::<Seq<char>>::empty()
    };
    if prim_type.unicode_len() != 0 {
        lines.push(String::from_str("Type: ").concat(prim_type));
    }
    assert(lines@.map_values(|x: String| x@) =~= a);
    if let Some(sel) = current_selection {
        if !str_eq(sel, path) {
            lines.push(String::from_str("Selection: ").concat(sel));
        }
    }
    assert(lines@.map_values(|x: String| x@) =~= a + b);
    if let Some(p) = &panel.pinned_path {
        if str_eq(p.as_str(), path) {
            lines.push(String::from_str("Pinned inspector target"));
        }
    }
    assert(lines@.map_values(|x: String| x@) =~= a + b + c);
    lines
}

/// Characters that can belong to a number in an attribute's text.
pub open spec fn is_number_char(c: char) -> bool {
    ('0' <= c && c <= '9') || c == '-' || c == '+' || c == '.' || c == 'e' || c == 'E'
}

/// The maximal runs of number characters of `s`, in order.
pub open spec fn number_runs(s: Seq<char>) -> Seq<Seq<char>>
    decreases s.len(),
{
    if s.len() == 0 {
        Seq::empty()
    } else {
        let r = number_runs(s.drop_last());
        let c = s.last();
        if !is_number_char(c) {
            r
        } else if s.len() >= 2 && is_number_char(s[s.len() - 2]) {
            r.update(r.len() - 1, r.last().push(c))
        } else {
            r.push(seq![c])
        }
    }
}

/// The runs that spell a number, in order.
pub open spec fn numeric_runs(runs: Seq<Seq<char>>) -> Seq<Seq<char>> {
    runs.filter(|t: Seq<char>| crate::numbers::is_float_text(t))
}

/// An attribute's text holds a 3-vector: exactly three of its runs of number characters spell
/// numbers; those three, in order.
pub open spec fn vec3_parts(raw: Seq<char>) -> Option<Seq<Seq<char>>> {
    let nums = numeric_runs(number_runs(raw));
    if nums.len() == 3 {
        Some(nums)
    } else {
        None
    }
}

proof fn lemma_number_runs_nonempty(s: Seq<char>)
    ensures
        s.len() > 0 && is_number_char(s.last()) ==> number_runs(s).len() > 0,
        forall|k: int| 0 <= k < number_runs(s).len() ==> (#[trigger] number_runs(s)[k]).len() > 0,
    decreases s.len(),
{
    if s.len() > 0 {
        lemma_number_runs_nonempty(s.drop_last());
        let r = number_runs(s.drop_last());
        let c = s.last();
        if is_number_char(c) && s.len() >= 2 && is_number_char(s[s.len() - 2]) {
            assert(s.drop_last().last() == s[s.len() - 2]);
            assert(r.len() > 0);
            let u = r.update(r.len() - 1, r.last().push(c));
            assert forall|k: int| 0 <= k < u.len() implies (#[trigger] u[k]).len() > 0 by {
                if k < r.len() - 1 {
                    assert(u[k] == r[k]);
                }
            }
        } else if is_number_char(c) {
            let u = r.push(seq![c]);
            assert forall|k: int| 0 <= k < u.len() implies (#[trigger] u[k]).len() > 0 by {
                if k < r.len() {
                    assert(u[k] == r[k]);
                }
            }
        }
    }
}

/// The runs of number characters of `raw` (see `number_runs`).
pub fn number_runs_of(raw: &str) -> (r: Vec<String>)
    ensures
        r@.map_values(|x: String| x@) == number_runs(raw@),
{
    let n = raw.unicode_len();
    let mut runs: Vec<String> = Vec::new();
    let mut start: usize = 0;
    let mut in_run = false;
    let mut i: usize = 0;
    assert(raw@.subrange(0, 0) =~= Seq::<char>::empty());
    while i < n
        invariant
            n == raw@.len(),
            i <= n,
            start <= i,
            in_run ==> i > 0 && start < i,
            in_run ==> number_runs(raw@.subrange(0, i as int)).len() > 0,
            in_run == (i > 0 && is_number_char(raw@[i - 1])),
            in_run ==> forall|k: int| start <= k < i ==> is_number_char(#[trigger] raw@[k]),
            in_run ==> start == 0 || !is_number_char(raw@[start - 1]),
            // The completed runs are stored; the open one, if any, is raw[start..i].
            (if in_run {
                runs@.map_values(|x: String| x@).push(raw@.subrange(start as int, i as int))
            } else {
                runs@.map_values(|x: String| x@)
            }) == number_runs(raw@.subrange(0, i as int)),
        decreases n - i,
    {
        let c = raw.get_char(i);
        let is_num = ('0' <= c && c <= '9') || c == '-' || c == '+' || c == '.' || c == 'e' || c == 'E';
        let ghost pre = raw@.subrange(0, i as int);
        let ghost post = raw@.subrange(0, i + 1);
        proof {
            assert(post.drop_last() =~= pre);
            assert(post.last() == c);
            if i >= 1 {
                assert(post[post.len() - 2] == raw@[i - 1]);
            }
            lemma_number_runs_nonempty(pre);
        }
        if is_num {
            if !in_run {
                start = i;
                in_run = true;
                proof {
                    assert(raw@.subrange(start as int, i + 1) =~= seq![c]);
                }
            } else {
                proof {
                    let rv = runs@.map_values(|x: String| x@);
                    let open = raw@.subrange(start as int, i as int);
                    assert(raw@.subrange(start as int, i + 1) =~= open.push(c));
                    assert(rv.push(open).update(rv.len() as int, open.push(c)) =~= rv.push(open.push(c)));
                }
            }
        } else {
            if in_run {
                let token = String::from_str(raw.substring_char(start, i));
                let ghost rv = runs@.map_values(|x: String| x@);
                runs.push(token);
                assert(runs@.map_values(|x: String| x@) =~= rv.push(raw@.subrange(start as int, i as int)));
                in_run = false;
            }
        }
        i = i + 1;
    }
    assert(raw@.subrange(0, n as int) =~= raw@);
    if in_run {
        let token = String::from_str(raw.substring_char(start, n));
        let ghost rv = runs@.map_values(|x: String| x@);
        runs.push(token);
        assert(runs@.map_values(|x: String| x@) =~= rv.push(raw@.subrange(start as int, n as int)));
    }
    runs
}

/// The three number texts of an attribute's text that holds a 3-vector (see `vec3_parts`).
pub fn vec3_components(raw: &str) -> (r: Option<Vec<String>>)
    ensures
        r is Some == vec3_parts(raw@) is Some,
        r matches Some(v) ==> v@.map_values(|x: String| x@) == vec3_parts(raw@).unwrap(),
{
    let runs = number_runs_of(raw);
    let ghost rv = runs@.map_values(|x: String| x@);
    let mut nums: Vec<String> = Vec::new();
    let n = runs.len();
    let mut i: usize = 0;
    assert(rv.subrange(0, 0) =~= Seq::<Seq<char>>::empty());
    while i < n
        invariant
            n == runs@.len(),
            rv == runs@.map_values(|x: String| x@),
            i <= n,
            nums@.map_values(|x: String| x@) == rv.subrange(0, i as int).filter(
                |t: Seq<char>| crate::numbers::is_float_text(t),
            ),
        decreases n - i,
    {
        let ghost pre = rv.subrange(0, i as int);
        let ghost post = rv.subrange(0, i + 1);
        proof {
            assert(post.drop_last() =~= pre);
            assert(post.last() == runs@[i as int]@);
            crate::text::lemma_filter_push(pre, |t: Seq<char>| crate::numbers::is_float_text(t), post.last());
            assert(pre.push(post.last()) =~= post);
        }
        if crate::numbers::is_float_literal(runs[i].as_str()) {
            let ghost nv = nums@.map_values(|x: String| x@);
            nums.push(runs[i].clone());
            assert(nums@.map_values(|x: String| x@) =~= nv.push(runs@[i as int]@));
        }
        i = i + 1;
    }
    assert(rv.subrange(0, n as int) =~= rv);
    if nums.len() == 3 {
        Some(nums)
    } else {
        None
    }
}

/// The options of an attribute's menu: the visibility and purpose tokens; no menu for any
/// other attribute.
pub fn enum_options(name: &str) -> (r: Vec<&'static str>)
    ensures
        r@.map_values(|o: &str| o@) == (if name@ == "visibility"@ {
            seq!["inherited"@, "invisible"@]
        } else if name@ == "purpose"@ {
            seq!["default"@, "render"@, "proxy"@, "guide"@]
        } else {
            Seq::empty()
        }),
{
    let mut v: Vec<&'static str> = Vec::new();
    if str_eq(name, "visibility") {
        v.push("inherited");
        v.push("invisible");
    } else if str_eq(name, "purpose") {
        v.push("default");
        v.push("render");
        v.push("proxy");
        v.push("guide");
    }
    assert(v@.map_values(|o: &str| o@) =~= (if name@ == "visibility"@ {
        seq!["inherited"@, "invisible"@]
    } else if name@ == "purpose"@ {
        seq!["default"@, "render"@, "proxy"@, "guide"@]
    } else {
        Seq::empty()
    }));
    v
}

/// How the attribute editor shows a value.
pub enum AttrKind {
    /// One of `inherited`, `invisible` (the trimmed value).
    Visibility(String),
    /// One of `default`, `render`, `proxy`, `guide` (the trimmed value).
    Purpose(String),
    Bool(bool),
    /// The three number texts of a 3-vector.
    Vec3(Vec<String>),
    /// A number; its text is the trimmed value.
    Number,
    Text,
}

/// How the attribute editor shows the value of attribute `name`: visibility and purpose as
/// their menus where the trimmed value is an option; else a boolean, a 3-vector, a number, or
/// text, the first that the value spells.
pub open spec fn attr_kind_of(name: Seq<char>, value: Seq<char>) -> int {
    let t = trim(value);
    if name == "visibility"@ && (t == "inherited"@ || t == "invisible"@) {
        0
    } else if name == "purpose"@ && (t == "default"@ || t == "render"@ || t == "proxy"@ || t
        == "guide"@) {
        1
    } else if spec_parse_bool(value) is Some {
        2
    } else if vec3_parts(value) is Some {
        3
    } else if crate::numbers::is_float_text(t) {
        4
    } else {
        5
    }
}

/// The editor for an attribute's value (see `attr_kind_of`).
pub fn inferred_attr_kind(name: &str, value: &str) -> (r: AttrKind)
    ensures
        attr_kind_of(name@, value@) == (match r {
            AttrKind::Visibility(_) => 0int,
            AttrKind::Purpose(_) => 1int,
            AttrKind::Bool(_) => 2int,
            AttrKind::Vec3(_) => 3int,
            AttrKind::Number => 4int,
            AttrKind::Text => 5int,
        }),
        r matches AttrKind::Visibility(t) ==> t@ == trim(value@),
        r matches AttrKind::Purpose(t) ==> t@ == trim(value@),
        r matches AttrKind::Bool(b) ==> spec_parse_bool(value@) == Some(b),
        r matches AttrKind::Vec3(v) ==> v@.map_values(|x: String| x@) == vec3_parts(value@).unwrap(),
{
    let t = trim_str(value);
    if str_eq(name, "visibility") && (str_eq(t, "inherited") || str_eq(t, "invisible")) {
        return AttrKind::Visibility(String::from_str(t));
    }
    if str_eq(name, "purpose") && (str_eq(t, "default") || str_eq(t, "render") || str_eq(t, "proxy")
        || str_eq(t, "guide")) {
        return AttrKind::Purpose(String::from_str(t));
    }
    if let Some(b) = parse_bool(value) {
        return AttrKind::Bool(b);
    }
    if let Some(v) = vec3_components(value) {
        return AttrKind::Vec3(v);
    }
    if crate::numbers::is_float_literal(t) {
        return AttrKind::Number;
    }
    AttrKind::Text
}

/// A change made in an attribute row's editor: the checkbox set, a menu option chosen, or a
/// text committed with Enter.
pub enum RowEdit {
    Checked(bool),
    Chosen(String),
    Committed(String),
}

/// The text the checkbox writes for a boolean.
pub open spec fn bool_text(b: bool) -> Seq<char> {
    if b {
        "true"@
    } else {
        "false"@
    }
}

/// What an edit writes to an attribute whose value is `current`: the checkbox writes
/// `true` or `false`; a menu choice is written where it differs from the option shown (the
/// trimmed value); a committed text where it differs from the value.
pub open spec fn row_write(current: Seq<char>, edit: RowEdit) -> Option<Seq<char>> {
    match edit {
        RowEdit::Checked(b) => Some(bool_text(b)),
        RowEdit::Chosen(c) => if c@ != trim(current) {
            Some(c@)
        } else {
            None
        },
        RowEdit::Committed(d) => if d@ != current {
            Some(d@)
        } else {
            None
        },
    }
}

/// The text an edit in an attribute row writes, if any (see `row_write`).
pub fn row_edit_write(current: &str, edit: &RowEdit) -> (r: Option<String>)
    ensures
        match r {
            Some(t) => row_write(current@, *edit) == Some(t@),
            None => row_write(current@, *edit) is None,
        },
{
    match edit {
        RowEdit::Checked(b) => {
            proof {
                reveal_strlit("true");
                reveal_strlit("false");
            }
            Some(String::from_str(if *b { "true" } else { "false" }))
        },
        RowEdit::Chosen(c) => if str_eq(c.as_str(), trim_str(current)) {
            None
        } else {
            Some(c.clone())
        },
        RowEdit::Committed(d) => if str_eq(d.as_str(), current) {
            None
        } else {
            Some(d.clone())
        },
    }
}

/// The vectors that setting component `axis` of a transform row to `value` writes, in prim
/// order: each prim whose vector was read (`currents[k]`) gets that vector with the one
/// component replaced; a prim whose vector could not be read is left alone.
pub open spec fn component_writes<T>(currents: Seq<Option<[T; 3]>>, axis: int, value: T) -> Seq<(int, Seq<T>)>
    decreases currents.len(),
{
    if currents.len() == 0 {
        Seq::empty()
    } else {
        let rest = component_writes(currents.drop_last(), axis, value);
        match currents.last() {
            Some(c) => rest.push((currents.len() - 1, c@.update(axis, value))),
            None => rest,
        }
    }
}

/// The writes of a multi-prim transform row (see `component_writes`): which prim, by its
/// position, gets which vector.
pub fn multi_component_writes<T: Copy>(currents: &Vec<Option<[T; 3]>>, axis: usize, value: T) -> (r: Vec<(usize, [T; 3])>)
    requires
        axis < 3,
    ensures
        r@.map_values(|w: (usize, [T; 3])| (w.0 as int, w.1@)) == component_writes(currents@, axis as int, value),
{
    let mut out: Vec<(usize, [T; 3])> = Vec::new();
    let n = currents.len();
    let mut i: usize = 0;
    while i < n
        invariant
            n == currents@.len(),
            i <= n,
            axis < 3,
            out@.map_values(|w: (usize, [T; 3])| (w.0 as int, w.1@)) == component_writes(
                currents@.subrange(0, i as int),
                axis as int,
                value,
            ),
        decreases n - i,
    {
        let ghost before = out@;
        let ghost pre = currents@.subrange(0, i + 1);
        assert(pre.drop_last() =~= currents@.subrange(0, i as int));
        assert(pre.last() == currents@[i as int]);
        match currents[i] {
            Some(c) => {
                let v = [
                    if axis == 0 { value } else { c[0] },
                    if axis == 1 { value } else { c[1] },
                    if axis == 2 { value } else { c[2] },
                ];
                assert(v@ =~= c@.update(axis as int, value));
                out.push((i, v));
                assert(out@.map_values(|w: (usize, [T; 3])| (w.0 as int, w.1@)) =~= before.map_values(
                    |w: (usize, [T; 3])| (w.0 as int, w.1@),
                ).push((i as int, v@)));
            },
            None => {},
        }
        i = i + 1;
    }
    assert(currents@.subrange(0, n as int) =~= currents@);
    out
}

/// The handles of the prims that `paths` name in the stage, in order; a path that names no
/// prim is passed over.
pub open spec fn found_handles(stage: Stage, paths: Seq<Seq<char>>) -> Seq<usize>
    decreases paths.len(),
{
    if paths.len() == 0 {
        Seq::empty()
    } else {
        let rest = found_handles(stage, paths.drop_last());
        match find_in_stage(stage, paths.last()) {
            Some(p) => rest.push(p.handle),
            None => rest,
        }
    }
}

/// The prims a multi-prim page edits (see `found_handles`).
pub fn resolve_selection(stage: &Stage, paths: &Vec<String>) -> (r: Vec<usize>)
    ensures
        r@ == found_handles(*stage, paths@.map_values(|x: String| x@)),
{
    let ghost pv = paths@.map_values(|x: String| x@);
    let mut out: Vec<usize> = Vec::new();
    let n = paths.len();
    let mut i: usize = 0;
    assert(pv.subrange(0, 0) =~= Seq::<Seq<char>>::empty());
    while i < n
        invariant
            n == paths@.len(),
            pv == paths@.map_values(|x: String| x@),
            i <= n,
            out@ == found_handles(*stage, pv.subrange(0, i as int)),
        decreases n - i,
    {
        let ghost post = pv.subrange(0, i + 1);
        assert(post.drop_last() =~= pv.subrange(0, i as int));
        assert(post.last() == paths@[i as int]@);
        match find_prim_recursive(stage, paths[i].as_str()) {
            Some(p) => out.push(p.handle),
            None => {},
        }
        i = i + 1;
    }
    assert(pv.subrange(0, n as int) =~= pv);
    out
}

/// The background of the property row at position `k`: dark for even rows, lighter for
/// odd ones, as red, green and blue.
pub open spec fn row_shade(k: int) -> (u8, u8, u8) {
    if k % 2 == 0 {
        (24u8, 24u8, 30u8)
    } else {
        (36u8, 36u8, 44u8)
    }
}

/// The background of the property row at position `row_index` (see `row_shade`).
pub fn row_background(row_index: usize) -> (r: (u8, u8, u8))
    ensures
        r == row_shade(row_index as int),
{
    if row_index % 2 == 0 {
        (24, 24, 30)
    } else {
        (36, 36, 44)
    }
}

/// An attribute or light row takes the next row number: it is painted with the background
/// of its position, and the count moves on by one.
pub fn take_row(row_index: &mut usize) -> (r: (u8, u8, u8))
    requires
        *old(row_index) < usize::MAX,
    ensures
        *final(row_index) == *old(row_index) + 1,
        r == row_shade(*old(row_index) as int),
{
    let shade = row_background(*row_index);
    *row_index = *row_index + 1;
    shade
}

/// A step of a group of edits: open the undo block, make one edit, or close the block.
pub enum UndoStep<T> {
    Begin,
    Do(T),
    End,
}

/// The steps that setting component `axis` of a multi-prim transform row to `value` takes:
/// the writes of `multi_component_writes`, in order, all inside one undo block where a stage
/// is open, and bare otherwise.
pub fn multi_component_edits<T: Copy>(has_stage: bool, currents: &Vec<Option<[T; 3]>>, axis: usize, value: T) -> (r: Vec<UndoStep<(usize, [T; 3])>>)
    requires
        axis < 3,
    ensures
        ({
            let w = component_writes(currents@, axis as int, value);
            let off: int = if has_stage { 1 } else { 0 };
            &&& r@.len() == w.len() + 2 * off
            &&& has_stage ==> (r@[0] is Begin && r@[r@.len() - 1] is End)
            &&& forall|k: int| 0 <= k < w.len() ==> (#[trigger] r@[k + off] matches UndoStep::Do(x) && (
                x.0 as int,
                x.1@,
            ) == w[k])
        }),
{
    let writes = multi_component_writes(currents, axis, value);
    let ghost w = component_writes(currents@, axis as int, value);
    assert(writes@.len() == w.len()) by {
        assert(writes@.map_values(|x: (usize, [T; 3])| (x.0 as int, x.1@)).len() == writes@.len());
    }
    let mut out: Vec<UndoStep<(usize, [T; 3])>> = Vec::new();
    if has_stage {
        out.push(UndoStep::Begin);
    }
    let ghost off: int = if has_stage { 1 } else { 0 };
    let n = writes.len();
    let mut i: usize = 0;
    while i < n
        invariant
            n == writes@.len(),
            n == w.len(),
            w == writes@.map_values(|x: (usize, [T; 3])| (x.0 as int, x.1@)),
            off == (if has_stage { 1int } else { 0int }),
            i <= n,
            out@.len() == i + off,
            has_stage ==> out@[0] is Begin,
            forall|k: int| 0 <= k < i ==> (#[trigger] out@[k + off] matches UndoStep::Do(x) && (
                x.0 as int,
                x.1@,
            ) == w[k]),
        decreases n - i,
    {
        let step = writes[i];
        assert(w[i as int] == (step.0 as int, step.1@));
        out.push(UndoStep::Do(step));
        i = i + 1;
    }
    if has_stage {
        out.push(UndoStep::End);
    }
    out
}

} // verus!
