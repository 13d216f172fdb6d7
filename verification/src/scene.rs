//! The prim hierarchy of an opened stage, as read from the USD bridge, and the searches over it.
use vstd::prelude::*;
use crate::error::DuError;
use crate::paths::{lemma_parent_shorter, parent_path, parent_prim_path};
use crate::text::{contains_str, has_substring, str_eq};

verus! {

/// One prim of a stage as the bridge reported it.
///
/// A field is `None` where the bridge failed to report it. `handle` is the key by which the
/// caller finds the live prim again.
pub struct Prim {
    pub handle: usize,
    pub path: Option<String>,
    pub name: Option<String>,
    pub prim_type: Option<String>,
    pub children: Option<Vec<Prim>>,
}

/// An opened stage: its root prim (or why it could not be read) and its up axis.
pub struct Stage {
    pub root: Result<Prim, DuError>,
    pub up_axis: String,
}

/// The prim's path is known and equals `t`.
pub open spec fn has_path(p: Prim, t: Seq<char>) -> bool {
    p.path matches Some(path) && path@ == t
}

/// The first prim, in depth-first pre-order, whose path equals `t`. A prim whose path or
/// children cannot be read ends the search below it.
pub open spec fn find_in(p: Prim, t: Seq<char>) -> Option<Prim>
    decreases p,
{
    match p.path {
        None => None,
        Some(path) => if path@ == t {
            Some(p)
        } else {
            match p.children {
                None => None,
                Some(children) => find_first(children@, t),
            }
        },
    }
}

/// The first result of `find_in` over `s`, in order.
pub open spec fn find_first(s: Seq<Prim>, t: Seq<char>) -> Option<Prim>
    decreases s,
{
    if s.len() == 0 {
        None
    } else {
        match find_in(s[0], t) {
            Some(x) => Some(x),
            None => find_first(s.drop_first(), t),
        }
    }
}

/// What a search of the whole stage for the path `t` finds.
pub open spec fn find_in_stage(stage: Stage, t: Seq<char>) -> Option<Prim> {
    match stage.root {
        Ok(root) => find_in(root, t),
        Err(_) => None,
    }
}

pub proof fn lemma_found_has_path(p: Prim, t: Seq<char>)
    ensures
        find_in(p, t) matches Some(x) ==> has_path(x, t),
    decreases p, 1nat,
{
    if let Some(path) = p.path {
        if path@ != t {
            if let Some(children) = p.children {
                lemma_first_found_has_path(children@, t);
            }
        }
    }
}

pub proof fn lemma_first_found_has_path(s: Seq<Prim>, t: Seq<char>)
    ensures
        find_first(s, t) matches Some(x) ==> has_path(x, t),
    decreases s, 0nat,
{
    if s.len() > 0 {
        lemma_found_has_path(s[0], t);
        lemma_first_found_has_path(s.drop_first(), t);
    }
}

fn opt_str_eq(a: &Option<String>, b: &str) -> (r: bool)
    ensures
        r == (a matches Some(x) && x@ == b@),
{
    match a {
        Some(x) => str_eq(x.as_str(), b),
        None => false,
    }
}

/// The first prim below `prim`, `prim` included, whose path is `target_path`.
pub fn find_in_subtree<'a>(prim: &'a Prim, target_path: &str) -> (r: Option<&'a Prim>)
    ensures
        r.is_some() == find_in(*prim, target_path@).is_some(),
        r.is_some() ==> *r.unwrap() == find_in(*prim, target_path@).unwrap(),
    decreases prim,
{
    if prim.path.is_none() {
        return None;
    }
    if opt_str_eq(&prim.path, target_path) {
        return Some(prim);
    }
    match &prim.children {
        None => None,
        Some(children) => {
            let n = children.len();
            let mut i: usize = 0;
            assert(children@.subrange(0, n as int) =~= children@);
            while i < n
                invariant
                    n == children@.len(),
                    i <= n,
                    prim.children == Some(*children),
                    find_in(*prim, target_path@) == find_first(children@, target_path@),
                    find_first(children@, target_path@) == find_first(
                        children@.subrange(i as int, n as int),
                        target_path@,
                    ),
                decreases n - i,
            {
                let ghost rest = children@.subrange(i as int, n as int);
                assert(rest[0] == children@[i as int]);
                assert(rest.drop_first() =~= children@.subrange(i + 1, n as int));
                proof {
                    assert(decreases_to!(*prim => prim.children));
                }
                let found = find_in_subtree(&children[i], target_path);
                if found.is_some() {
                    return found;
                }
                i = i + 1;
            }
            None
        },
    }
}

/// The prim of `stage` whose path is `target_path`, found by a depth-first search from the root.
pub fn find_prim_recursive<'a>(stage: &'a Stage, target_path: &str) -> (r: Option<&'a Prim>)
    ensures
        r.is_some() == find_in_stage(*stage, target_path@).is_some(),
        r.is_some() ==> *r.unwrap() == find_in_stage(*stage, target_path@).unwrap(),
{
    match &stage.root {
        Ok(root) => find_in_subtree(root, target_path),
        Err(_) => None,
    }
}

/// The prim's type is known and is `Xform`.
pub open spec fn is_xform(p: Prim) -> bool {
    p.prim_type matches Some(t) && t@ == "Xform"@
}

/// The prim's name, or the empty string where it could not be read.
pub open spec fn name_or_empty(p: Prim) -> Seq<char> {
    match p.name {
        Some(n) => n@,
        None => Seq::empty(),
    }
}

/// The prim's type name, or the empty string where it could not be read.
pub open spec fn type_or_empty(p: Prim) -> Seq<char> {
    match p.prim_type {
        Some(t) => t@,
        None => Seq::empty(),
    }
}

/// The path itself, if it names an `Xform`, else the nearest of its ancestors (by
/// `parent_path`) that does; `None` where the walk reaches a path that names no prim.
pub open spec fn nearest_xform(stage: Stage, p: Seq<char>) -> Option<Seq<char>>
    decreases p.len(),
{
    match find_in_stage(stage, p) {
        None => None,
        Some(prim) => if is_xform(prim) {
            Some(p)
        } else {
            match parent_path(p) {
                None => None,
                Some(q) => {
                    proof {
                        lemma_parent_shorter(p);
                    }
                    nearest_xform(stage, q)
                },
            }
        },
    }
}

/// The nearest `Xform` strictly above the path.
pub open spec fn parent_xform(stage: Stage, p: Seq<char>) -> Option<Seq<char>> {
    match parent_path(p) {
        None => None,
        Some(q) => nearest_xform(stage, q),
    }
}

/// Names under which a scene groups the geometry of its parent.
pub open spec fn is_generic_group(name: Seq<char>) -> bool {
    ||| name == "Geom"@
    ||| name == "Geometry"@
    ||| name == "geo"@
    ||| name == "geometry"@
    ||| name == "mesh"@
    ||| name == "meshes"@
    ||| name == "render"@
    ||| name == "Render"@
}

fn is_xform_prim(p: &Prim) -> (r: bool)
    ensures
        r == is_xform(*p),
{
    match &p.prim_type {
        Some(t) => str_eq(t.as_str(), "Xform"),
        None => false,
    }
}

fn name_str(p: &Prim) -> (r: &str)
    ensures
        r@ == name_or_empty(*p),
{
    match &p.name {
        Some(n) => n.as_str(),
        None => {
            proof {
                reveal_strlit("");
            }
            ""
        },
    }
}

fn type_str(p: &Prim) -> (r: &str)
    ensures
        r@ == type_or_empty(*p),
{
    match &p.prim_type {
        Some(t) => t.as_str(),
        None => {
            proof {
                reveal_strlit("");
            }
            ""
        },
    }
}

/// The path itself or its nearest ancestor that names an `Xform` prim of `stage`.
pub fn nearest_xform_path(stage: &Stage, path: &str) -> (r: Option<String>)
    ensures
        r matches Some(x) ==> nearest_xform(*stage, path@) == Some(x@),
        r is None ==> nearest_xform(*stage, path@) is None,
{
    let mut current = String::from_str(path);
    loop
        invariant
            nearest_xform(*stage, current@) == nearest_xform(*stage, path@),
        decreases current@.len(),
    {
        let prim = match find_prim_recursive(stage, current.as_str()) {
            Some(p) => p,
            None => {
                return None;
            },
        };
        if is_xform_prim(prim) {
            return Some(current);
        }
        proof {
            lemma_parent_shorter(current@);
        }
        match parent_prim_path(current.as_str()) {
            Some(parent) => {
                current = parent;
            },
            None => {
                return None;
            },
        }
    }
}

/// The nearest ancestor of `path` that names an `Xform` prim of `stage`.
pub fn parent_xform_path(stage: &Stage, path: &str) -> (r: Option<String>)
    ensures
        r matches Some(x) ==> parent_xform(*stage, path@) == Some(x@),
        r is None ==> parent_xform(*stage, path@) is None,
{
    match parent_prim_path(path) {
        None => None,
        Some(parent) => nearest_xform_path(stage, parent.as_str()),
    }
}

/// The name is one under which scenes group geometry (`Geom`, `geo`, `render`, ...).
pub fn is_generic_group_name(name: &str) -> (r: bool)
    ensures
        r == is_generic_group(name@),
{
    str_eq(name, "Geom") || str_eq(name, "Geometry") || str_eq(name, "geo") || str_eq(
        name,
        "geometry",
    ) || str_eq(name, "mesh") || str_eq(name, "meshes") || str_eq(name, "render") || str_eq(
        name,
        "Render",
    )
}

/// The prim that transform edits of the selected prim apply to: an `Xform` selection is its
/// own target unless it is a generic geometry group, whose nearest `Xform` ancestor takes
/// its place; any other selection is handed to its nearest `Xform` (or that one's `Xform`
/// ancestor, where it is a generic group).
pub open spec fn transform_target(stage: Stage, sel: Seq<char>) -> Option<Seq<char>> {
    match find_in_stage(stage, sel) {
        None => None,
        Some(prim) => if is_xform(prim) {
            if is_generic_group(name_or_empty(prim)) {
                match parent_xform(stage, sel) {
                    Some(x) => Some(x),
                    None => Some(sel),
                }
            } else {
                Some(sel)
            }
        } else {
            match nearest_xform(stage, sel) {
                None => None,
                Some(nearest) => match find_in_stage(stage, nearest) {
                    None => None,
                    Some(nprim) => if is_generic_group(name_or_empty(nprim)) {
                        match parent_xform(stage, nearest) {
                            Some(x) => Some(x),
                            None => Some(nearest),
                        }
                    } else {
                        Some(nearest)
                    },
                },
            }
        },
    }
}

/// The path whose transform the gizmo and the transform editor act on, for the selected path;
/// `None` where no stage is open or the walk finds no such prim.
pub fn resolve_transform_target_path(stage: Option<&Stage>, selected_path: &str) -> (r: Option<
    String,
>)
    ensures
        r matches Some(x) ==> stage matches Some(s) && transform_target(*s, selected_path@) == Some(
            x@,
        ),
        r is None ==> stage is None || transform_target(*stage.unwrap(), selected_path@) is None,
{
    let stage = match stage {
        Some(s) => s,
        None => {
            return None;
        },
    };
    let prim = match find_prim_recursive(stage, selected_path) {
        Some(p) => p,
        None => {
            return None;
        },
    };
    if is_xform_prim(prim) {
        if is_generic_group_name(name_str(prim)) {
            return match parent_xform_path(stage, selected_path) {
                Some(x) => Some(x),
                None => Some(String::from_str(selected_path)),
            };
        }
        return Some(String::from_str(selected_path));
    }
    let nearest = match nearest_xform_path(stage, selected_path) {
        Some(x) => x,
        None => {
            return None;
        },
    };
    let nearest_prim = match find_prim_recursive(stage, nearest.as_str()) {
        Some(p) => p,
        None => {
            return None;
        },
    };
    if is_generic_group_name(name_str(nearest_prim)) {
        return match parent_xform_path(stage, nearest.as_str()) {
            Some(x) => Some(x),
            None => Some(nearest),
        };
    }
    Some(nearest)
}

/// The path the gizmo is drawn for: the transform target where there is one, else the
/// selected path itself.
pub fn resolve_gizmo_target_path(stage: Option<&Stage>, selected_path: &str) -> (r: String)
    ensures
        stage is Some && transform_target(*stage.unwrap(), selected_path@) is Some ==> r@
            == transform_target(*stage.unwrap(), selected_path@).unwrap(),
        (stage is None || transform_target(*stage.unwrap(), selected_path@) is None) ==> r@
            == selected_path@,
{
    match resolve_transform_target_path(stage, selected_path) {
        Some(x) => x,
        None => String::from_str(selected_path),
    }
}

/// Which prims a click in the viewport may pick.
#[derive(Debug, Clone, Copy, PartialEq, Eq, Structural)]
pub enum PickFilter {
    All,
    Geometry,
    Lights,
    Cameras,
}

/// Type names of geometric prims.
pub open spec fn is_geometry_type(t: Seq<char>) -> bool {
    ||| t == "Mesh"@
    ||| t == "Points"@
    ||| t == "BasisCurves"@
    ||| t == "Curves"@
    ||| t == "GeomSubset"@
}

/// Type names of the light prims a pick by light accepts.
pub open spec fn is_pick_light_type(t: Seq<char>) -> bool {
    ||| t == "DistantLight"@
    ||| t == "DomeLight"@
    ||| t == "SphereLight"@
    ||| t == "RectLight"@
    ||| t == "DiskLight"@
    ||| t == "CylinderLight"@
}

/// A prim passes the filter: every prim for `All`; by type name for geometry and cameras;
/// for lights, by type name or by a name that holds `Light` or `light`. Unreadable names and
/// types count as empty.
pub open spec fn passes_pick_filter(prim: Prim, filter: PickFilter) -> bool {
    let t = type_or_empty(prim);
    let n = name_or_empty(prim);
    match filter {
        PickFilter::All => true,
        PickFilter::Geometry => is_geometry_type(t),
        PickFilter::Lights => is_pick_light_type(t) || has_substring(n, "Light"@) || has_substring(
            n,
            "light"@,
        ),
        PickFilter::Cameras => t == "Camera"@,
    }
}

/// Whether a prim may be picked under `filter` (see `passes_pick_filter`).
pub fn matches_pick_filter(prim: &Prim, filter: PickFilter) -> (r: bool)
    ensures
        r == passes_pick_filter(*prim, filter),
{
    if filter == PickFilter::All {
        return true;
    }
    let t = type_str(prim);
    let n = name_str(prim);
    match filter {
        PickFilter::All => true,
        PickFilter::Geometry => str_eq(t, "Mesh") || str_eq(t, "Points") || str_eq(t, "BasisCurves")
            || str_eq(t, "Curves") || str_eq(t, "GeomSubset"),
        PickFilter::Lights => str_eq(t, "DistantLight") || str_eq(t, "DomeLight") || str_eq(
            t,
            "SphereLight",
        ) || str_eq(t, "RectLight") || str_eq(t, "DiskLight") || str_eq(t, "CylinderLight")
            || contains_str(n, "Light") || contains_str(n, "light"),
        PickFilter::Cameras => str_eq(t, "Camera"),
    }
}

/// A path the renderer's pick reported is taken as the picked prim: it is neither empty nor
/// `/`, it names a prim of the stage, and that prim passes the pick filter.
pub open spec fn accepts_pick(stage: Option<Stage>, picked: Seq<char>, filter: PickFilter) -> bool {
    &&& picked.len() != 0
    &&& picked != "/"@
    &&& stage matches Some(s)
    &&& find_in_stage(s, picked) matches Some(prim)
    &&& passes_pick_filter(prim, filter)
}

/// Whether the path that the renderer's pick reported selects a prim (see `accepts_pick`).
pub fn accept_rendered_pick(stage: Option<&Stage>, picked: &str, filter: PickFilter) -> (r: bool)
    ensures
        r == accepts_pick(
            match stage {
                Some(s) => Some(*s),
                None => None,
            },
            picked@,
            filter,
        ),
{
    if picked.unicode_len() == 0 || str_eq(picked, "/") {
        return false;
    }
    match stage {
        None => false,
        Some(s) => match find_prim_recursive(s, picked) {
            None => false,
            Some(prim) => matches_pick_filter(prim, filter),
        },
    }
}

/// How the viewport draws a light.
#[derive(Debug, Clone, Copy, PartialEq, Eq, Structural)]
pub enum LightKind {
    Directional,
    Point,
    Dome,
    Area,
}

/// The light kind of a prim by its type name, or by the name of one of the viewer's default
/// lights where the type names none.
pub open spec fn spec_light_kind(t: Seq<char>, n: Seq<char>) -> Option<LightKind> {
    if t == "DistantLight"@ {
        Some(LightKind::Directional)
    } else if t == "DomeLight"@ || t == "DomeLight_1"@ {
        Some(LightKind::Dome)
    } else if t == "SphereLight"@ || t == "PortalLight"@ {
        Some(LightKind::Point)
    } else if t == "RectLight"@ || t == "DiskLight"@ || t == "CylinderLight"@ {
        Some(LightKind::Area)
    } else if n == "KeyLight"@ || n == "FillLight"@ {
        Some(LightKind::Directional)
    } else if n == "AmbientLight"@ {
        Some(LightKind::Dome)
    } else {
        None
    }
}

/// The light kind for a prim's type name and name (see `spec_light_kind`).
pub fn light_kind(prim_type: &str, name: &str) -> (r: Option<LightKind>)
    ensures
        r == spec_light_kind(prim_type@, name@),
{
    if str_eq(prim_type, "DistantLight") {
        Some(LightKind::Directional)
    } else if str_eq(prim_type, "DomeLight") || str_eq(prim_type, "DomeLight_1") {
        Some(LightKind::Dome)
    } else if str_eq(prim_type, "SphereLight") || str_eq(prim_type, "PortalLight") {
        Some(LightKind::Point)
    } else if str_eq(prim_type, "RectLight") || str_eq(prim_type, "DiskLight") || str_eq(
        prim_type,
        "CylinderLight",
    ) {
        Some(LightKind::Area)
    } else if str_eq(name, "KeyLight") || str_eq(name, "FillLight") {
        Some(LightKind::Directional)
    } else if str_eq(name, "AmbientLight") {
        Some(LightKind::Dome)
    } else {
        None
    }
}

/// A light found in the hierarchy: the prim's handle, its path (empty where unreadable) and
/// how to draw it.
pub struct LightRef {
    pub handle: usize,
    pub path: String,
    pub kind: LightKind,
}

/// The prim's path, or the empty string where it could not be read.
pub open spec fn path_or_empty(p: Prim) -> Seq<char> {
    match p.path {
        Some(x) => x@,
        None => Seq::empty(),
    }
}

/// What a light reference stands for.
pub open spec fn light_ref_view(l: LightRef) -> (usize, Seq<char>, LightKind) {
    (l.handle, l.path@, l.kind)
}

/// What `own` yields for each prim below `p`, `p` included, in depth-first pre-order; a prim
/// whose children cannot be read contributes only its own part.
pub open spec fn preorder<T>(p: Prim, own: spec_fn(Prim) -> Seq<T>) -> Seq<T>
    decreases p,
{
    match p.children {
        None => own(p),
        Some(children) => own(p) + preorder_all(children@, own),
    }
}

/// `preorder` over each prim of `s`, in order.
pub open spec fn preorder_all<T>(s: Seq<Prim>, own: spec_fn(Prim) -> Seq<T>) -> Seq<T>
    decreases s,
{
    if s.len() == 0 {
        Seq::empty()
    } else {
        preorder(s[0], own) + preorder_all(s.drop_first(), own)
    }
}

pub proof fn lemma_preorder_all_snoc<T>(s: Seq<Prim>, i: int, own: spec_fn(Prim) -> Seq<T>)
    requires
        0 <= i < s.len(),
    ensures
        preorder_all(s.subrange(0, i + 1), own) == preorder_all(s.subrange(0, i), own) + preorder(
            s[i],
            own,
        ),
    decreases i,
{
    let a = s.subrange(0, i + 1);
    if i == 0 {
        assert(a.drop_first() =~= Seq::<Prim>::empty());
        assert(preorder_all(a, own) =~= preorder(s[0], own) + preorder_all(a.drop_first(), own));
        assert(preorder_all(s.subrange(0, 0), own) =~= Seq::empty());
        assert(preorder(s[0], own) + Seq::<T>::empty() =~= preorder(s[0], own));
    } else {
        let t = s.drop_first();
        lemma_preorder_all_snoc(t, i - 1, own);
        assert(a.drop_first() =~= t.subrange(0, i));
        assert(s.subrange(0, i).drop_first() =~= t.subrange(0, i - 1));
        assert(a[0] == s[0]);
        assert(s.subrange(0, i)[0] == s[0]);
        assert(t[i - 1] == s[i]);
        assert(preorder_all(a, own) == preorder(s[0], own) + preorder_all(t.subrange(0, i), own));
        assert(preorder_all(s.subrange(0, i), own) == preorder(s[0], own) + preorder_all(
            t.subrange(0, i - 1),
            own,
        ));
        assert(preorder(s[0], own) + (preorder_all(t.subrange(0, i - 1), own) + preorder(s[i], own))
            =~= (preorder(s[0], own) + preorder_all(t.subrange(0, i - 1), own)) + preorder(
            s[i],
            own,
        ));
    }
}

/// The light a prim itself contributes, if it is one.
pub open spec fn own_light(p: Prim) -> Seq<(usize, Seq<char>, LightKind)> {
    match spec_light_kind(type_or_empty(p), name_or_empty(p)) {
        Some(kind) => seq![(p.handle, path_or_empty(p), kind)],
        None => Seq::empty(),
    }
}

/// The lights below `p`, `p` included, in depth-first pre-order.
pub open spec fn lights_in(p: Prim) -> Seq<(usize, Seq<char>, LightKind)> {
    preorder(p, |q: Prim| own_light(q))
}

pub open spec fn light_views(v: Seq<LightRef>) -> Seq<(usize, Seq<char>, LightKind)> {
    v.map_values(|l: LightRef| light_ref_view(l))
}

proof fn lemma_light_views_push(v: Seq<LightRef>, l: LightRef)
    ensures
        light_views(v.push(l)) == light_views(v).push(light_ref_view(l)),
{
    assert(light_views(v.push(l)) =~= light_views(v).push(light_ref_view(l)));
}

fn path_string(p: &Prim) -> (r: String)
    ensures
        r@ == path_or_empty(*p),
{
    match &p.path {
        Some(x) => x.clone(),
        None => String::new(),
    }
}

/// Appends the lights below `prim`, `prim` included, in depth-first pre-order.
pub fn collect_lights(prim: &Prim, out: &mut Vec<LightRef>)
    ensures
        light_views(final(out)@) == light_views(old(out)@) + lights_in(*prim),
    decreases prim,
{
    let ghost start = light_views(out@);
    match light_kind(type_str(prim), name_str(prim)) {
        Some(kind) => {
            let l = LightRef { handle: prim.handle, path: path_string(prim), kind };
            proof {
                lemma_light_views_push(out@, l);
            }
            out.push(l);
        },
        None => {},
    }
    let ghost f = |q: Prim| own_light(q);
    let ghost own = own_light(*prim);
    assert(light_views(out@) =~= start + own);
    match &prim.children {
        None => {
            assert(start + own =~= start + lights_in(*prim));
        },
        Some(children) => {
            let n = children.len();
            let mut i: usize = 0;
            assert(children@.subrange(0, 0) =~= Seq::<Prim>::empty());
            while i < n
                invariant
                    n == children@.len(),
                    i <= n,
                    prim.children == Some(*children),
                    f == (|q: Prim| own_light(q)),
                    own == own_light(*prim),
                    light_views(out@) == start + own + preorder_all(children@.subrange(0, i as int), f),
                decreases n - i,
            {
                let ghost before = light_views(out@);
                let child = &children[i];
                proof {
                    assert(decreases_to!(*prim => prim.children));
                    assert(decreases_to!(prim.children => prim.children->0));
                    assert(decreases_to!(*children => children@));
                    assert(decreases_to!(children@ => children@[i as int]));
                    assert(decreases_to!(*prim => *child));
                }
                collect_lights(child, out);
                proof {
                    lemma_preorder_all_snoc(children@, i as int, f);
                    assert(before + lights_in(children@[i as int]) =~= start + own + preorder_all(
                        children@.subrange(0, i + 1),
                        f,
                    ));
                }
                i = i + 1;
            }
            assert(children@.subrange(0, n as int) =~= children@);
            assert(light_views(out@) =~= start + lights_in(*prim));
        },
    }
}

/// A prim a click may pick, before its screen position is known.
pub struct PickCandidate {
    pub handle: usize,
    pub path: String,
}

/// What a prim itself contributes to the pick candidates: itself, where it passes the filter
/// and its path is readable and not `/`.
pub open spec fn own_candidate(p: Prim, filter: PickFilter) -> Seq<(usize, Seq<char>)> {
    if passes_pick_filter(p, filter) && p.path is Some && p.path.unwrap()@ != "/"@ {
        seq![(p.handle, p.path.unwrap()@)]
    } else {
        Seq::empty()
    }
}

/// The prims below `p`, `p` included, that a click may pick, in depth-first pre-order.
pub open spec fn pick_candidates_in(p: Prim, filter: PickFilter) -> Seq<(usize, Seq<char>)> {
    preorder(p, |q: Prim| own_candidate(q, filter))
}

pub open spec fn candidate_views(v: Seq<PickCandidate>) -> Seq<(usize, Seq<char>)> {
    v.map_values(|c: PickCandidate| (c.handle, c.path@))
}

/// Appends the prims below `prim`, `prim` included, that a click may pick under `filter`,
/// in depth-first pre-order. The caller keeps the one nearest the pointer.
pub fn collect_pick_candidates(prim: &Prim, filter: PickFilter, out: &mut Vec<PickCandidate>)
    ensures
        candidate_views(final(out)@) == candidate_views(old(out)@) + pick_candidates_in(*prim, filter),
    decreases prim,
{
    let ghost start = candidate_views(out@);
    let ghost f = |q: Prim| own_candidate(q, filter);
    if matches_pick_filter(prim, filter) {
        match &prim.path {
            Some(path) => {
                if !str_eq(path.as_str(), "/") {
                    let c = PickCandidate { handle: prim.handle, path: path.clone() };
                    proof {
                        assert(candidate_views(out@.push(c)) =~= candidate_views(out@).push(
                            (c.handle, c.path@),
                        ));
                    }
                    out.push(c);
                }
            },
            None => {},
        }
    }
    let ghost own = own_candidate(*prim, filter);
    assert(candidate_views(out@) =~= start + own);
    match &prim.children {
        None => {
            assert(candidate_views(out@) =~= start + pick_candidates_in(*prim, filter));
        },
        Some(children) => {
            let n = children.len();
            let mut i: usize = 0;
            assert(children@.subrange(0, 0) =~= Seq::<Prim>::empty());
            while i < n
                invariant
                    n == children@.len(),
                    i <= n,
                    prim.children == Some(*children),
                    f == (|q: Prim| own_candidate(q, filter)),
                    own == own_candidate(*prim, filter),
                    candidate_views(out@) == start + own + preorder_all(
                        children@.subrange(0, i as int),
                        f,
                    ),
                decreases n - i,
            {
                let ghost before = candidate_views(out@);
                let child = &children[i];
                proof {
                    assert(decreases_to!(*prim => prim.children));
                    assert(decreases_to!(prim.children => prim.children->0));
                    assert(decreases_to!(*children => children@));
                    assert(decreases_to!(children@ => children@[i as int]));
                    assert(decreases_to!(*prim => *child));
                }
                collect_pick_candidates(child, filter, out);
                proof {
                    lemma_preorder_all_snoc(children@, i as int, f);
                    assert(before + pick_candidates_in(children@[i as int], filter) =~= start + own
                        + preorder_all(children@.subrange(0, i + 1), f));
                }
                i = i + 1;
            }
            assert(children@.subrange(0, n as int) =~= children@);
            assert(candidate_views(out@) =~= start + pick_candidates_in(*prim, filter));
        },
    }
}

/// The handles of the prims below `p`, `p` included, in depth-first pre-order.
pub open spec fn handles_in(p: Prim) -> Seq<usize> {
    preorder(p, |q: Prim| seq![q.handle])
}

/// Appends the handles of the prims below `prim`, `prim` included, in depth-first pre-order:
/// the prims whose positions framing the whole scene takes into account.
pub fn collect_handles(prim: &Prim, out: &mut Vec<usize>)
    ensures
        final(out)@ == old(out)@ + handles_in(*prim),
    decreases prim,
{
    let ghost start = out@;
    let ghost f = |q: Prim| seq![q.handle];
    out.push(prim.handle);
    let ghost own = seq![prim.handle];
    assert(out@ =~= start + own);
    match &prim.children {
        None => {
            assert(out@ =~= start + handles_in(*prim));
        },
        Some(children) => {
            let n = children.len();
            let mut i: usize = 0;
            assert(children@.subrange(0, 0) =~= Seq::<Prim>::empty());
            while i < n
                invariant
                    n == children@.len(),
                    i <= n,
                    prim.children == Some(*children),
                    f == (|q: Prim| seq![q.handle]),
                    own == seq![prim.handle],
                    out@ == start + own + preorder_all(children@.subrange(0, i as int), f),
                decreases n - i,
            {
                let ghost before = out@;
                let child = &children[i];
                proof {
                    assert(decreases_to!(*prim => prim.children));
                    assert(decreases_to!(prim.children => prim.children->0));
                    assert(decreases_to!(*children => children@));
                    assert(decreases_to!(children@ => children@[i as int]));
                    assert(decreases_to!(*prim => *child));
                }
                collect_handles(child, out);
                proof {
                    lemma_preorder_all_snoc(children@, i as int, f);
                    assert(before + handles_in(children@[i as int]) =~= start + own + preorder_all(
                        children@.subrange(0, i + 1),
                        f,
                    ));
                }
                i = i + 1;
            }
            assert(children@.subrange(0, n as int) =~= children@);
            assert(out@ =~= start + handles_in(*prim));
        },
    }
}

/// The status line of framing the whole scene: a failure where the root prim could not be
/// read or no prim has a position, else success.
pub fn frame_all_status(root_readable: bool, positioned: usize) -> (r: String)
    ensures
        !root_readable ==> r@ == "Frame all failed: root prim unavailable"@,
        root_readable && positioned == 0 ==> r@ == "Frame all failed: scene has no frameable prims"@,
        root_readable && positioned > 0 ==> r@ == "Framed scene"@,
{
    if !root_readable {
        String::from_str("Frame all failed: root prim unavailable")
    } else if positioned == 0 {
        String::from_str("Frame all failed: scene has no frameable prims")
    } else {
        String::from_str("Framed scene")
    }
}

} // verus!
