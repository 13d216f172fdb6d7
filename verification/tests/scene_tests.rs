use dreamusd::error::DuError;
use dreamusd::paths::{is_ancestor_of, parent_prim_path};
use dreamusd::scene::{
    accept_rendered_pick, collect_lights, collect_pick_candidates, find_prim_recursive,
    is_generic_group_name, light_kind, matches_pick_filter, nearest_xform_path,
    parent_xform_path, resolve_gizmo_target_path, resolve_transform_target_path, LightKind,
    LightRef, PickCandidate, PickFilter, Prim, Stage,
};

fn prim(handle: usize, path: &str, name: &str, ty: &str, children: Vec<Prim>) -> Prim {
    Prim {
        handle,
        path: Some(path.to_string()),
        name: Some(name.to_string()),
        prim_type: Some(ty.to_string()),
        children: Some(children),
    }
}

/// /
///   World (Xform)
///     Geom (Xform)
///       Body (Mesh)
///     Lamp (SphereLight)
///   Looks (Scope)
///     Steel (Material)
///   KeyLight (Xform)
fn sample_stage() -> Stage {
    let body = prim(4, "/World/Geom/Body", "Body", "Mesh", vec![]);
    let geom = prim(3, "/World/Geom", "Geom", "Xform", vec![body]);
    let lamp = prim(5, "/World/Lamp", "Lamp", "SphereLight", vec![]);
    let world = prim(2, "/World", "World", "Xform", vec![geom, lamp]);
    let steel = prim(7, "/Looks/Steel", "Steel", "Material", vec![]);
    let looks = prim(6, "/Looks", "Looks", "Scope", vec![steel]);
    let key = prim(8, "/KeyLight", "KeyLight", "Xform", vec![]);
    let root = prim(1, "/", "", "", vec![world, looks, key]);
    Stage { root: Ok(root), up_axis: "Y".to_string() }
}

#[test]
fn parent_paths_of_canonical_and_odd_paths() {
    assert_eq!(parent_prim_path(""), None);
    assert_eq!(parent_prim_path("/"), None);
    assert_eq!(parent_prim_path("/a"), Some("/".to_string()));
    assert_eq!(parent_prim_path("/a/b"), Some("/a".to_string()));
    assert_eq!(parent_prim_path("/a/b/"), Some("/a".to_string()));
    assert_eq!(parent_prim_path("/a/b//"), Some("/a".to_string()));
    assert_eq!(parent_prim_path("a"), None);
    assert_eq!(parent_prim_path("a/b"), Some("a".to_string()));
    assert_eq!(parent_prim_path("//"), None);
}

#[test]
fn ancestry_needs_a_slash_after_the_prefix() {
    assert!(is_ancestor_of("/a", "/a/b"));
    assert!(!is_ancestor_of("/a", "/ab"));
    assert!(!is_ancestor_of("/a", "/a"));
    assert!(is_ancestor_of("/a/b", "/a/b/c/d"));
}

#[test]
fn finds_prims_by_path_depth_first() {
    let stage = sample_stage();
    assert_eq!(find_prim_recursive(&stage, "/World/Geom/Body").map(|p| p.handle), Some(4));
    assert_eq!(find_prim_recursive(&stage, "/Looks/Steel").map(|p| p.handle), Some(7));
    assert_eq!(find_prim_recursive(&stage, "/").map(|p| p.handle), Some(1));
    assert!(find_prim_recursive(&stage, "/Nope").is_none());
    let broken = Stage { root: Err(DuError::Null), up_axis: "Y".to_string() };
    assert!(find_prim_recursive(&broken, "/").is_none());
}

#[test]
fn search_stops_below_an_unreadable_prim() {
    let mut stage = sample_stage();
    if let Ok(root) = &mut stage.root {
        if let Some(children) = &mut root.children {
            children[0].path = None;
        }
    }
    assert!(find_prim_recursive(&stage, "/World/Geom/Body").is_none());
    assert_eq!(find_prim_recursive(&stage, "/Looks/Steel").map(|p| p.handle), Some(7));
}

#[test]
fn nearest_xform_walks_up_the_path() {
    let stage = sample_stage();
    assert_eq!(nearest_xform_path(&stage, "/World/Geom/Body"), Some("/World/Geom".to_string()));
    assert_eq!(nearest_xform_path(&stage, "/World"), Some("/World".to_string()));
    assert_eq!(nearest_xform_path(&stage, "/Looks/Steel"), None);
    assert_eq!(parent_xform_path(&stage, "/World/Geom"), Some("/World".to_string()));
    assert_eq!(parent_xform_path(&stage, "/World"), None);
}

#[test]
fn generic_group_names() {
    for name in ["Geom", "Geometry", "geo", "geometry", "mesh", "meshes", "render", "Render"] {
        assert!(is_generic_group_name(name));
    }
    assert!(!is_generic_group_name("GEOM"));
    assert!(!is_generic_group_name("Body"));
}

#[test]
fn transform_target_skips_generic_groups() {
    let stage = sample_stage();
    // A mesh under a generic group hands its transform to the group's Xform parent.
    assert_eq!(
        resolve_transform_target_path(Some(&stage), "/World/Geom/Body"),
        Some("/World".to_string())
    );
    // Selecting the generic group itself does the same.
    assert_eq!(resolve_transform_target_path(Some(&stage), "/World/Geom"), Some("/World".to_string()));
    // A plain Xform is its own target.
    assert_eq!(resolve_transform_target_path(Some(&stage), "/World"), Some("/World".to_string()));
    // A light under an Xform moves with that Xform.
    assert_eq!(resolve_transform_target_path(Some(&stage), "/World/Lamp"), Some("/World".to_string()));
    // Nothing above the material is an Xform.
    assert_eq!(resolve_transform_target_path(Some(&stage), "/Looks/Steel"), None);
    assert_eq!(resolve_transform_target_path(None, "/World"), None);
    assert_eq!(resolve_gizmo_target_path(Some(&stage), "/Looks/Steel"), "/Looks/Steel");
    assert_eq!(resolve_gizmo_target_path(Some(&stage), "/World/Geom/Body"), "/World");
}

#[test]
fn generic_group_without_xform_parent_keeps_itself() {
    let body = prim(3, "/Geom/Body", "Body", "Mesh", vec![]);
    let geom = prim(2, "/Geom", "Geom", "Xform", vec![body]);
    let root = prim(1, "/", "", "", vec![geom]);
    let stage = Stage { root: Ok(root), up_axis: "Z".to_string() };
    assert_eq!(resolve_transform_target_path(Some(&stage), "/Geom"), Some("/Geom".to_string()));
    assert_eq!(resolve_transform_target_path(Some(&stage), "/Geom/Body"), Some("/Geom".to_string()));
}

#[test]
fn pick_filters() {
    let mesh = prim(1, "/m", "m", "Mesh", vec![]);
    let cam = prim(2, "/c", "c", "Camera", vec![]);
    let named_light = prim(3, "/x", "myLight", "Xform", vec![]);
    let dome = prim(4, "/d", "d", "DomeLight", vec![]);
    assert!(matches_pick_filter(&mesh, PickFilter::All));
    assert!(matches_pick_filter(&mesh, PickFilter::Geometry));
    assert!(!matches_pick_filter(&mesh, PickFilter::Lights));
    assert!(matches_pick_filter(&cam, PickFilter::Cameras));
    assert!(!matches_pick_filter(&cam, PickFilter::Geometry));
    assert!(matches_pick_filter(&named_light, PickFilter::Lights));
    assert!(matches_pick_filter(&dome, PickFilter::Lights));
}

#[test]
fn rendered_pick_acceptance() {
    let stage = sample_stage();
    assert!(accept_rendered_pick(Some(&stage), "/World/Geom/Body", PickFilter::Geometry));
    assert!(!accept_rendered_pick(Some(&stage), "/World/Geom/Body", PickFilter::Lights));
    assert!(!accept_rendered_pick(Some(&stage), "/", PickFilter::All));
    assert!(!accept_rendered_pick(Some(&stage), "", PickFilter::All));
    assert!(!accept_rendered_pick(Some(&stage), "/Gone", PickFilter::All));
    assert!(!accept_rendered_pick(None, "/World", PickFilter::All));
}

#[test]
fn light_kinds_by_type_then_name() {
    assert_eq!(light_kind("DistantLight", ""), Some(LightKind::Directional));
    assert_eq!(light_kind("DomeLight_1", ""), Some(LightKind::Dome));
    assert_eq!(light_kind("PortalLight", ""), Some(LightKind::Point));
    assert_eq!(light_kind("CylinderLight", ""), Some(LightKind::Area));
    assert_eq!(light_kind("Xform", "FillLight"), Some(LightKind::Directional));
    assert_eq!(light_kind("Xform", "AmbientLight"), Some(LightKind::Dome));
    assert_eq!(light_kind("Mesh", "Body"), None);
}

#[test]
fn lights_are_collected_in_preorder() {
    let stage = sample_stage();
    let root = stage.root.as_ref().unwrap();
    let mut out: Vec<LightRef> = Vec::new();
    collect_lights(root, &mut out);
    let seen: Vec<(usize, String, LightKind)> =
        out.into_iter().map(|l| (l.handle, l.path, l.kind)).collect();
    assert_eq!(
        seen,
        vec![
            (5, "/World/Lamp".to_string(), LightKind::Point),
            (8, "/KeyLight".to_string(), LightKind::Directional),
        ]
    );
}

#[test]
fn pick_candidates_skip_the_root_and_filtered_prims() {
    let stage = sample_stage();
    let root = stage.root.as_ref().unwrap();
    let mut out: Vec<PickCandidate> = Vec::new();
    collect_pick_candidates(root, PickFilter::Geometry, &mut out);
    let paths: Vec<String> = out.iter().map(|c| c.path.clone()).collect();
    assert_eq!(paths, vec!["/World/Geom/Body".to_string()]);
    let mut all: Vec<PickCandidate> = Vec::new();
    collect_pick_candidates(root, PickFilter::All, &mut all);
    assert_eq!(all.len(), 7);
    assert_eq!(all[0].path, "/World");
}
