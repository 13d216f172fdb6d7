use dreamusd::edits::StageEdit;
use dreamusd::error::DuError;
use dreamusd::hierarchy::{prim_icon, HierarchyPanel, HierarchyView, IconColor, RowStyle};
use dreamusd::properties::{
    collect_attr_values, header_lines, inferred_attr_kind, inspector_light_section,
    is_light_type, is_quick_attribute, material_binding_line, material_param_label,
    move_outcome, moved_prim_path, multi_enum_status, multi_enum_summary, multi_enum_writes,
    multi_selection_header, no_attributes_label, number_runs_of, parse_bool,
    quick_page_shows_light, read_first_attr, read_first_bool_attr, reparent_default_parent,
    reparent_with_undo, select_material, select_variant_with_undo,
    set_material_param_with_undo, vec3_components, AttrKind, LightSection, MaterialParam,
    PinButton, PropertiesPanel, PropertiesTab,
};
use dreamusd::scene::{Prim, Stage};

fn prim(handle: usize, path: &str, name: &str, ty: &str, children: Vec<Prim>) -> Prim {
    Prim {
        handle,
        path: Some(path.to_string()),
        name: Some(name.to_string()),
        prim_type: Some(ty.to_string()),
        children: Some(children),
    }
}

fn sample_stage() -> Stage {
    let body = prim(4, "/World/Geom/Body", "Body", "Mesh", vec![]);
    let geom = prim(3, "/World/Geom", "Geom", "Xform", vec![body]);
    let lamp = prim(5, "/World/Lamp", "Lamp", "SphereLight", vec![]);
    let world = prim(2, "/World", "World", "Xform", vec![geom, lamp]);
    let root = prim(1, "/", "", "", vec![world]);
    Stage { root: Ok(root), up_axis: "Y".to_string() }
}

#[test]
fn new_panels_start_empty() {
    let h = HierarchyPanel::new();
    assert!(h.selected_path.is_none());
    assert!(h.filter_text.is_empty());
    let p = PropertiesPanel::new();
    assert_eq!(p.active_tab, PropertiesTab::Quick);
    assert!(p.pinned_path.is_none());
    assert_eq!(PropertiesTab::Inspector.label(), "Inspector");
}

#[test]
fn selection_is_held_by_its_ancestors() {
    let mut h = HierarchyPanel::new();
    assert!(!h.path_contains_selection("/"));
    h.selected_path = Some("/World/Geom/Body".to_string());
    assert!(h.path_contains_selection("/"));
    assert!(h.path_contains_selection(""));
    assert!(h.path_contains_selection("/World"));
    assert!(h.path_contains_selection("/World/Geom"));
    assert!(h.path_contains_selection("/World/Geom/Body"));
    assert!(!h.path_contains_selection("/World/Ge"));
    assert!(!h.path_contains_selection("/World/Lamp"));
}

#[test]
fn icons_follow_name_then_type() {
    assert_eq!(prim_icon("Xform", "KeyLight"), ("*", IconColor::Light));
    assert_eq!(prim_icon("Mesh", "Body"), ("M", IconColor::Mesh));
    assert_eq!(prim_icon("Shader", "s"), ("m", IconColor::Material));
    assert_eq!(prim_icon("SkelRoot", "s"), ("K", IconColor::Default));
    assert_eq!(prim_icon("Xform", "World"), ("X", IconColor::Xform));
    assert_eq!(prim_icon("Foo", "deskLight"), ("L", IconColor::Light));
    assert_eq!(prim_icon("", "thing"), (".", IconColor::Default));
    assert_eq!(prim_icon("Foo", "thing"), ("?", IconColor::Default));
}

#[test]
fn tree_rows_open_the_root_and_keep_the_rest_closed() {
    let stage = sample_stage();
    let root = stage.root.as_ref().unwrap();
    let mut h = HierarchyPanel::new();
    let rows = h.tree_rows(root);
    let paths: Vec<&str> = rows.iter().map(|r| r.path.as_str()).collect();
    assert_eq!(paths, vec!["/", "/World"]);
    assert_eq!(rows[1].depth, 1);
    assert!(rows[1].has_children && !rows[1].is_open);
    h.set_row_open("/World", true);
    let rows = h.tree_rows(root);
    let paths: Vec<&str> = rows.iter().map(|r| r.path.as_str()).collect();
    assert_eq!(paths, vec!["/", "/World", "/World/Geom", "/World/Lamp"]);
    assert_eq!(rows[3].style, RowStyle::Odd);
    assert_eq!(rows[2].style, RowStyle::Even);
    assert!(h.is_row_open("/World", "World"));
    h.set_row_open("/World", false);
    assert!(!h.is_row_open("/World", "World"));
}

#[test]
fn row_styles_mark_selection_and_its_ancestors() {
    let stage = sample_stage();
    let root = stage.root.as_ref().unwrap();
    let mut h = HierarchyPanel::new();
    h.set_row_open("/World", true);
    h.selected_path = Some("/World/Geom/Body".to_string());
    let rows = h.tree_rows(root);
    assert_eq!(rows[0].style, RowStyle::AncestorOfSelection);
    assert_eq!(rows[1].style, RowStyle::AncestorOfSelection);
    assert_eq!(rows[2].style, RowStyle::AncestorOfSelection);
    assert_eq!(rows[3].style, RowStyle::Odd);
    h.selected_path = Some("/World".to_string());
    let rows = h.tree_rows(root);
    assert_eq!(rows[1].style, RowStyle::Selected);
}

#[test]
fn filter_hides_rows_and_lifts_their_children() {
    let stage = sample_stage();
    let root = stage.root.as_ref().unwrap();
    let mut h = HierarchyPanel::new();
    // Upper-case search text still finds the `Mesh` type: the search compares in lower case.
    h.filter_text = "MESH".to_string();
    let rows = h.tree_rows(root);
    let paths: Vec<&str> = rows.iter().map(|r| r.path.as_str()).collect();
    assert_eq!(paths, vec!["/World/Geom/Body"]);
    assert_eq!(rows[0].depth, 0);
    h.filter_text = "lamp".to_string();
    let rows = h.tree_rows(root);
    assert_eq!(rows.len(), 1);
    assert_eq!(rows[0].name, "Lamp");
}

#[test]
fn filter_folds_case_beyond_ascii() {
    let root = prim(0, "/", "", "", vec![prim(1, "/ÄHRE", "ÄHRE", "Xform", vec![]), prim(2, "/Ost", "Ost", "Xform", vec![])]);
    let mut h = HierarchyPanel::new();
    h.filter_text = "ähre".to_string();
    let rows = h.tree_rows(&root);
    let names: Vec<&str> = rows.iter().map(|r| r.name.as_str()).collect();
    assert_eq!(names, vec!["ÄHRE"]);
}

#[test]
fn hierarchy_view_messages() {
    let h = HierarchyPanel::new();
    assert!(matches!(h.view(None), HierarchyView::NoStage));
    let broken = Stage { root: Err(DuError::Usd("no root".to_string())), up_axis: "Y".to_string() };
    match h.view(Some(&broken)) {
        HierarchyView::RootError(m) => assert_eq!(m, "Error getting root prim: USD error: no root"),
        _ => panic!("expected an error"),
    }
}

#[test]
fn begin_frame_drops_a_pin_whose_prim_is_gone() {
    let stage = sample_stage();
    let mut p = PropertiesPanel::new();
    assert_eq!(p.begin_frame(Some(&stage), Some("/World")), Some("/World".to_string()));
    assert_eq!(p.begin_frame(Some(&stage), None), None);
    p.pinned_path = Some("/World/Lamp".to_string());
    assert_eq!(p.begin_frame(Some(&stage), Some("/World")), Some("/World/Lamp".to_string()));
    p.pinned_path = Some("/Gone".to_string());
    assert_eq!(p.begin_frame(Some(&stage), Some("/World")), Some("/World".to_string()));
    assert!(p.pinned_path.is_none());
    p.pinned_path = Some("/World".to_string());
    assert_eq!(p.begin_frame(None, Some("/x")), Some("/x".to_string()));
    assert!(p.pinned_path.is_none());
}

#[test]
fn search_trims_and_ignores_ascii_case() {
    let mut p = PropertiesPanel::new();
    assert!(p.matches_search("anything"));
    p.search_text = "   ".to_string();
    assert!(p.matches_search("anything"));
    p.search_text = "  VIS ".to_string();
    assert!(p.matches_search("visibility"));
    assert!(!p.matches_search("purpose"));
}

#[test]
fn quick_attributes_and_light_types() {
    assert!(is_quick_attribute("visibility"));
    assert!(is_quick_attribute("primvars:displayColor"));
    assert!(!is_quick_attribute("points"));
    assert!(is_light_type("PortalLight"));
    assert!(!is_light_type("Light"));
    assert!(quick_page_shows_light("DomeLight_1"));
    assert!(quick_page_shows_light("MyLight"));
    assert!(!quick_page_shows_light("Mesh"));
    assert_eq!(inspector_light_section("/_DefaultLights/Key", "Xform"), LightSection::DefaultLight);
    assert_eq!(inspector_light_section("/World/Lamp", "SphereLight"), LightSection::Light);
    assert_eq!(inspector_light_section("/World", "Xform"), LightSection::Absent);
}

#[test]
fn booleans_are_spelled_many_ways() {
    for t in ["1", "true", " TRUE ", "yes", "On"] {
        assert_eq!(parse_bool(t), Some(true), "{t}");
    }
    for f in ["0", "false", "No", "\toff\n"] {
        assert_eq!(parse_bool(f), Some(false), "{f}");
    }
    assert_eq!(parse_bool("maybe"), None);
    assert_eq!(parse_bool(""), None);
}

#[test]
fn first_readable_attribute_wins() {
    let attrs = vec!["inputs:intensity", "intensity"];
    let values = vec![None, Some("5".to_string())];
    assert_eq!(read_first_attr(&attrs, &values), Some(("intensity".to_string(), "5".to_string())));
    let values = vec![Some("  ".to_string()), Some("7".to_string())];
    assert_eq!(read_first_attr(&attrs, &values), Some(("intensity".to_string(), "7".to_string())));
    let values = vec![None, None];
    assert_eq!(read_first_attr(&attrs, &values), None);
    let flags = vec!["inputs:shadow:enable", "hasShadow"];
    let values = vec![Some("on".to_string()), Some("false".to_string())];
    assert_eq!(read_first_bool_attr(&flags, &values), Some(("inputs:shadow:enable".to_string(), true)));
    let values = vec![Some("bright".to_string()), Some("false".to_string())];
    assert_eq!(read_first_bool_attr(&flags, &values), None);
}

#[test]
fn attribute_values_are_collected_only_when_all_read() {
    let all = vec![Some("a".to_string()), Some("b".to_string())];
    assert_eq!(collect_attr_values(&all), Some(vec!["a".to_string(), "b".to_string()]));
    let some = vec![Some("a".to_string()), None];
    assert_eq!(collect_attr_values(&some), None);
}

#[test]
fn multi_enum_rows() {
    let uniform = vec![" inherited".to_string(), "inherited ".to_string()];
    assert_eq!(multi_enum_summary(&uniform), ("inherited".to_string(), false));
    let mixed = vec!["inherited".to_string(), "invisible".to_string()];
    assert_eq!(multi_enum_summary(&mixed), ("inherited".to_string(), true));
    assert!(!multi_enum_writes("inherited", "inherited", false));
    assert!(multi_enum_writes("invisible", "inherited", false));
    assert!(multi_enum_writes("inherited", "inherited", true));
    assert!(!multi_enum_writes("__mixed__", "inherited", true));
    assert_eq!(multi_enum_status("visibility", 12), "Updated visibility for 12 prims");
    assert_eq!(multi_selection_header(3), "3 prims selected");
}

#[test]
fn pin_button_cycle() {
    let mut p = PropertiesPanel::new();
    assert_eq!(p.pin_button(Some("/a"), None), PinButton::Hidden);
    let b = p.pin_button(Some("/a"), Some("/a"));
    assert_eq!(b, PinButton::Pin);
    p.press_pin_button(b, Some("/a"));
    assert_eq!(p.pinned_path, Some("/a".to_string()));
    let b = p.pin_button(Some("/a"), Some("/b"));
    assert_eq!(b, PinButton::Unpin);
    p.press_pin_button(b, Some("/b"));
    assert!(p.pinned_path.is_none());
    assert!(!p.shows_multi_edit(1));
    assert!(p.shows_multi_edit(2));
}

#[test]
fn move_editor_paths() {
    assert_eq!(reparent_default_parent("/World/Lamp"), "/World");
    assert_eq!(reparent_default_parent("/World"), "/");
    assert_eq!(reparent_default_parent("World"), "/");
    assert_eq!(moved_prim_path("/World/Lamp", "/Looks"), "/Looks/Lamp");
    assert_eq!(moved_prim_path("/World/Lamp", "/"), "/Lamp");
    assert_eq!(moved_prim_path("/World/", "/Looks"), "/Looks/Prim");
    let (sel, msg) = move_outcome(&Ok(()), "/Looks/Lamp");
    assert_eq!(sel, Some("/Looks/Lamp".to_string()));
    assert_eq!(msg, "Moved: /Looks/Lamp");
    let (sel, msg) = move_outcome(&Err(DuError::Invalid("bad".to_string())), "/x");
    assert_eq!(sel, None);
    assert_eq!(msg, "Move failed: Invalid operation: bad");
}

fn is_set(e: &StageEdit, prim: usize, name: &str, value: &str) -> bool {
    matches!(e, StageEdit::SetAttribute { prim: p, name: n, value: v } if *p == prim && n == name && v == value)
}

#[test]
fn edits_are_wrapped_in_undo_blocks() {
    let e = dreamusd::edits::set_attr_with_undo(true, 9, "visibility", "invisible");
    assert_eq!(e.len(), 3);
    assert!(matches!(e[0], StageEdit::UndoBegin));
    assert!(is_set(&e[1], 9, "visibility", "invisible"));
    assert!(matches!(e[2], StageEdit::UndoEnd));
    let e = dreamusd::edits::set_attr_with_undo(false, 9, "purpose", "guide");
    assert_eq!(e.len(), 1);
    assert!(is_set(&e[0], 9, "purpose", "guide"));
    let e = dreamusd::edits::set_attr_for_many_with_undo(true, &vec![1, 2], "purpose", "proxy");
    assert_eq!(e.len(), 4);
    assert!(is_set(&e[1], 1, "purpose", "proxy") && is_set(&e[2], 2, "purpose", "proxy"));
    let e = reparent_with_undo(true, 4, "/Looks");
    assert!(matches!(&e[1], StageEdit::Reparent { prim: 4, new_parent } if new_parent == "/Looks"));
    let e = select_variant_with_undo(false, 4, "color", "red");
    assert!(matches!(&e[0], StageEdit::SetVariantSelection { prim: 4, set_name, variant } if set_name == "color" && variant == "red"));
    let e = set_material_param_with_undo(7, "roughness", "0.5");
    assert!(matches!(&e[1], StageEdit::SetMaterialParam { prim: 7, name, value } if name == "roughness" && value == "0.5"));
}

#[test]
fn header_and_labels() {
    let mut p = PropertiesPanel::new();
    p.pinned_path = Some("/World".to_string());
    let lines = header_lines(&p, "/World", "Xform", Some("/Other"));
    assert_eq!(lines, vec!["Type: Xform", "Selection: /Other", "Pinned inspector target"]);
    let lines = header_lines(&p, "/x", "", Some("/x"));
    assert!(lines.is_empty());
    let param = MaterialParam {
        name: "diffuseColor".to_string(),
        param_type: "color3f".to_string(),
        value: "(1, 0, 0)".to_string(),
        is_texture: false,
    };
    assert_eq!(material_param_label(&param), "diffuseColor (color3f)");
    let tex = MaterialParam { is_texture: true, ..param };
    assert_eq!(material_param_label(&tex), "diffuseColor (color3f, texture)");
    assert_eq!(no_attributes_label("  "), "(none)");
    assert_eq!(no_attributes_label(" zz "), "No attributes match \"zz\"");
    assert_eq!(material_binding_line(""), None);
    assert_eq!(material_binding_line("/Looks/Steel"), Some("Bound: /Looks/Steel".to_string()));
    assert_eq!(
        select_material("/Looks/Steel"),
        ("/Looks/Steel".to_string(), "Selected material: /Looks/Steel".to_string())
    );
}

#[test]
fn vectors_and_numbers_in_attribute_text() {
    assert_eq!(number_runs_of("(1, -2.5, 3e2)"), vec!["1", "-2.5", "3e2"]);
    assert_eq!(
        vec3_components("(1, 2, 3)"),
        Some(vec!["1".to_string(), "2".to_string(), "3".to_string()])
    );
    assert_eq!(vec3_components("(1, 2)"), None);
    assert_eq!(vec3_components("(1, -, 2, 3)"), Some(vec!["1".to_string(), "2".to_string(), "3".to_string()]));
    assert!(matches!(inferred_attr_kind("visibility", " invisible "), AttrKind::Visibility(ref t) if t == "invisible"));
    assert!(matches!(inferred_attr_kind("purpose", "guide"), AttrKind::Purpose(ref t) if t == "guide"));
    assert!(matches!(inferred_attr_kind("doubleSided", "1"), AttrKind::Bool(true)));
    assert!(matches!(inferred_attr_kind("extent", "(0, 1, 2)"), AttrKind::Vec3(_)));
    assert!(matches!(inferred_attr_kind("radius", " 2.5 "), AttrKind::Number));
    assert!(matches!(inferred_attr_kind("kind", "component"), AttrKind::Text));
    assert!(matches!(inferred_attr_kind("visibility", "hidden"), AttrKind::Text));
}
