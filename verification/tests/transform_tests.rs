use dreamusd::commands::prim_position;
use dreamusd::scene::{collect_handles, frame_all_status, Prim};
use dreamusd::properties::{
    axis_speed, inferred_attr_kind, multi_component_writes, number_speed, parse_bool,
    enum_options, read_first_number_attr, read_first_vec3_attr, row_edit_write, AttrKind,
    DragSpeed, LightControl, PropertiesPanel, RowEdit, matrix_row, page_sections,
    resolve_selection, transform_unavailable, PropertiesTab, Section,
};
use dreamusd::viewer::{rotation_order_of, AntiAliasMode, RotationOrder};

#[test]
fn position_prefers_the_world_pivot() {
    let matrix: [f64; 16] = [
        1.0, 0.0, 0.0, 0.0, 0.0, 1.0, 0.0, 0.0, 0.0, 0.0, 1.0, 0.0, 7.0, 8.0, 9.0, 1.0,
    ];
    assert_eq!(prim_position(Some([1.0, 2.0, 3.0]), Some(matrix)), Some([1.0, 2.0, 3.0]));
}

#[test]
fn position_falls_back_to_the_matrix_translation() {
    let matrix: [f64; 16] = [
        1.0, 0.0, 0.0, 0.0, 0.0, 1.0, 0.0, 0.0, 0.0, 0.0, 1.0, 0.0, 7.0, 8.0, 9.0, 1.0,
    ];
    assert_eq!(prim_position(None, Some(matrix)), Some([7.0, 8.0, 9.0]));
    assert_eq!(prim_position::<f64>(None, None), None);
}

#[test]
fn transform_rows_drag_at_their_speed() {
    assert_eq!(axis_speed("Rotate"), DragSpeed::Coarse);
    assert_eq!(axis_speed("Scale"), DragSpeed::Fine);
    assert_eq!(axis_speed("Translate"), DragSpeed::Normal);
    assert_eq!(axis_speed("rotate"), DragSpeed::Normal);
}

#[test]
fn numeric_attributes_drag_at_their_speed() {
    assert_eq!(number_speed("inputs:intensity"), DragSpeed::Coarse);
    assert_eq!(number_speed("inputs:exposure"), DragSpeed::Coarse);
    assert_eq!(number_speed("inputs:radius"), DragSpeed::Fine);
    assert_eq!(number_speed("widthscale"), DragSpeed::Fine);
    assert_eq!(number_speed("inputs:intensityscale"), DragSpeed::Coarse);
    assert_eq!(number_speed("inputs:width"), DragSpeed::Normal);
}

#[test]
fn supersampling_scales_the_frame() {
    assert_eq!(AntiAliasMode::Off.render_scale_percent(), 100);
    assert_eq!(AntiAliasMode::Msaa.render_scale_percent(), 100);
    assert_eq!(AntiAliasMode::Ssaa1_5x.render_scale_percent(), 150);
    assert_eq!(AntiAliasMode::Ssaa2x.render_scale_percent(), 200);
}

#[test]
fn rotation_orders_by_number() {
    assert_eq!(rotation_order_of(0), RotationOrder::Xyz);
    assert_eq!(rotation_order_of(1), RotationOrder::Xzy);
    assert_eq!(rotation_order_of(2), RotationOrder::Yxz);
    assert_eq!(rotation_order_of(3), RotationOrder::Yzx);
    assert_eq!(rotation_order_of(4), RotationOrder::Zxy);
    assert_eq!(rotation_order_of(5), RotationOrder::Zyx);
    assert_eq!(rotation_order_of(6), RotationOrder::Xyz);
    assert_eq!(rotation_order_of(-1), RotationOrder::Xyz);
}

#[test]
fn attribute_row_edits() {
    let checked = row_edit_write("0", &RowEdit::Checked(true)).unwrap();
    assert_eq!(checked, "true");
    assert_eq!(parse_bool(&checked), Some(true));
    assert!(matches!(inferred_attr_kind("doubleSided", &checked), AttrKind::Bool(true)));
    assert_eq!(row_edit_write("1", &RowEdit::Checked(false)), Some("false".to_string()));
    assert_eq!(row_edit_write(" inherited ", &RowEdit::Chosen("inherited".to_string())), None);
    let chosen = row_edit_write("inherited", &RowEdit::Chosen("invisible".to_string())).unwrap();
    assert_eq!(chosen, "invisible");
    assert!(matches!(inferred_attr_kind("visibility", &chosen), AttrKind::Visibility(_)));
    assert_eq!(row_edit_write("hello", &RowEdit::Committed("hello".to_string())), None);
    assert_eq!(row_edit_write(" hello", &RowEdit::Committed("hello".to_string())), Some("hello".to_string()));
}

#[test]
fn multi_prim_component_edits() {
    let currents: Vec<Option<[f64; 3]>> = vec![Some([1.0, 2.0, 3.0]), None, Some([4.0, 5.0, 6.0])];
    let writes = multi_component_writes(&currents, 1, 9.5);
    assert_eq!(writes, vec![(0, [1.0, 9.5, 3.0]), (2, [4.0, 9.5, 6.0])]);
    assert_eq!(multi_component_writes::<f64>(&vec![None, None], 0, 1.0), vec![]);
}

#[test]
fn viewer_starts_with_default_options() {
    let v = dreamusd::viewer::ViewSettings::new();
    assert_eq!(v.display_mode_index, 0);
    assert_eq!(v.complexity_index, 0);
    assert!(v.show_lights && !v.show_shadows && !v.show_guides);
    assert!(v.show_proxy && v.show_render && !v.cull_backfaces);
    assert!(v.enable_scene_materials && v.dome_light_textures_visible);
    assert_eq!(v.aa_mode, AntiAliasMode::Msaa);
}

#[test]
fn string_setting_drafts() {
    let mut d = dreamusd::viewer::SettingDrafts::new();
    assert_eq!(d.draft("aov", "color"), "color");
    d.set_draft("aov", "depth");
    assert_eq!(d.draft("aov", "color"), "depth");
    assert_eq!(d.draft("samples", "4"), "4");
    d.set_draft("aov", "normal");
    assert_eq!(d.draft("aov", "color"), "normal");
    assert_eq!(d.draft("samples", "8"), "4");
}

#[test]
fn renderer_settings_window_messages() {
    let none = dreamusd::viewer::renderer_settings_message(None);
    assert_eq!(none.as_deref(), Some("Renderer unavailable"));
    let failed: Result<Vec<dreamusd::RendererSetting>, dreamusd::DuError> =
        Err(dreamusd::DuError::Usd("gone".to_string()));
    assert_eq!(
        dreamusd::viewer::renderer_settings_message(Some(&failed)).as_deref(),
        Some("USD error: gone")
    );
    let empty: Result<Vec<dreamusd::RendererSetting>, dreamusd::DuError> = Ok(vec![]);
    assert_eq!(
        dreamusd::viewer::renderer_settings_message(Some(&empty)).as_deref(),
        Some("Current render delegate does not expose renderer settings.")
    );
    let some: Result<Vec<dreamusd::RendererSetting>, dreamusd::DuError> =
        Ok(vec![dreamusd::RendererSetting {
            key: "k".to_string(),
            name: "K".to_string(),
            setting_type: dreamusd::RendererSettingType::Flag,
            current_value: "1".to_string(),
            default_value: "0".to_string(),
        }]);
    assert_eq!(dreamusd::viewer::renderer_settings_message(Some(&some)), None);
}

#[test]
fn framing_walks_every_prim() {
    let leaf = |h: usize, p: &str| Prim {
        handle: h,
        path: Some(p.to_string()),
        name: None,
        prim_type: None,
        children: Some(vec![]),
    };
    let a = Prim {
        handle: 2,
        path: Some("/A".to_string()),
        name: None,
        prim_type: None,
        children: Some(vec![leaf(3, "/A/B"), leaf(4, "/A/C")]),
    };
    let root = Prim {
        handle: 1,
        path: Some("/".to_string()),
        name: None,
        prim_type: None,
        children: Some(vec![a, leaf(5, "/D")]),
    };
    let mut handles = vec![9];
    collect_handles(&root, &mut handles);
    assert_eq!(handles, vec![9, 1, 2, 3, 4, 5]);
    assert_eq!(frame_all_status(false, 3), "Frame all failed: root prim unavailable");
    assert_eq!(frame_all_status(true, 0), "Frame all failed: scene has no frameable prims");
    assert_eq!(frame_all_status(true, 2), "Framed scene");
}

#[test]
fn light_editor_rows_and_their_attributes() {
    let labels: Vec<&str> = LightControl::all().into_iter().map(|c| c.label()).collect();
    assert_eq!(labels, vec!["Intensity", "Exposure", "Color", "Shadow", "Radius", "Angle"]);
    assert_eq!(LightControl::Shadow.attributes(), vec!["inputs:shadow:enable", "shadow:enable", "hasShadow"]);
    assert_eq!(LightControl::Intensity.attributes(), vec!["inputs:intensity", "intensity"]);
    let attrs = LightControl::Intensity.attributes();
    let values = vec![Some("  ".to_string()), Some(" 5.5 ".to_string())];
    assert_eq!(read_first_number_attr(&attrs, &values), Some(("intensity".to_string(), "5.5".to_string())));
    let values = vec![Some("bright".to_string()), Some("5".to_string())];
    assert_eq!(read_first_number_attr(&attrs, &values), None);
    let attrs = LightControl::Color.attributes();
    let values = vec![None, Some("(1, 0.5, 0)".to_string())];
    assert_eq!(
        read_first_vec3_attr(&attrs, &values),
        Some(("color".to_string(), vec!["1".to_string(), "0.5".to_string(), "0".to_string()]))
    );
    let values = vec![Some("(1, 2)".to_string()), Some("(1, 2, 3)".to_string())];
    assert_eq!(read_first_vec3_attr(&attrs, &values), None);
}

#[test]
fn attribute_pages_list_what_the_search_admits() {
    let names: Vec<String> = ["visibility", "points", "purpose", "primvars:displayColor", "extent"]
        .iter()
        .map(|n| n.to_string())
        .collect();
    let mut p = PropertiesPanel::new();
    assert_eq!(p.listed_attributes(&names, false), names);
    assert_eq!(
        p.listed_attributes(&names, true),
        vec!["visibility".to_string(), "purpose".to_string(), "primvars:displayColor".to_string()]
    );
    p.search_text = " P ".to_string();
    assert_eq!(
        p.listed_attributes(&names, false),
        vec!["points".to_string(), "purpose".to_string(), "primvars:displayColor".to_string()]
    );
    assert_eq!(
        p.listed_attributes(&names, true),
        vec!["purpose".to_string(), "primvars:displayColor".to_string()]
    );
}

#[test]
fn menus_offer_their_tokens() {
    assert_eq!(enum_options("visibility"), vec!["inherited", "invisible"]);
    assert_eq!(enum_options("purpose"), vec!["default", "render", "proxy", "guide"]);
    assert!(enum_options("kind").is_empty());
}

#[test]
fn page_sections_by_tab_and_prim() {
    assert_eq!(
        page_sections(PropertiesTab::Quick, "/World/Sun", "DistantLight"),
        vec![
            (Section::Light, true),
            (Section::Transform, true),
            (Section::Common, true),
            (Section::Variants, true),
            (Section::Material, true),
        ]
    );
    assert_eq!(page_sections(PropertiesTab::Quick, "/World/Box", "Mesh").len(), 4);
    assert_eq!(
        page_sections(PropertiesTab::Inspector, "/_DefaultLights/Key", "DistantLight"),
        vec![
            (Section::DefaultLight, true),
            (Section::Transform, true),
            (Section::Attributes, true),
            (Section::Variants, false),
            (Section::Hierarchy, false),
            (Section::Material, false),
        ]
    );
    assert_eq!(page_sections(PropertiesTab::Inspector, "/World/Lamp", "SphereLight")[0], (Section::Light, true));
    assert_eq!(page_sections(PropertiesTab::Inspector, "/World/Box", "Mesh")[0], (Section::Transform, true));
    assert_eq!(Section::DefaultLight.title(), "Default Light");
}

#[test]
fn transform_section_reports_the_first_unreadable_part() {
    let ok_m: Result<[f64; 16], dreamusd::DuError> = Ok([0.0; 16]);
    let ok_v: Result<[f64; 3], dreamusd::DuError> = Ok([0.0; 3]);
    let bad_v: Result<[f64; 3], dreamusd::DuError> = Err(dreamusd::DuError::Usd("no op".to_string()));
    let bad_m: Result<[f64; 16], dreamusd::DuError> = Err(dreamusd::DuError::Null);
    assert_eq!(transform_unavailable(&ok_m, &ok_v, &ok_v, &ok_v), None);
    assert_eq!(
        transform_unavailable(&bad_m, &bad_v, &ok_v, &ok_v).as_deref(),
        Some("(no transform: Null pointer)")
    );
    assert_eq!(
        transform_unavailable(&ok_m, &ok_v, &bad_v, &bad_v).as_deref(),
        Some("(rotate unavailable: USD error: no op)")
    );
    assert_eq!(
        transform_unavailable(&ok_m, &ok_v, &ok_v, &bad_v).as_deref(),
        Some("(scale unavailable: USD error: no op)")
    );
    let m: [u8; 16] = [0, 1, 2, 3, 4, 5, 6, 7, 8, 9, 10, 11, 12, 13, 14, 15];
    assert_eq!(matrix_row(&m, 0), [0, 4, 8, 12]);
    assert_eq!(matrix_row(&m, 3), [3, 7, 11, 15]);
}

#[test]
fn multi_edit_resolves_the_selection_and_empty_pages_explain() {
    let leaf = |h: usize, p: &str| Prim {
        handle: h,
        path: Some(p.to_string()),
        name: None,
        prim_type: None,
        children: Some(vec![]),
    };
    let root = Prim {
        handle: 1,
        path: Some("/".to_string()),
        name: None,
        prim_type: None,
        children: Some(vec![leaf(2, "/A"), leaf(3, "/B")]),
    };
    let stage = dreamusd::Stage { root: Ok(root), up_axis: "Y".to_string() };
    let paths: Vec<String> = ["/B", "/Gone", "/A"].iter().map(|p| p.to_string()).collect();
    assert_eq!(resolve_selection(&stage, &paths), vec![3, 2]);
    let mut panel = PropertiesPanel::new();
    assert_eq!(panel.no_prim_message(), "No prim selected");
    panel.pinned_path = Some("/Gone".to_string());
    assert_eq!(panel.no_prim_message(), "Pinned prim no longer exists");
}
