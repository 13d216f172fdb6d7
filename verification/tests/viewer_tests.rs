use dreamusd::edits::StageEdit;
use dreamusd::error::DuError;
use dreamusd::hydra::{
    complexity_label, display_mode_entry, flag_setting_enabled, int_setting_value,
    selection_request, DisplayMode, DuDisplayMode, DuRendererSettingType, RendererSettingType,
};
use dreamusd::numbers::is_float_literal;
use dreamusd::scene::{Prim, Stage};
use dreamusd::text::{contains_ignore_ascii_case, contains_str, ends_with, starts_with, str_eq, trim_str};
use dreamusd::viewer::{
    drain_retired_textures, frame_settings, is_z_up, needs_repaint, next_interaction_frames,
    result_status, shortcut_commands, viewport_placeholder, AntiAliasMode, FileCommand,
    GizmoHandle, GizmoMode, GizmoSpace, GizmoState, RetiredTexture, ShortcutInput,
    ViewSettings, ViewportCommand,
};

fn keys() -> ShortcutInput {
    ShortcutInput {
        editing_text: false,
        pointer_over_viewport: true,
        command: false,
        shift: false,
        key_o: false,
        key_s: false,
        key_z: false,
        key_q: false,
        key_w: false,
        key_e: false,
        key_r: false,
        key_x: false,
        key_f: false,
        key_delete: false,
        key_backspace: false,
    }
}

#[test]
fn anti_aliasing_modes() {
    let all = AntiAliasMode::all();
    assert_eq!(all, vec![AntiAliasMode::Off, AntiAliasMode::Msaa, AntiAliasMode::Ssaa1_5x, AntiAliasMode::Ssaa2x]);
    let labels: Vec<&str> = all.iter().map(|m| m.label()).collect();
    assert_eq!(labels, vec!["Off", "MSAA", "SSAA 1.5x", "SSAA 2x"]);
    assert!(AntiAliasMode::Msaa.uses_msaa());
    assert!(!AntiAliasMode::Ssaa2x.uses_msaa());
}

#[test]
fn gizmo_space_follows_mode() {
    let mut g = GizmoState::new();
    assert_eq!(g.effective_gizmo_space(), GizmoSpace::Local);
    assert_eq!(g.toggle_gizmo_space(), "Gizmo space: World");
    assert_eq!(g.space, GizmoSpace::World);
    g.set_mode(GizmoMode::Scale, false);
    assert_eq!(g.effective_gizmo_space(), GizmoSpace::Local);
    assert_eq!(g.set_gizmo_space(GizmoSpace::World), "Gizmo space: Local");
    g.set_mode(GizmoMode::Translate, false);
    assert_eq!(g.effective_gizmo_space(), GizmoSpace::World);
    assert_eq!(GizmoSpace::World.label(), "World");
}

#[test]
fn drag_opens_and_closes_one_undo_block() {
    let mut g = GizmoState::new();
    assert!(g.drag_frame(true, true, true, Some(GizmoHandle::Center), false).is_empty());
    g.set_mode(GizmoMode::Translate, false);
    let e = g.drag_frame(true, true, true, Some(GizmoHandle::Axis(1)), false);
    assert_eq!(e.len(), 1);
    assert!(matches!(e[0], StageEdit::UndoBegin));
    assert_eq!(g.dragging, Some(GizmoHandle::Axis(1)));
    assert!(g.drag_frame(true, true, false, None, false).is_empty());
    let e = g.drag_frame(true, true, false, None, true);
    assert_eq!(e.len(), 1);
    assert!(matches!(e[0], StageEdit::UndoEnd));
    assert_eq!(g.dragging, None);
    // A drag that starts away from every handle opens nothing and closes nothing.
    assert!(g.drag_frame(true, true, true, None, false).is_empty());
    assert!(g.drag_frame(true, true, false, None, true).is_empty());
    // Without a stage nothing is recorded, yet the handle is grabbed.
    assert!(g.drag_frame(true, false, true, Some(GizmoHandle::Plane(0, 1)), false).is_empty());
    assert_eq!(g.dragging, Some(GizmoHandle::Plane(0, 1)));
}

#[test]
fn shortcut_table() {
    let mut k = keys();
    k.command = true;
    k.key_o = true;
    assert_eq!(shortcut_commands(&k, GizmoMode::Select).0, Some(FileCommand::Open));
    let mut k = keys();
    k.command = true;
    k.key_s = true;
    assert_eq!(shortcut_commands(&k, GizmoMode::Select).0, Some(FileCommand::Save));
    k.shift = true;
    assert_eq!(shortcut_commands(&k, GizmoMode::Select).0, Some(FileCommand::SaveAs));
    let mut k = keys();
    k.command = true;
    k.key_z = true;
    assert_eq!(shortcut_commands(&k, GizmoMode::Select).0, Some(FileCommand::Undo));
    k.shift = true;
    assert_eq!(shortcut_commands(&k, GizmoMode::Select).0, Some(FileCommand::Redo));
    let modes = [
        (0, GizmoMode::Select),
        (1, GizmoMode::Translate),
        (2, GizmoMode::Rotate),
        (3, GizmoMode::Scale),
    ];
    for (i, mode) in modes {
        let mut k = keys();
        match i {
            0 => k.key_q = true,
            1 => k.key_w = true,
            2 => k.key_e = true,
            _ => k.key_r = true,
        }
        assert_eq!(shortcut_commands(&k, GizmoMode::Select).1, Some(ViewportCommand::SetMode(mode)));
    }
    let mut k = keys();
    k.key_f = true;
    assert_eq!(shortcut_commands(&k, GizmoMode::Rotate).1, Some(ViewportCommand::Focus));
    let mut k = keys();
    k.key_delete = true;
    assert_eq!(shortcut_commands(&k, GizmoMode::Rotate).1, Some(ViewportCommand::DeleteSelection));
    let mut k = keys();
    k.key_x = true;
    k.key_f = true;
    assert_eq!(shortcut_commands(&k, GizmoMode::Rotate).1, Some(ViewportCommand::ToggleSpace));
    assert_eq!(shortcut_commands(&k, GizmoMode::Scale).1, None);
    k.pointer_over_viewport = false;
    assert_eq!(shortcut_commands(&k, GizmoMode::Rotate).1, None);
    let mut k = keys();
    k.editing_text = true;
    k.command = true;
    k.key_o = true;
    k.key_w = true;
    assert_eq!(shortcut_commands(&k, GizmoMode::Select), (None, None));
}

#[test]
fn repaint_pacing() {
    assert_eq!(next_interaction_frames(true, 0), 3);
    assert_eq!(next_interaction_frames(false, 3), 2);
    assert_eq!(next_interaction_frames(false, 0), 0);
    assert!(!needs_repaint(false, 0, false, false));
    assert!(needs_repaint(false, 1, false, false));
    assert!(needs_repaint(true, 0, false, false));
}

#[test]
fn retired_textures_age_and_free() {
    let mut retired = vec![
        RetiredTexture { frames_left: 0, texture: 10u64 },
        RetiredTexture { frames_left: 2, texture: 11u64 },
        RetiredTexture { frames_left: 1, texture: 12u64 },
    ];
    assert_eq!(drain_retired_textures(&mut retired, true), vec![10]);
    let left: Vec<(u8, u64)> = retired.iter().map(|t| (t.frames_left, t.texture)).collect();
    assert_eq!(left, vec![(1, 11), (0, 12)]);
    assert_eq!(drain_retired_textures(&mut retired, true), vec![12]);
    assert_eq!(drain_retired_textures(&mut retired, true), vec![11]);
    assert!(retired.is_empty());
    let mut more = vec![RetiredTexture { frames_left: 0, texture: 1u64 }];
    assert!(drain_retired_textures(&mut more, false).is_empty());
    assert!(more.is_empty());
}

#[test]
fn frame_settings_follow_the_view() {
    let lamp = Prim {
        handle: 3,
        path: Some("/World/Lamp".to_string()),
        name: Some("Lamp".to_string()),
        prim_type: Some("SphereLight".to_string()),
        children: Some(vec![]),
    };
    let world = Prim {
        handle: 2,
        path: Some("/World".to_string()),
        name: Some("World".to_string()),
        prim_type: Some("Xform".to_string()),
        children: Some(vec![lamp]),
    };
    let root = Prim {
        handle: 1,
        path: Some("/".to_string()),
        name: Some(String::new()),
        prim_type: Some(String::new()),
        children: Some(vec![world]),
    };
    let stage = Stage { root: Ok(root), up_axis: "Z".to_string() };
    let view = ViewSettings {
        display_mode_index: 1,
        complexity_index: 2,
        show_lights: true,
        show_shadows: false,
        show_guides: false,
        show_proxy: true,
        show_render: true,
        cull_backfaces: false,
        enable_scene_materials: true,
        dome_light_textures_visible: true,
        aa_mode: AntiAliasMode::Msaa,
    };
    let f = frame_settings(&view, Some(&stage), Some("/World/Lamp"), false);
    assert_eq!(f.selection, Some("/World".to_string()));
    assert_eq!(f.display_mode, DisplayMode::Wireframe);
    assert!(f.msaa && f.enable_lighting && !f.enable_shadows);
    let f = frame_settings(&view, Some(&stage), Some("/Nowhere"), true);
    assert_eq!(f.selection, Some("/Nowhere".to_string()));
    assert!(!f.msaa);
    assert!(is_z_up(&stage.up_axis));
    assert!(!is_z_up("Y"));
}

#[test]
fn renderer_vocabulary() {
    let d: DuDisplayMode = DisplayMode::GeomSmooth.into();
    assert_eq!(d, DuDisplayMode::GeomSmooth);
    let t: RendererSettingType = DuRendererSettingType::Float.into();
    assert_eq!(t, RendererSettingType::Float);
    assert_eq!(display_mode_entry(0), ("Smooth Shaded", DisplayMode::SmoothShaded));
    assert_eq!(display_mode_entry(8), ("Geom Smooth", DisplayMode::GeomSmooth));
    assert_eq!(complexity_label(3), "Very High");
    assert_eq!(selection_request(None).unwrap(), Vec::<String>::new());
    assert_eq!(selection_request(Some("/World")).unwrap(), vec!["/World".to_string()]);
    match selection_request(Some("/Wo\0rld")) {
        Err(DuError::Invalid(m)) => assert_eq!(m, "Selection path contains an interior NUL byte"),
        _ => panic!("expected a refusal"),
    }
    assert!(flag_setting_enabled("TRUE"));
    assert!(flag_setting_enabled("on"));
    assert!(!flag_setting_enabled(" 1"));
    assert!(!flag_setting_enabled("0"));
    assert_eq!(int_setting_value("42"), 42);
    assert_eq!(int_setting_value("-7"), -7);
    assert_eq!(int_setting_value("4.5"), 0);
    assert_eq!(int_setting_value("99999999999"), 0);
}

#[test]
fn integer_setting_text() {
    assert_eq!(int_setting_value("+5"), 5);
    assert_eq!(int_setting_value("007"), 7);
    assert_eq!(int_setting_value("-2147483648"), i32::MIN);
    assert_eq!(int_setting_value("2147483647"), i32::MAX);
    assert_eq!(int_setting_value("2147483648"), 0);
    assert_eq!(int_setting_value(""), 0);
    assert_eq!(int_setting_value("-"), 0);
    assert_eq!(int_setting_value(" 1"), 0);
    assert_eq!(int_setting_value("1_000"), 0);
}

#[test]
fn status_lines() {
    assert_eq!(result_status(&Ok(()), "Saved", "Save failed: "), "Saved");
    assert_eq!(
        result_status(&Err(DuError::Io("full".to_string())), "Saved", "Save failed: "),
        "Save failed: IO error: full"
    );
    assert_eq!(viewport_placeholder(false, None), "No stage loaded — Ctrl+O to open");
    assert_eq!(viewport_placeholder(true, Some("x")), "Renderer unavailable: x");
    assert_eq!(viewport_placeholder(true, None), "Initializing renderer...");
}

#[test]
fn text_helpers() {
    assert!(str_eq("abc", "abc") && !str_eq("abc", "abd"));
    assert!(starts_with("primvars:displayColor", "primvars:display"));
    assert!(ends_with("SphereLight", "Light"));
    assert!(contains_str("deskLight", "Light") && !contains_str("desk", "Light"));
    assert!(contains_ignore_ascii_case("Visibility", "VIS"));
    assert_eq!(trim_str("\u{3000} a b \t"), "a b");
}

#[test]
fn float_literals_agree_with_the_standard_library() {
    let cases = [
        "1", "-1", "+1.5", "1.", ".5", ".", "1e5", "1E-5", "1e", "1e+", "e5", "inf", "-Infinity",
        "NaN", "nan1", "1.2.3", "", " 1", "1 ", "--1", "0x10", "1_0", "3.14e+10", "+.e1", "12ab",
        "infinit", "+nan",
    ];
    for c in cases {
        assert_eq!(is_float_literal(c), c.parse::<f64>().is_ok(), "{c:?}");
    }
}
