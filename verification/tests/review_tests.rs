use dreamusd::edits::StageEdit;
use dreamusd::hierarchy::{accepts_drop, create_child_with_undo, row_menu, RowAction};
use dreamusd::properties::{
    multi_component_edits, read_first_attr, read_first_bool_attr, row_background, take_row,
    UndoStep,
};
use dreamusd::viewer::{
    shortcut_commands, viewport_navigation, GizmoHandle, GizmoMode, GizmoState, ModeSource,
    Navigation, PointerInput, ShortcutInput, ViewSettings, ViewportCommand,
};

fn keys() -> ShortcutInput {
    ShortcutInput {
        editing_text: false,
        pointer_over_viewport: true,
        command: false,
        shift: false,
        key_o: false,
        key_s: false,
        key_z: false,
        key_q: false,
        key_w: false,
        key_e: false,
        key_r: false,
        key_x: false,
        key_f: false,
        key_delete: false,
        key_backspace: false,
    }
}

#[test]
fn plain_z_toggles_wireframe() {
    let mut k = keys();
    k.key_z = true;
    assert_eq!(shortcut_commands(&k, GizmoMode::Select), (None, Some(ViewportCommand::ToggleWireframe)));
    k.command = true;
    let (file, viewport) = shortcut_commands(&k, GizmoMode::Select);
    assert!(file.is_some());
    assert_eq!(viewport, None);
    let mut k = keys();
    k.key_z = true;
    k.pointer_over_viewport = false;
    assert_eq!(shortcut_commands(&k, GizmoMode::Select).1, None);
    let mut k = keys();
    k.key_z = true;
    k.key_delete = true;
    assert_eq!(shortcut_commands(&k, GizmoMode::Select).1, Some(ViewportCommand::DeleteSelection));
}

#[test]
fn wireframe_toggles_to_and_from_smooth_shading() {
    let mut v = ViewSettings::new();
    v.toggle_wireframe();
    assert_eq!(v.display_mode_index, 1);
    v.toggle_wireframe();
    assert_eq!(v.display_mode_index, 0);
    v.display_mode_index = 4;
    v.toggle_wireframe();
    assert_eq!(v.display_mode_index, 1);
    assert!(v.show_lights);
}

#[test]
fn toolbar_buttons_and_q_let_go_of_the_handle() {
    let mut g = GizmoState::new();
    g.pick_mode(GizmoMode::Translate, ModeSource::Keyboard);
    g.dragging = Some(GizmoHandle::Center);
    g.pick_mode(GizmoMode::Rotate, ModeSource::Keyboard);
    assert_eq!(g.dragging, Some(GizmoHandle::Center));
    g.pick_mode(GizmoMode::Scale, ModeSource::Toolbar);
    assert_eq!(g.dragging, None);
    g.dragging = Some(GizmoHandle::Axis(0));
    g.pick_mode(GizmoMode::Select, ModeSource::Keyboard);
    assert_eq!(g.mode, GizmoMode::Select);
    assert_eq!(g.dragging, None);
}

fn pointer() -> PointerInput {
    PointerInput {
        alt: false,
        shift: false,
        primary_dragged: false,
        secondary_dragged: false,
        middle_dragged: false,
        scrolled: false,
        pointer_over_viewport: true,
    }
}

#[test]
fn mouse_navigation() {
    let mut p = pointer();
    p.alt = true;
    p.primary_dragged = true;
    assert_eq!(viewport_navigation(&p, false), vec![Navigation::Orbit]);
    p.primary_dragged = false;
    p.middle_dragged = true;
    assert_eq!(viewport_navigation(&p, false), vec![Navigation::Pan]);
    p.middle_dragged = false;
    p.secondary_dragged = true;
    assert_eq!(viewport_navigation(&p, false), vec![Navigation::Zoom]);
    p.alt = false;
    assert_eq!(viewport_navigation(&p, false), vec![Navigation::Orbit]);
    p.shift = true;
    p.scrolled = true;
    assert_eq!(viewport_navigation(&p, false), vec![Navigation::Pan, Navigation::Zoom]);
    assert_eq!(viewport_navigation(&p, true), vec![Navigation::Zoom]);
    let mut q = pointer();
    q.primary_dragged = true;
    assert!(viewport_navigation(&q, false).is_empty());
}

#[test]
fn property_rows_count_and_alternate() {
    let mut k = 0usize;
    assert_eq!(take_row(&mut k), (24, 24, 30));
    assert_eq!(take_row(&mut k), (36, 36, 44));
    assert_eq!(take_row(&mut k), (24, 24, 30));
    assert_eq!(k, 3);
    assert_eq!(row_background(7), (36, 36, 44));
}

#[test]
fn multi_prim_writes_share_one_undo_block() {
    let currents: Vec<Option<[f64; 3]>> = vec![Some([1.0, 2.0, 3.0]), None, Some([4.0, 5.0, 6.0])];
    let steps = multi_component_edits(true, &currents, 2, 0.5);
    assert_eq!(steps.len(), 4);
    assert!(matches!(steps[0], UndoStep::Begin));
    assert!(matches!(steps[1], UndoStep::Do((0, [1.0, 2.0, 0.5]))));
    assert!(matches!(steps[2], UndoStep::Do((2, [4.0, 5.0, 0.5]))));
    assert!(matches!(steps[3], UndoStep::End));
    let bare = multi_component_edits(false, &currents, 0, 9.0);
    assert_eq!(bare.len(), 2);
    assert!(matches!(bare[0], UndoStep::Do((0, [9.0, 2.0, 3.0]))));
}

#[test]
fn first_attribute_with_unequal_lists() {
    let attrs = vec!["inputs:shadow:enable", "shadow:enable", "hasShadow"];
    let values = vec![None, Some("off".to_string())];
    assert_eq!(read_first_attr(&attrs, &values), Some(("shadow:enable".to_string(), "off".to_string())));
    assert_eq!(read_first_bool_attr(&attrs, &values), Some(("shadow:enable".to_string(), false)));
    let values = vec![Some("maybe".to_string()), Some("1".to_string()), Some("1".to_string()), Some("1".to_string())];
    assert_eq!(read_first_bool_attr(&attrs, &values), None);
    assert_eq!(read_first_attr(&attrs[..1].to_vec(), &vec![Some("  ".to_string()), Some("x".to_string())]), None);
}

#[test]
fn hierarchy_context_menu() {
    assert!(row_menu(false, "/World").is_empty());
    assert!(row_menu(true, "").is_empty());
    assert_eq!(row_menu(true, "/"), vec![RowAction::CreateChild]);
    assert_eq!(row_menu(true, "/World"), vec![RowAction::CreateChild, RowAction::Delete]);
    let edits = create_child_with_undo(true, "/World", "Box", "Cube").unwrap();
    assert_eq!(edits.len(), 3);
    match &edits[1] {
        StageEdit::CreatePrim { path, prim_type } => {
            assert_eq!(path, "/World/Box");
            assert_eq!(prim_type, "Cube");
        }
        _ => panic!("expected a creation"),
    }
    let edits = create_child_with_undo(false, "/", "Root2", "Xform").unwrap();
    assert!(matches!(&edits[0], StageEdit::CreatePrim { path, .. } if path == "/Root2"));
    assert!(create_child_with_undo(true, "/World", "", "Xform").is_none());
    assert!(create_child_with_undo(true, "/World", "a/b", "Xform").is_none());
}

#[test]
fn drag_and_drop_reparenting() {
    assert!(accepts_drop("/World/Box", "/Other"));
    assert!(accepts_drop("/World/Box", "/"));
    assert!(!accepts_drop("/World/Box", "/World"));
    assert!(!accepts_drop("/World", "/World/Box"));
    assert!(!accepts_drop("/World", "/World"));
    assert!(!accepts_drop("/", "/World"));
    assert!(accepts_drop("/World", "/WorldTwo"));
}
