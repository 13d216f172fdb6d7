use dreamusd::commands::{
    deletion_outcome, focus_status, opened_status, plan_deletion, plan_focus, sorted_selection,
    str_lt, topmost_paths, DeletionPlan, FocusPlan,
};
use dreamusd::edits::StageEdit;
use dreamusd::error::{check, check_c_string, CStringArg, DuError, DuStatus};
use dreamusd::fmt::decimal_string;
use dreamusd::scene::{Prim, Stage};

fn strings(v: &[&str]) -> Vec<String> {
    v.iter().map(|s| s.to_string()).collect()
}

#[test]
fn status_codes_map_to_errors() {
    assert!(check(DuStatus::Success, "ignored".to_string()).is_ok());
    assert!(matches!(check(DuStatus::ErrIo, "disk".to_string()), Err(DuError::Io(m)) if m == "disk"));
    assert!(matches!(check(DuStatus::ErrInvalid, "bad".to_string()), Err(DuError::Invalid(m)) if m == "bad"));
    assert!(matches!(check(DuStatus::ErrNull, "x".to_string()), Err(DuError::Null)));
    assert!(matches!(check(DuStatus::ErrUsd, "usd".to_string()), Err(DuError::Usd(m)) if m == "usd"));
    assert!(matches!(check(DuStatus::ErrVulkan, "vk".to_string()), Err(DuError::Vulkan(m)) if m == "vk"));
}

#[test]
fn error_texts() {
    assert_eq!(DuError::Io("a".to_string()).to_message(), "IO error: a");
    assert_eq!(DuError::Invalid("b".to_string()).to_message(), "Invalid operation: b");
    assert_eq!(DuError::Null.to_message(), "Null pointer");
    assert_eq!(DuError::Usd("c".to_string()).to_message(), "USD error: c");
    assert_eq!(DuError::Vulkan("d".to_string()).to_message(), "Vulkan error: d");
}

#[test]
fn nul_characters_are_refused_at_the_bridge() {
    assert!(check_c_string("/World", CStringArg::Path).is_ok());
    match check_c_string("/Wor\0ld", CStringArg::Path) {
        Err(DuError::Invalid(m)) => assert_eq!(m, "path contains null byte"),
        _ => panic!("expected a refusal"),
    }
    match check_c_string("k\0", CStringArg::SettingKey) {
        Err(DuError::Invalid(m)) => assert_eq!(m, "setting key contains null byte"),
        _ => panic!("expected a refusal"),
    }
}

#[test]
fn paths_sort_by_code_point() {
    assert!(str_lt("/a", "/b"));
    assert!(str_lt("/a", "/a/b"));
    assert!(!str_lt("/a", "/a"));
    assert!(str_lt("/Z", "/a"));
    assert!(!str_lt("/b", "/a/c"));
}

#[test]
fn selection_is_sorted_unique_and_without_root() {
    let s = sorted_selection(&strings(&["/b", "/", "/a", "/b", "/a/c"]));
    assert_eq!(s, strings(&["/a", "/a/c", "/b"]));
    assert_eq!(topmost_paths(&s), strings(&["/a", "/b"]));
}

#[test]
fn deletion_plans() {
    assert!(matches!(plan_deletion(&vec![]), DeletionPlan::Nothing));
    match plan_deletion(&strings(&["/", "/"])) {
        DeletionPlan::PseudoRootOnly(m) => assert_eq!(m, "Cannot delete the pseudo-root"),
        _ => panic!("expected a refusal"),
    }
    match plan_deletion(&strings(&["/World/Lamp", "/World", "/Looks", "/Worlds"])) {
        DeletionPlan::Remove { targets, edits } => {
            assert_eq!(targets, strings(&["/Looks", "/World", "/Worlds"]));
            assert_eq!(edits.len(), 5);
            assert!(matches!(edits[0], StageEdit::UndoBegin));
            assert!(matches!(&edits[1], StageEdit::RemovePrim { path } if path == "/Looks"));
            assert!(matches!(edits[4], StageEdit::UndoEnd));
        }
        _ => panic!("expected removals"),
    }
}

#[test]
fn deletion_reports() {
    let one = strings(&["/A"]);
    assert_eq!(deletion_outcome(&one, &vec![Ok(())]), (true, "Deleted: /A".to_string()));
    let two = strings(&["/A", "/B"]);
    assert_eq!(deletion_outcome(&two, &vec![Ok(()), Ok(())]), (true, "Deleted 2 prims".to_string()));
    assert_eq!(
        deletion_outcome(&two, &vec![Ok(()), Err(DuError::Usd("locked".to_string()))]),
        (true, "Delete failed: /B: USD error: locked".to_string())
    );
    assert_eq!(
        deletion_outcome(&two, &vec![Err(DuError::Null), Err(DuError::Null)]),
        (false, "Delete completed with 2 failures".to_string())
    );
}

#[test]
fn focusing() {
    let lamp = Prim {
        handle: 5,
        path: Some("/Lamp".to_string()),
        name: Some("Lamp".to_string()),
        prim_type: Some("SphereLight".to_string()),
        children: Some(vec![]),
    };
    let root = Prim {
        handle: 1,
        path: Some("/".to_string()),
        name: Some(String::new()),
        prim_type: Some(String::new()),
        children: Some(vec![lamp]),
    };
    let stage = Stage { root: Ok(root), up_axis: "Y".to_string() };
    assert!(matches!(plan_focus(None, Some("/Lamp")), FocusPlan::Nothing));
    assert!(matches!(plan_focus(Some(&stage), None), FocusPlan::Nothing));
    assert!(matches!(plan_focus(Some(&stage), Some("/Lamp")), FocusPlan::Frame { handle: 5, .. }));
    match plan_focus(Some(&stage), Some("/Gone")) {
        FocusPlan::NotFound(m) => assert_eq!(m, "Focus failed: selected prim not found"),
        _ => panic!("expected a failure"),
    }
    assert_eq!(focus_status(true, "/Lamp"), "Focused: /Lamp");
    assert_eq!(focus_status(false, "/Lamp"), "Focus failed: prim has no transform");
}

#[test]
fn opening_reports() {
    assert_eq!(opened_status("a.usda", &Ok(())), ("Opened: a.usda".to_string(), None));
    assert_eq!(
        opened_status("a.usda", &Err(DuError::Vulkan("no gpu".to_string()))),
        ("Opened (no renderer): a.usda".to_string(), Some("Vulkan error: no gpu".to_string()))
    );
}

#[test]
fn decimals() {
    assert_eq!(decimal_string(0), "0");
    assert_eq!(decimal_string(7), "7");
    assert_eq!(decimal_string(10), "10");
    assert_eq!(decimal_string(1234567890), "1234567890");
    assert_eq!(decimal_string(usize::MAX), usize::MAX.to_string());
}
