//! Properties that hold across the library's operations.
use vstd::prelude::*;
use crate::commands::{keep_topmost, seq_lt, strictly_sorted, lemma_seq_lt_irreflexive, lemma_seq_lt_transitive};
use crate::edits::{open_blocks, StageEdit};
use crate::hierarchy::{holds_selection, recorded_expansion, row_open};
use crate::paths::{is_ancestor_path, lemma_parent_is_ancestor, parent_path, lemma_last_index_bound};
use crate::properties::{
    attr_kind_of, bool_text, moved_name, moved_path, pin_after_check, row_write, spec_parse_bool,
    RowEdit,
};
use crate::scene::{
    find_in_stage, is_generic_group, is_xform, lemma_found_has_path, has_path, nearest_xform,
    transform_target, Prim, Stage,
};
use crate::hierarchy::rows_of;
use crate::numbers::is_float_text;
use crate::properties::{number_runs, vec3_parts};
use crate::unicode::lowercase_of;
use crate::viewer::{navigation_of, viewport_command_of, Navigation, PointerInput, ShortcutInput, ViewportCommand};
use crate::text::{ascii_lowercase, has_prefix, has_substring, occurs_at, last_index_of, trim, trim_end_char, trim_start, trim_end};
use crate::viewer::{display_mode_entry_mode, effective_space, other_space, wireframe_toggled, GizmoMode, GizmoSpace};
use crate::hydra::DisplayMode;

verus! {

/// Every ancestor that `parent_path` gives of the selected path holds the selection, so the
/// hierarchy marks the whole chain above a selected prim.
pub proof fn law_parent_holds_selection(selected: String)
    ensures
        parent_path(selected@) matches Some(q) ==> holds_selection(Some(selected), q),
{
    reveal_strlit("/");
    assert("/"@ =~= seq!['/']);
    lemma_parent_is_ancestor(selected@);
}

/// A search of the stage for a path finds, if anything, a prim with exactly that path.
pub proof fn law_found_prim_has_path(stage: Stage, path: Seq<char>)
    ensures
        find_in_stage(stage, path) matches Some(p) ==> has_path(p, path),
{
    if let Ok(root) = stage.root {
        lemma_found_has_path(root, path);
    }
}

/// The nearest `Xform` of a path names a prim of the stage, and that prim is an `Xform`.
pub proof fn law_nearest_xform_is_xform(stage: Stage, path: Seq<char>)
    ensures
        nearest_xform(stage, path) matches Some(x) ==> (find_in_stage(stage, x) matches Some(p) && is_xform(p)),
    decreases path.len(),
{
    match find_in_stage(stage, path) {
        None => {},
        Some(prim) => {
            if !is_xform(prim) {
                if let Some(q) = parent_path(path) {
                    crate::paths::lemma_parent_shorter(path);
                    law_nearest_xform_is_xform(stage, q);
                }
            }
        },
    }
}

/// A pin that survives the start of a frame names a prim of the open stage.
pub proof fn law_kept_pin_exists(pinned: Option<String>, stage: Option<Stage>)
    ensures
        pin_after_check(pinned, stage) matches Some(p) ==> (stage matches Some(s) && find_in_stage(s, p@) is Some),
{
}

proof fn lemma_keep_topmost_subset(s: Seq<Seq<char>>)
    ensures
        forall|x: Seq<char>| keep_topmost(s).contains(x) ==> s.contains(x),
    decreases s.len(),
{
    if s.len() > 0 {
        lemma_keep_topmost_subset(s.drop_last());
        assert forall|x: Seq<char>| keep_topmost(s).contains(x) implies s.contains(x) by {
            let kept = keep_topmost(s.drop_last());
            if kept.contains(x) {
                assert(s.drop_last().contains(x));
                let k = choose|k: int| 0 <= k < s.drop_last().len() && s.drop_last()[k] == x;
                assert(s[k] == x);
            } else {
                assert(s[s.len() - 1] == x);
            }
        }
    }
}

proof fn lemma_ancestor_sorts_first(a: Seq<char>, p: Seq<char>)
    requires
        is_ancestor_path(a, p),
    ensures
        seq_lt(a, p),
    decreases a.len(),
{
    if a.len() > 0 {
        assert(p.subrange(0, a.len() as int) == a);
        assert(p[0] == a[0]);
        let a1 = a.drop_first();
        let p1 = p.drop_first();
        assert(p1.subrange(0, a1.len() as int) =~= a1) by {
            assert forall|k: int| 0 <= k < a1.len() implies p1.subrange(0, a1.len() as int)[k] == a1[k] by {
                assert(p.subrange(0, a.len() as int)[k + 1] == a[k + 1]);
            }
        }
        assert(p1[a1.len() as int] == p[a.len() as int]);
        lemma_ancestor_sorts_first(a1, p1);
    }
}

/// Deleting a selection removes a set of paths in which no path lies below another, drawn
/// from the selection, and that covers it: every selected path is removed or lies below a
/// removed one.
pub proof fn law_deletion_targets(s: Seq<Seq<char>>)
    requires
        strictly_sorted(s),
    ensures
        forall|x: Seq<char>| keep_topmost(s).contains(x) ==> s.contains(x),
        forall|i: int, j: int|
            0 <= i < keep_topmost(s).len() && 0 <= j < keep_topmost(s).len() ==> !is_ancestor_path(
                #[trigger] keep_topmost(s)[i],
                #[trigger] keep_topmost(s)[j],
            ),
        forall|x: Seq<char>|
            s.contains(x) ==> keep_topmost(s).contains(x) || exists|k: int|
                0 <= k < keep_topmost(s).len() && is_ancestor_path(#[trigger] keep_topmost(s)[k], x),
    decreases s.len(),
{
    lemma_keep_topmost_subset(s);
    if s.len() > 0 {
        let t = s.drop_last();
        assert(strictly_sorted(t)) by {
            assert forall|i: int, j: int| 0 <= i < j < t.len() implies seq_lt(#[trigger] t[i], #[trigger] t[j]) by {
                assert(t[i] == s[i] && t[j] == s[j]);
            }
        }
        law_deletion_targets(t);
        lemma_keep_topmost_subset(t);
        let kept = keep_topmost(t);
        let x = s.last();
        let r = keep_topmost(s);
        // Nothing kept earlier lies below the last path, which sorts after all of them.
        assert forall|k: int| 0 <= k < kept.len() implies !is_ancestor_path(x, #[trigger] kept[k]) by {
            assert(t.contains(kept[k]));
            let m = choose|m: int| 0 <= m < t.len() && t[m] == kept[k];
            assert(s[m] == kept[k]);
            assert(seq_lt(s[m], s[s.len() - 1]));
            if is_ancestor_path(x, kept[k]) {
                lemma_ancestor_sorts_first(x, kept[k]);
                lemma_seq_lt_transitive(x, kept[k], x);
                lemma_seq_lt_irreflexive(x);
            }
        }
        assert forall|i: int, j: int| 0 <= i < r.len() && 0 <= j < r.len() implies !is_ancestor_path(
            #[trigger] r[i],
            #[trigger] r[j],
        ) by {
            if r == kept {
            } else {
                assert(r == kept.push(x));
                if i < kept.len() && j < kept.len() {
                    assert(r[i] == kept[i] && r[j] == kept[j]);
                } else if i < kept.len() {
                    assert(r[i] == kept[i] && r[j] == x);
                } else if j < kept.len() {
                    assert(r[i] == x && r[j] == kept[j]);
                } else {
                    assert(r[i] == x && r[j] == x);
                    assert(!(x.len() < x.len()));
                }
            }
        }
        assert forall|y: Seq<char>| s.contains(y) implies r.contains(y) || exists|k: int|
            0 <= k < r.len() && is_ancestor_path(#[trigger] r[k], y) by {
            if y == x {
                if r == kept {
                    let k = choose|k: int| 0 <= k < kept.len() && is_ancestor_path(#[trigger] kept[k], x);
                    assert(r[k] == kept[k]);
                } else {
                    assert(r[r.len() - 1] == x);
                }
            } else {
                let m = choose|m: int| 0 <= m < s.len() && s[m] == y;
                assert(m < s.len() - 1);
                assert(t[m] == y);
                assert(t.contains(y));
                if kept.contains(y) {
                    let k = choose|k: int| 0 <= k < kept.len() && kept[k] == y;
                    if r == kept {
                        assert(r[k] == y);
                    } else {
                        assert(r[k] == y);
                    }
                } else {
                    let k = choose|k: int| 0 <= k < kept.len() && is_ancestor_path(#[trigger] kept[k], y);
                    if r == kept {
                        assert(r[k] == kept[k]);
                    } else {
                        assert(r[k] == kept[k]);
                    }
                }
            }
        }
    }
}

/// What an attribute row's checkbox writes reads back as the boolean it was set to, and the
/// row shows it again as a checkbox.
pub proof fn law_bool_text_round_trip(name: Seq<char>, current: Seq<char>, b: bool)
    ensures
        row_write(current, RowEdit::Checked(b)) == Some(bool_text(b)),
        spec_parse_bool(bool_text(b)) == Some(b),
        attr_kind_of(name, bool_text(b)) == 2,
{
    reveal_strlit("true");
    reveal_strlit("false");
    reveal_strlit("1");
    reveal_strlit("yes");
    reveal_strlit("on");
    reveal_strlit("0");
    reveal_strlit("no");
    reveal_strlit("off");
    reveal_strlit("inherited");
    reveal_strlit("invisible");
    reveal_strlit("default");
    reveal_strlit("render");
    reveal_strlit("proxy");
    reveal_strlit("guide");
    let s = bool_text(b);
    assert(trim_start(s) == s);
    assert(trim_end(s) == s);
    assert(ascii_lowercase(s) =~= s);
    assert(trim(s) == s);
    assert(s != "inherited"@ && s != "invisible"@);
    assert(s != "default"@ && s != "render"@ && s != "proxy"@ && s != "guide"@);
}

/// An option chosen from a visibility or purpose row's menu is written where it differs
/// from the option shown, and the row shows the written value in the same menu again.
pub proof fn law_menu_choice_round_trip(name: Seq<char>, current: Seq<char>, choice: String)
    requires
        (name == "visibility"@ && (choice@ == "inherited"@ || choice@ == "invisible"@)) || (name
            == "purpose"@ && (choice@ == "default"@ || choice@ == "render"@ || choice@
            == "proxy"@ || choice@ == "guide"@)),
    ensures
        row_write(current, RowEdit::Chosen(choice)) == (if choice@ != trim(current) {
            Some(choice@)
        } else {
            None
        }),
        attr_kind_of(name, choice@) == (if name == "visibility"@ {
            0int
        } else {
            1int
        }),
{
    reveal_strlit("visibility");
    reveal_strlit("purpose");
    reveal_strlit("inherited");
    reveal_strlit("invisible");
    reveal_strlit("default");
    reveal_strlit("render");
    reveal_strlit("proxy");
    reveal_strlit("guide");
    let c = choice@;
    assert(trim_start(c) == c);
    assert(trim_end(c) == c);
    assert(trim(c) == c);
    assert("visibility"@.len() != "purpose"@.len());
}

/// The wireframe shortcut always lands on wireframe or smooth shading, and pressing it twice
/// from either of those comes back to it.
pub proof fn law_wireframe_toggle(i: usize)
    ensures
        display_mode_entry_mode(wireframe_toggled(i)) == DisplayMode::Wireframe
            || display_mode_entry_mode(wireframe_toggled(i)) == DisplayMode::SmoothShaded,
        (i == 0 || i == 1) ==> wireframe_toggled(wireframe_toggled(i)) == i,
{
}

/// Scaling always acts in local space, and switching space twice returns to the first.
pub proof fn law_gizmo_space(mode: GizmoMode, space: GizmoSpace)
    ensures
        mode == GizmoMode::Scale ==> effective_space(mode, space) == GizmoSpace::Local,
        other_space(other_space(space)) == space,
        other_space(space) != space,
{
}

/// A row's expansion, once set, is what the panel reads back for that path, whatever the
/// row's name; other paths keep theirs.
pub proof fn law_expansion_read_back(
    before: Seq<(String, bool)>,
    after: Seq<(String, bool)>,
    path: Seq<char>,
    open: bool,
)
    requires
        recorded_expansion(after, path) == Some(open),
        forall|q: Seq<char>| q != path ==> recorded_expansion(after, q) == recorded_expansion(before, q),
    ensures
        forall|name: Seq<char>| row_open(after, path, name) == open,
        forall|q: Seq<char>, name: Seq<char>| q != path ==> row_open(after, q, name) == row_open(before, q, name),
{
}

/// A prim moved under a parent path other than the empty one gets a path whose parent is
/// that parent path.
pub proof fn law_moved_path_parent(current: Seq<char>, target: Seq<char>)
    requires
        target.len() > 0,
    ensures
        parent_path(moved_path(current, target)) == Some(target),
{
    let name = moved_name(current);
    lemma_moved_name_plain(current);
    reveal_strlit("/");
    let m = moved_path(current, target);
    let base = if target == "/"@ { Seq::<char>::empty() } else { target };
    assert(m =~= base + seq!['/'] + name);
    assert(m.len() > 1);
    if m == seq!['/'] {
        assert(m.len() == 1);
    }
    // The last character is part of the name, so nothing trails.
    assert(m.last() == name.last());
    assert(trim_end_char(m, '/') == m);
    // The last `/` is the one just before the name.
    lemma_last_slash(base, name);
    if target == "/"@ {
        assert(m.subrange(0, 0) =~= Seq::<char>::empty());
    } else {
        assert(m.subrange(0, base.len() as int) =~= target);
    }
}

proof fn lemma_moved_name_plain(p: Seq<char>)
    ensures
        moved_name(p).len() > 0,
        !moved_name(p).contains('/'),
{
    reveal_strlit("Prim");
    lemma_last_index_bound(p, '/');
    let seg = match last_index_of(p, '/') {
        None => p,
        Some(i) => p.subrange(i + 1, p.len() as int),
    };
    lemma_no_slash_after_last(p);
    if seg.len() == 0 {
        assert("Prim"@ =~= seq!['P', 'r', 'i', 'm']);
        assert(!"Prim"@.contains('/')) by {
            if "Prim"@.contains('/') {
                let k = choose|k: int| 0 <= k < 4 && "Prim"@[k] == '/';
            }
        }
    }
}

proof fn lemma_no_slash_after_last(p: Seq<char>)
    ensures
        last_index_of(p, '/') matches Some(i) ==> !p.subrange(i + 1, p.len() as int).contains('/'),
        last_index_of(p, '/') is None ==> !p.contains('/'),
    decreases p.len(),
{
    if p.len() > 0 {
        lemma_no_slash_after_last(p.drop_last());
        if p.last() != '/' {
            match last_index_of(p.drop_last(), '/') {
                Some(i) => {
                    lemma_last_index_bound(p.drop_last(), '/');
                    let a = p.drop_last().subrange(i + 1, p.len() - 1);
                    let b = p.subrange(i + 1, p.len() as int);
                    assert(b =~= a.push(p.last()));
                    if b.contains('/') {
                        let k = choose|k: int| 0 <= k < b.len() && b[k] == '/';
                        if k < a.len() {
                            assert(a[k] == '/');
                        }
                    }
                },
                None => {
                    if p.contains('/') {
                        let k = choose|k: int| 0 <= k < p.len() && p[k] == '/';
                        assert(p.drop_last()[k] == '/');
                    }
                },
            }
        } else {
            assert(p.subrange(p.len() as int, p.len() as int).len() == 0);
        }
    }
}

proof fn lemma_last_slash(base: Seq<char>, name: Seq<char>)
    requires
        name.len() > 0,
        !name.contains('/'),
    ensures
        last_index_of(base + seq!['/'] + name, '/') == Some(base.len() as int),
{
    let m = base + seq!['/'] + name;
    assert forall|k: int| base.len() < k < m.len() implies #[trigger] m[k] != '/' by {
        assert(m[k] == name[k - base.len() - 1]);
    }
    assert(m[base.len() as int] == '/');
    lemma_last_index_found(m, '/', base.len() as int);
}

proof fn lemma_last_index_found(s: Seq<char>, c: char, k: int)
    requires
        0 <= k < s.len(),
        s[k] == c,
        forall|m: int| k < m < s.len() ==> #[trigger] s[m] != c,
    ensures
        last_index_of(s, c) == Some(k),
    decreases s.len(),
{
    if k < s.len() - 1 {
        let t = s.drop_last();
        assert forall|m: int| k < m < t.len() implies #[trigger] t[m] != c by {
            assert(t[m] == s[m]);
        }
        lemma_last_index_found(t, c, k);
    }
}

/// A gizmo drag frame with a stage open, that does not start a drag while one is held,
/// changes the number of open undo blocks exactly as it changes whether a handle is held:
/// a block is open exactly while a handle is held.
pub proof fn law_drag_keeps_undo_balance(
    held_before: bool,
    held_after: bool,
    edits: Seq<StageEdit>,
    grabbed: bool,
    stopped: bool,
)
    requires
        grabbed ==> !held_before,
        held_after == (!stopped && (grabbed || held_before)),
        edits == (if grabbed {
            seq![StageEdit::UndoBegin]
        } else {
            Seq::empty()
        }) + (if stopped && (grabbed || held_before) {
            seq![StageEdit::UndoEnd]
        } else {
            Seq::empty()
        }),
    ensures
        open_blocks(edits) == (if held_after { 1int } else { 0int }) - (if held_before { 1int } else { 0int }),
{
    let b = seq![StageEdit::UndoBegin];
    let e = seq![StageEdit::UndoEnd];
    assert(open_blocks(Seq::<StageEdit>::empty()) == 0);
    assert(b.drop_last() =~= Seq::<StageEdit>::empty());
    assert(e.drop_last() =~= Seq::<StageEdit>::empty());
    assert(open_blocks(b) == 1);
    assert(open_blocks(e) == -1);
    if grabbed && stopped {
        assert(edits =~= seq![StageEdit::UndoBegin, StageEdit::UndoEnd]);
        assert(edits.drop_last() =~= b);
    } else if grabbed {
        assert(edits =~= b);
    } else if stopped && held_before {
        assert(edits =~= e);
    } else {
        assert(edits =~= Seq::<StageEdit>::empty());
    }
}

/// The hierarchy's search matches anywhere in a prim's name or type name: a prim whose
/// lowercased name, or lowercased type name, holds the lowercased search text at any position
/// is shown, as the first row of its subtree, at the depth it is drawn at.
pub proof fn law_search_matches_anywhere(
    p: Prim,
    d: usize,
    filter: Seq<char>,
    exp: Seq<(String, bool)>,
    k: int,
)
    requires
        (p.name matches Some(n) && occurs_at(lowercase_of(n@), lowercase_of(filter), k)) || (
        p.prim_type matches Some(t) && occurs_at(lowercase_of(t@), lowercase_of(filter), k)),
    ensures
        rows_of(p, d, filter, exp).len() > 0,
        rows_of(p, d, filter, exp)[0].0 == p.handle,
        rows_of(p, d, filter, exp)[0].4 == d,
{
    if let Some(n) = p.name {
        if occurs_at(lowercase_of(n@), lowercase_of(filter), k) {
            assert(has_substring(lowercase_of(n@), lowercase_of(filter)));
        }
    }
    if let Some(t) = p.prim_type {
        if occurs_at(lowercase_of(t@), lowercase_of(filter), k) {
            assert(has_substring(lowercase_of(t@), lowercase_of(filter)));
        }
    }
}

/// A prim whose lowercased name holds the lowercased search text anywhere, say as `x + f + y`,
/// is shown.
pub proof fn law_search_matches_inside_names(
    p: Prim,
    d: usize,
    filter: Seq<char>,
    exp: Seq<(String, bool)>,
    x: Seq<char>,
    y: Seq<char>,
)
    requires
        p.name matches Some(n) && lowercase_of(n@) == x + lowercase_of(filter) + y,
    ensures
        rows_of(p, d, filter, exp).len() > 0,
        rows_of(p, d, filter, exp)[0].0 == p.handle,
{
    let f = lowercase_of(filter);
    let n = p.name.unwrap();
    assert forall|j: int| 0 <= j < f.len() implies #[trigger] lowercase_of(n@)[x.len() + j] == f[j] by {
        assert((x + f + y)[x.len() + j] == f[j]);
    }
    assert(lowercase_of(n@).subrange(x.len() as int, (x.len() + f.len()) as int) =~= f);
    assert(occurs_at(lowercase_of(n@), f, x.len() as int));
    law_search_matches_anywhere(p, d, filter, exp, x.len() as int);
}

/// A selected `Xform` that is not a generic geometry group is its own transform target: the
/// gizmo and the transform editor act on the selected prim itself, not on an Xform above it.
pub proof fn law_plain_xform_is_its_own_target(stage: Stage, sel: Seq<char>)
    requires
        find_in_stage(stage, sel) matches Some(prim) && (prim.prim_type matches Some(t) && t@
            == "Xform"@) && !(prim.name matches Some(n) && is_generic_group(n@)),
    ensures
        transform_target(stage, sel) == Some(sel),
{
    let prim = find_in_stage(stage, sel).unwrap();
    assert(is_xform(prim));
    if prim.name is None {
        reveal_strlit("Geom");
        reveal_strlit("Geometry");
        reveal_strlit("geo");
        reveal_strlit("geometry");
        reveal_strlit("mesh");
        reveal_strlit("meshes");
        reveal_strlit("render");
        reveal_strlit("Render");
        assert("Geom"@.len() > 0 && "Geometry"@.len() > 0 && "geo"@.len() > 0 && "geometry"@.len() > 0);
        assert("mesh"@.len() > 0 && "meshes"@.len() > 0 && "render"@.len() > 0 && "Render"@.len() > 0);
        assert(!is_generic_group(Seq::<char>::empty()));
    }
}

/// The number texts a 3-vector editor edits are all the runs of number characters in the
/// value that spell numbers, and there are exactly three of them: a value with four numbers,
/// such as a colour with alpha, is no 3-vector.
pub proof fn law_vec3_has_exactly_three_numbers(raw: Seq<char>)
    ensures
        vec3_parts(raw) is Some <==> number_runs(raw).filter(|t: Seq<char>| is_float_text(t)).len() == 3,
        vec3_parts(raw) matches Some(v) ==> v == number_runs(raw).filter(|t: Seq<char>| is_float_text(t))
            && v.len() == 3,
        number_runs(raw).filter(|t: Seq<char>| is_float_text(t)).len() > 3 ==> vec3_parts(raw) is None,
{
}

/// Backspace deletes the selection just as Delete does: over the viewport, with no text field
/// focused and none of Q, W, E, R, X or F pressed, either key gives the delete command.
pub proof fn law_backspace_deletes(i: ShortcutInput, mode: GizmoMode)
    requires
        i.pointer_over_viewport,
        !i.editing_text,
        !i.key_q && !i.key_w && !i.key_e && !i.key_r && !i.key_x && !i.key_f,
        i.key_backspace || i.key_delete,
    ensures
        viewport_command_of(i, mode) == Some(ViewportCommand::DeleteSelection),
{
}

/// While no gizmo handle is held, a middle-button drag always pans the camera, with or
/// without Alt.
pub proof fn law_middle_drag_pans(i: PointerInput)
    requires
        i.middle_dragged,
    ensures
        navigation_of(i, false).contains(Navigation::Pan),
{
    let nav = navigation_of(i, false);
    let e = Seq::<Navigation>::empty();
    let a = if i.alt {
        if i.primary_dragged { seq![Navigation::Orbit] } else { e }
    } else if i.secondary_dragged {
        if i.shift { seq![Navigation::Pan] } else { seq![Navigation::Orbit] }
    } else {
        e
    };
    assert(nav[a.len() as int] == Navigation::Pan);
}

} // verus!
