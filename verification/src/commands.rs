//! Deleting the selection, and the status messages of the file and history commands.
use vstd::prelude::*;
use crate::edits::{well_bracketed, is_plain, in_undo_block, lemma_undo_block_balanced, undo_block, StageEdit};
use crate::error::{error_text, DuError};
use crate::fmt::{decimal, decimal_string};
use crate::paths::{is_ancestor_of, is_ancestor_path};
use crate::text::str_eq;

verus! {

/// `a` sorts strictly before `b`: lexicographic order of characters by code point (the order
/// of `String`, whose byte order in UTF-8 agrees with code point order).
pub open spec fn seq_lt(a: Seq<char>, b: Seq<char>) -> bool
    decreases a.len(),
{
    if a.len() == 0 {
        b.len() > 0
    } else if b.len() == 0 {
        false
    } else if a[0] != b[0] {
        a[0] < b[0]
    } else {
        seq_lt(a.drop_first(), b.drop_first())
    }
}

pub proof fn lemma_seq_lt_irreflexive(a: Seq<char>)
    ensures
        !seq_lt(a, a),
    decreases a.len(),
{
    if a.len() > 0 {
        lemma_seq_lt_irreflexive(a.drop_first());
    }
}

pub proof fn lemma_seq_lt_transitive(a: Seq<char>, b: Seq<char>, c: Seq<char>)
    requires
        seq_lt(a, b),
        seq_lt(b, c),
    ensures
        seq_lt(a, c),
    decreases a.len(),
{
    if a.len() > 0 && b.len() > 0 && c.len() > 0 {
        if a[0] == b[0] && b[0] == c[0] {
            lemma_seq_lt_transitive(a.drop_first(), b.drop_first(), c.drop_first());
        }
    }
}

pub proof fn lemma_seq_lt_total(a: Seq<char>, b: Seq<char>)
    ensures
        a == b || seq_lt(a, b) || seq_lt(b, a),
    decreases a.len(),
{
    if a.len() > 0 && b.len() > 0 {
        if a[0] == b[0] {
            lemma_seq_lt_total(a.drop_first(), b.drop_first());
            if a.drop_first() == b.drop_first() {
                assert(a =~= seq![a[0]] + a.drop_first());
                assert(b =~= seq![b[0]] + b.drop_first());
            }
        } else {
        }
    } else if a.len() == 0 && b.len() == 0 {
        assert(a =~= b);
    }
}

/// Whether `a` sorts strictly before `b` (see `seq_lt`).
pub fn str_lt(a: &str, b: &str) -> (r: bool)
    ensures
        r == seq_lt(a@, b@),
{
    let n = a.unicode_len();
    let m = b.unicode_len();
    let mut i: usize = 0;
    assert(a@.subrange(0, n as int) =~= a@);
    assert(b@.subrange(0, m as int) =~= b@);
    while i < n && i < m && a.get_char(i) == b.get_char(i)
        invariant
            n == a@.len(),
            m == b@.len(),
            i <= n,
            i <= m,
            forall|k: int| 0 <= k < i ==> a@[k] == b@[k],
            seq_lt(a@, b@) == seq_lt(a@.subrange(i as int, n as int), b@.subrange(i as int, m as int)),
        decreases n - i,
    {
        proof {
            let sa = a@.subrange(i as int, n as int);
            let sb = b@.subrange(i as int, m as int);
            assert(sa.drop_first() =~= a@.subrange(i + 1, n as int));
            assert(sb.drop_first() =~= b@.subrange(i + 1, m as int));
        }
        i = i + 1;
    }
    if i == n {
        i < m
    } else if i == m {
        false
    } else {
        let ca = a.get_char(i);
        let cb = b.get_char(i);
        proof {
            assert(a@.subrange(i as int, n as int)[0] == ca);
            assert(b@.subrange(i as int, m as int)[0] == cb);
        }
        ca < cb
    }
}

/// `s` is strictly increasing.
pub open spec fn strictly_sorted(s: Seq<Seq<char>>) -> bool {
    forall|i: int, j: int| 0 <= i < j < s.len() ==> seq_lt(#[trigger] s[i], #[trigger] s[j])
}

pub open spec fn views(v: Seq<String>) -> Seq<Seq<char>> {
    v.map_values(|s: String| s@)
}

/// Of the sorted candidates, those with no strict ancestor among the ones kept before them.
pub open spec fn keep_topmost(s: Seq<Seq<char>>) -> Seq<Seq<char>>
    decreases s.len(),
{
    if s.len() == 0 {
        Seq::empty()
    } else {
        let kept = keep_topmost(s.drop_last());
        if exists|i: int| 0 <= i < kept.len() && is_ancestor_path(#[trigger] kept[i], s.last()) {
            kept
        } else {
            kept.push(s.last())
        }
    }
}

/// What deleting the selection does.
pub enum DeletionPlan {
    /// Nothing is selected: nothing happens.
    Nothing,
    /// Only the pseudo-root is selected: nothing is removed, and the status says so.
    PseudoRootOnly(String),
    /// The targets are removed, in order, inside one undo block.
    Remove { targets: Vec<String>, edits: Vec<StageEdit> },
}

/// Inserts `x` into the strictly increasing `v`, unless it is already there.
fn insert_sorted_unique(v: &mut Vec<String>, x: &str)
    requires
        strictly_sorted(views(old(v)@)),
    ensures
        strictly_sorted(views(final(v)@)),
        forall|y: Seq<char>| views(final(v)@).contains(y) <==> (views(old(v)@).contains(y) || y == x@),
{
    let n = v.len();
    let mut i: usize = 0;
    while i < n && str_lt(v[i].as_str(), x)
        invariant
            n == v@.len(),
            i <= n,
            v@ == old(v)@,
            strictly_sorted(views(v@)),
            forall|k: int| 0 <= k < i ==> seq_lt(#[trigger] v@[k]@, x@),
        decreases n - i,
    {
        i = i + 1;
    }
    let ghost vs = views(v@);
    if i < n && str_eq(v[i].as_str(), x) {
        assert(vs[i as int] == x@);
        return;
    }
    proof {
        if i < n {
            lemma_seq_lt_total(v@[i as int]@, x@);
        }
    }
    let item = String::from_str(x);
    v.insert(i, item);
    proof {
        let ws = views(v@);
        assert(ws =~= vs.insert(i as int, x@));
        assert forall|a: int, b: int| 0 <= a < b < ws.len() implies seq_lt(#[trigger] ws[a], #[trigger] ws[b]) by {
            if a < i && b == i {
                assert(ws[a] == vs[a]);
            } else if a < i && b > i {
                assert(ws[a] == vs[a]);
                assert(ws[b] == vs[b - 1]);
            } else if a == i && b > i {
                assert(ws[b] == vs[b - 1]);
                if b - 1 > i {
                    lemma_seq_lt_transitive(x@, vs[i as int], vs[b - 1]);
                }
            } else if a > i {
                assert(ws[a] == vs[a - 1]);
                assert(ws[b] == vs[b - 1]);
            } else {
                assert(ws[a] == vs[a]);
                assert(ws[b] == vs[b]);
            }
        }
        assert forall|y: Seq<char>| ws.contains(y) <==> (vs.contains(y) || y == x@) by {
            if ws.contains(y) {
                let k = choose|k: int| 0 <= k < ws.len() && ws[k] == y;
                if k < i {
                    assert(vs[k] == y);
                } else if k > i {
                    assert(vs[k - 1] == y);
                }
            }
            if vs.contains(y) {
                let k = choose|k: int| 0 <= k < vs.len() && vs[k] == y;
                if k < i {
                    assert(ws[k] == y);
                } else {
                    assert(ws[k + 1] == y);
                }
            }
            if y == x@ {
                assert(ws[i as int] == y);
            }
        }
    }
}

/// The selected paths without `/`, each once, in increasing order.
pub fn sorted_selection(selected: &Vec<String>) -> (r: Vec<String>)
    ensures
        strictly_sorted(views(r@)),
        forall|y: Seq<char>| views(r@).contains(y) <==> (views(selected@).contains(y) && y != "/"@),
{
    let mut out: Vec<String> = Vec::new();
    let n = selected.len();
    let mut i: usize = 0;
    while i < n
        invariant
            n == selected@.len(),
            i <= n,
            strictly_sorted(views(out@)),
            forall|y: Seq<char>| views(out@).contains(y) <==> (views(selected@.subrange(0, i as int)).contains(y)
                && y != "/"@),
        decreases n - i,
    {
        let ghost before = views(out@);
        if !str_eq(selected[i].as_str(), "/") {
            insert_sorted_unique(&mut out, selected[i].as_str());
        }
        proof {
            let pre = views(selected@.subrange(0, i as int));
            let post = views(selected@.subrange(0, i + 1));
            assert(post =~= pre.push(selected@[i as int]@));
            assert forall|y: Seq<char>| views(out@).contains(y) <==> (post.contains(y) && y != "/"@) by {
                if post.contains(y) {
                    let k = choose|k: int| 0 <= k < post.len() && post[k] == y;
                    if k < i {
                        assert(pre[k] == y);
                    }
                }
                if pre.contains(y) {
                    let k = choose|k: int| 0 <= k < pre.len() && pre[k] == y;
                    assert(post[k] == y);
                }
                if y == selected@[i as int]@ {
                    assert(post[i as int] == y);
                }
            }
        }
        i = i + 1;
    }
    assert(selected@.subrange(0, n as int) =~= selected@);
    out
}

/// The sorted paths, without those below a path kept before them (see `keep_topmost`).
pub fn topmost_paths(sorted: &Vec<String>) -> (r: Vec<String>)
    ensures
        views(r@) == keep_topmost(views(sorted@)),
{
    let mut kept: Vec<String> = Vec::new();
    let n = sorted.len();
    let mut i: usize = 0;
    while i < n
        invariant
            n == sorted@.len(),
            i <= n,
            views(kept@) == keep_topmost(views(sorted@).subrange(0, i as int)),
        decreases n - i,
    {
        let path = sorted[i].as_str();
        let m = kept.len();
        let mut j: usize = 0;
        while j < m && !is_ancestor_of(kept[j].as_str(), path)
            invariant
                m == kept@.len(),
                j <= m,
                forall|k: int| 0 <= k < j ==> !is_ancestor_path(#[trigger] kept@[k]@, path@),
            decreases m - j,
        {
            j = j + 1;
        }
        let ghost pre = views(sorted@).subrange(0, i as int);
        let ghost post = views(sorted@).subrange(0, i + 1);
        proof {
            assert(post.drop_last() =~= pre);
            assert(post.last() == path@);
        }
        if j == m {
            proof {
                let kv = views(kept@);
                assert forall|k: int| 0 <= k < kv.len() implies !is_ancestor_path(#[trigger] kv[k], post.last()) by {
                    assert(kv[k] == kept@[k]@);
                }
            }
            let item = sorted[i].clone();
            let ghost kv = views(kept@);
            kept.push(item);
            assert(views(kept@) =~= kv.push(path@));
        } else {
            proof {
                let kv = views(kept@);
                assert(kv[j as int] == kept@[j as int]@);
                assert(is_ancestor_path(kv[j as int], post.last()));
            }
        }
        i = i + 1;
    }
    assert(views(sorted@).subrange(0, n as int) =~= views(sorted@));
    kept
}

/// What deleting the selected paths does: nothing where nothing is selected; a refusal where
/// only `/` is; else the removal, in increasing order, of each selected path that lies below
/// no other selected path, inside one undo block.
pub fn plan_deletion(selected: &Vec<String>) -> (r: DeletionPlan)
    ensures
        selected@.len() == 0 ==> r is Nothing,
        selected@.len() > 0 && (forall|k: int| 0 <= k < selected@.len() ==> (#[trigger] selected@[k])@ == "/"@)
            ==> (r matches DeletionPlan::PseudoRootOnly(m) && m@ == "Cannot delete the pseudo-root"@),
        r matches DeletionPlan::Remove { targets, edits } ==> {
            &&& targets@.len() > 0
            &&& exists|sorted: Seq<Seq<char>>| {
                &&& strictly_sorted(sorted)
                &&& (forall|y: Seq<char>| sorted.contains(y) <==> (views(selected@).contains(y) && y != "/"@))
                &&& views(targets@) == keep_topmost(sorted)
            }
            &&& edits@.len() == targets@.len() + 2
            &&& edits@[0] is UndoBegin
            &&& edits@.last() is UndoEnd
            &&& forall|k: int| 0 <= k < targets@.len() ==> (#[trigger] edits@[k + 1] matches StageEdit::RemovePrim { path }
                && path@ == targets@[k]@)
            &&& well_bracketed(edits@)
        },
        (r is Remove) <==> (exists|k: int| 0 <= k < selected@.len() && (#[trigger] selected@[k])@ != "/"@),
{
    if selected.len() == 0 {
        return DeletionPlan::Nothing;
    }
    let sorted = sorted_selection(selected);
    if sorted.len() == 0 {
        proof {
            assert forall|k: int| 0 <= k < selected@.len() implies (#[trigger] selected@[k])@ == "/"@ by {
                let y = selected@[k]@;
                assert(views(selected@)[k] == y);
                if y != "/"@ {
                    assert(views(selected@).contains(y));
                    assert(views(sorted@).contains(y));
                }
            }
        }
        return DeletionPlan::PseudoRootOnly(String::from_str("Cannot delete the pseudo-root"));
    }
    proof {
        let y = views(sorted@)[0];
        assert(views(sorted@).contains(y));
        let k = choose|k: int| 0 <= k < selected@.len() && views(selected@)[k] == y;
        assert(selected@[k]@ == y);
    }
    let targets = topmost_paths(&sorted);
    proof {
        lemma_keep_topmost_nonempty(views(sorted@));
    }
    let mut body: Vec<StageEdit> = Vec::new();
    let n = targets.len();
    let mut i: usize = 0;
    while i < n
        invariant
            n == targets@.len(),
            i <= n,
            body@.len() == i,
            forall|k: int| 0 <= k < i ==> (#[trigger] body@[k] matches StageEdit::RemovePrim { path }
                && path@ == targets@[k]@),
        decreases n - i,
    {
        body.push(StageEdit::RemovePrim { path: targets[i].clone() });
        i = i + 1;
    }
    let ghost b = body@;
    let edits = undo_block(true, body);
    proof {
        assert forall|k: int| 0 <= k < b.len() implies is_plain(#[trigger] b[k]) by {}
        lemma_undo_block_balanced(true, b, edits@);
        assert forall|k: int| 0 <= k < targets@.len() implies (#[trigger] edits@[k + 1] matches StageEdit::RemovePrim { path }
            && path@ == targets@[k]@) by {
            assert(edits@[k + 1] == b[k]);
        }
        assert(edits@.last() == StageEdit::UndoEnd);
    }
    DeletionPlan::Remove { targets, edits }
}

proof fn lemma_keep_topmost_nonempty(s: Seq<Seq<char>>)
    requires
        s.len() > 0,
    ensures
        keep_topmost(s).len() > 0,
    decreases s.len(),
{
    if s.drop_last().len() > 0 {
        lemma_keep_topmost_nonempty(s.drop_last());
    }
}

/// The text of a failed removal: the path, then the error.
pub open spec fn failure_text(path: Seq<char>, e: DuError) -> Seq<char> {
    path + ": "@ + error_text(e)
}

/// The failures of a deletion, in order, as texts.
pub open spec fn failures_of(targets: Seq<String>, results: Seq<Result<(), DuError>>) -> Seq<Seq<char>>
    decreases results.len(),
{
    if results.len() == 0 {
        Seq::empty()
    } else {
        let prev = failures_of(targets, results.drop_last());
        let k = results.len() - 1;
        match results[k] {
            Ok(()) => prev,
            Err(e) => prev.push(failure_text(targets[k]@, e)),
        }
    }
}

/// What the status bar says after a deletion, and whether the selection is cleared: all
/// removed clears it and names the one target or counts them; failures name the one failure
/// or count them, and clear the selection where anything was removed.
pub open spec fn deletion_report(targets: Seq<String>, failures: Seq<Seq<char>>) -> (bool, Seq<char>) {
    if failures.len() == 0 {
        (true, if targets.len() == 1 {
            "Deleted: "@ + targets[0]@
        } else {
            "Deleted "@ + decimal(targets.len()) + " prims"@
        })
    } else {
        (targets.len() != failures.len(), if failures.len() == 1 {
            "Delete failed: "@ + failures[0]
        } else {
            "Delete completed with "@ + decimal(failures.len()) + " failures"@
        })
    }
}

/// The report after removing `targets`, where `results[k]` is how removing `targets[k]` went
/// (see `deletion_report`).
pub fn deletion_outcome(targets: &Vec<String>, results: &Vec<Result<(), DuError>>) -> (r: (bool, String))
    requires
        targets@.len() == results@.len(),
        targets@.len() > 0,
    ensures
        (r.0, r.1@) == deletion_report(targets@, failures_of(targets@, results@)),
{
    let mut failures: Vec<String> = Vec::new();
    let n = results.len();
    let mut i: usize = 0;
    while i < n
        invariant
            n == results@.len(),
            n == targets@.len(),
            i <= n,
            views(failures@) == failures_of(targets@, results@.subrange(0, i as int)),
        decreases n - i,
    {
        let ghost pre = results@.subrange(0, i as int);
        let ghost post = results@.subrange(0, i + 1);
        proof {
            assert(post.drop_last() =~= pre);
        }
        match &results[i] {
            Ok(()) => {},
            Err(e) => {
                let text = targets[i].clone().concat(": ").concat(e.to_message().as_str());
                let ghost fv = views(failures@);
                failures.push(text);
                assert(views(failures@) =~= fv.push(failure_text(targets@[i as int]@, *e)));
            },
        }
        i = i + 1;
    }
    assert(results@.subrange(0, n as int) =~= results@);
    let fails = failures.len();
    if fails == 0 {
        let message = if targets.len() == 1 {
            String::from_str("Deleted: ").concat(targets[0].as_str())
        } else {
            String::from_str("Deleted ").concat(decimal_string(targets.len()).as_str()).concat(" prims")
        };
        (true, message)
    } else {
        let message = if fails == 1 {
            proof {
                assert(views(failures@)[0] == failures@[0]@);
            }
            String::from_str("Delete failed: ").concat(failures[0].as_str())
        } else {
            String::from_str("Delete completed with ").concat(decimal_string(fails).as_str()).concat(
                " failures",
            )
        };
        (targets.len() != fails, message)
    }
}

/// What framing the selected prim does before its position is read.
pub enum FocusPlan {
    /// No stage or no selection: nothing happens.
    Nothing,
    /// The selection names no prim: the status says so.
    NotFound(String),
    /// Frame the prim with this handle; the selected path names it.
    Frame { handle: usize, path: String },
}

/// Plans framing the selected prim (see `FocusPlan`).
pub fn plan_focus(stage: Option<&crate::scene::Stage>, selected_path: Option<&str>) -> (r: FocusPlan)
    ensures
        stage is None || selected_path is None ==> r is Nothing,
        stage is Some && selected_path is Some ==> match crate::scene::find_in_stage(
            *stage.unwrap(),
            selected_path.unwrap()@,
        ) {
            None => r matches FocusPlan::NotFound(m) && m@ == "Focus failed: selected prim not found"@,
            Some(p) => r matches FocusPlan::Frame { handle, path } && handle == p.handle && path@
                == selected_path.unwrap()@,
        },
{
    let stage = match stage {
        None => {
            return FocusPlan::Nothing;
        },
        Some(s) => s,
    };
    let selected = match selected_path {
        None => {
            return FocusPlan::Nothing;
        },
        Some(p) => p,
    };
    match crate::scene::find_prim_recursive(stage, selected) {
        None => FocusPlan::NotFound(String::from_str("Focus failed: selected prim not found")),
        Some(prim) => FocusPlan::Frame { handle: prim.handle, path: String::from_str(selected) },
    }
}

/// Where a prim stands in the world: its world pivot where the stage gives one, else the
/// translation column of its world matrix (a 4x4 matrix stored column by column, so its
/// entries twelve to fourteen), else nowhere.
pub fn prim_position<T: Copy>(world_pivot: Option<[T; 3]>, world_matrix: Option<[T; 16]>) -> (r: Option<[T; 3]>)
    ensures
        world_pivot is Some ==> r == world_pivot,
        world_pivot is None ==> match world_matrix {
            Some(m) => r matches Some(p) && p@ == seq![m@[12], m@[13], m@[14]],
            None => r is None,
        },
{
    if let Some(pivot) = world_pivot {
        return Some(pivot);
    }
    match world_matrix {
        Some(m) => {
            let p = [m[12], m[13], m[14]];
            assert(p@ =~= seq![m@[12], m@[13], m@[14]]);
            Some(p)
        },
        None => None,
    }
}

/// The status line once the framed prim's position was read, or could not be.
pub fn focus_status(has_position: bool, path: &str) -> (r: String)
    ensures
        has_position ==> r@ == "Focused: "@ + path@,
        !has_position ==> r@ == "Focus failed: prim has no transform"@,
{
    if has_position {
        String::from_str("Focused: ").concat(path)
    } else {
        String::from_str("Focus failed: prim has no transform")
    }
}

/// The status line after a stage was opened from `path_text`, and the renderer error to show
/// where the renderer could not be created.
pub fn opened_status(path_text: &str, renderer: &Result<(), DuError>) -> (r: (String, Option<String>))
    ensures
        renderer is Ok ==> r.0@ == "Opened: "@ + path_text@ && r.1 is None,
        renderer matches Err(e) ==> r.0@ == "Opened (no renderer): "@ + path_text@ && (r.1 matches Some(m)
            && m@ == error_text(*e)),
{
    match renderer {
        Ok(()) => (String::from_str("Opened: ").concat(path_text), None),
        Err(e) => (String::from_str("Opened (no renderer): ").concat(path_text), Some(e.to_message())),
    }
}

} // verus!
