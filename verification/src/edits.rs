//! Edits of an opened stage, as the viewer issues them to the USD bridge, and the undo blocks
//! that group them.
use vstd::prelude::*;

verus! {

/// One request to the stage. Prims are named by the handle of their `Prim`.
pub enum StageEdit {
    UndoBegin,
    UndoEnd,
    SetAttribute { prim: usize, name: String, value: String },
    SetVariantSelection { prim: usize, set_name: String, variant: String },
    SetMaterialParam { prim: usize, name: String, value: String },
    Reparent { prim: usize, new_parent: String },
    RemovePrim { path: String },
    CreatePrim { path: String, prim_type: String },
}

/// The edit opens or closes no undo block.
pub open spec fn is_plain(e: StageEdit) -> bool {
    !(e is UndoBegin) && !(e is UndoEnd)
}

/// `edits` is `body` inside one undo block where there is a stage, and `body` alone where
/// there is none.
pub open spec fn in_undo_block(has_stage: bool, body: Seq<StageEdit>, edits: Seq<StageEdit>) -> bool {
    if has_stage {
        edits == seq![StageEdit::UndoBegin] + body + seq![StageEdit::UndoEnd]
    } else {
        edits == body
    }
}

/// Undo blocks in `edits` open and close in turn, and none is left open: the number of
/// blocks open after each prefix is 0 or 1, and 0 at the end.
pub open spec fn open_blocks(edits: Seq<StageEdit>) -> int
    decreases edits.len(),
{
    if edits.len() == 0 {
        0
    } else {
        open_blocks(edits.drop_last()) + match edits.last() {
            StageEdit::UndoBegin => 1int,
            StageEdit::UndoEnd => -1int,
            _ => 0int,
        }
    }
}

pub open spec fn well_bracketed(edits: Seq<StageEdit>) -> bool {
    &&& forall|k: int| 0 <= k <= edits.len() ==> 0 <= #[trigger] open_blocks(edits.subrange(0, k)) <= 1
    &&& open_blocks(edits) == 0
}

proof fn lemma_plain_open_blocks(body: Seq<StageEdit>)
    requires
        forall|k: int| 0 <= k < body.len() ==> is_plain(#[trigger] body[k]),
    ensures
        open_blocks(body) == 0,
    decreases body.len(),
{
    if body.len() > 0 {
        lemma_plain_open_blocks(body.drop_last());
    }
}

/// Any body of plain edits, wrapped by `in_undo_block`, keeps undo blocks balanced.
pub proof fn lemma_undo_block_balanced(has_stage: bool, body: Seq<StageEdit>, edits: Seq<StageEdit>)
    requires
        forall|k: int| 0 <= k < body.len() ==> is_plain(#[trigger] body[k]),
        in_undo_block(has_stage, body, edits),
    ensures
        well_bracketed(edits),
{
    if has_stage {
        assert forall|k: int| 0 <= k <= edits.len() implies 0 <= #[trigger] open_blocks(edits.subrange(0, k)) <= 1 by {
            if k == 0 {
                assert(edits.subrange(0, 0).len() == 0);
            } else if k <= body.len() + 1 {
                let pre = edits.subrange(0, k);
                let inner = body.subrange(0, k - 1);
                assert forall|j: int| 0 <= j < inner.len() implies is_plain(#[trigger] inner[j]) by {
                    assert(inner[j] == body[j]);
                }
                lemma_plain_open_blocks(inner);
                lemma_open_blocks_cons_begin(inner);
                assert(pre =~= seq![StageEdit::UndoBegin] + inner);
            } else {
                assert(edits.subrange(0, k) =~= edits);
                lemma_bracket_total(body, edits);
            }
        }
        lemma_bracket_total(body, edits);
    } else {
        assert forall|k: int| 0 <= k <= edits.len() implies 0 <= #[trigger] open_blocks(edits.subrange(0, k)) <= 1 by {
            let pre = edits.subrange(0, k);
            assert forall|j: int| 0 <= j < pre.len() implies is_plain(#[trigger] pre[j]) by {
                assert(pre[j] == body[j]);
            }
            lemma_plain_open_blocks(pre);
        }
        lemma_plain_open_blocks(body);
    }
}

proof fn lemma_open_blocks_cons_begin(s: Seq<StageEdit>)
    ensures
        open_blocks(seq![StageEdit::UndoBegin] + s) == 1 + open_blocks(s),
    decreases s.len(),
{
    if s.len() == 0 {
        assert(seq![StageEdit::UndoBegin] + s =~= seq![StageEdit::UndoBegin]);
        assert(seq![StageEdit::UndoBegin].drop_last() =~= Seq::<StageEdit>::empty());
        let one = seq![StageEdit::UndoBegin];
        assert(one.last() == StageEdit::UndoBegin);
        assert(open_blocks(Seq::<StageEdit>::empty()) == 0);
        assert(open_blocks(one) == open_blocks(one.drop_last()) + 1);
    } else {
        lemma_open_blocks_cons_begin(s.drop_last());
        let t = seq![StageEdit::UndoBegin] + s;
        assert(t.drop_last() =~= seq![StageEdit::UndoBegin] + s.drop_last());
        assert(t.last() == s.last());
        assert(open_blocks(t) == open_blocks(t.drop_last()) + match t.last() {
            StageEdit::UndoBegin => 1int,
            StageEdit::UndoEnd => -1int,
            _ => 0int,
        });
    }
}

proof fn lemma_bracket_total(body: Seq<StageEdit>, edits: Seq<StageEdit>)
    requires
        forall|k: int| 0 <= k < body.len() ==> is_plain(#[trigger] body[k]),
        edits == seq![StageEdit::UndoBegin] + body + seq![StageEdit::UndoEnd],
    ensures
        open_blocks(edits) == 0,
{
    lemma_plain_open_blocks(body);
    lemma_open_blocks_cons_begin(body);
    assert(edits.drop_last() =~= seq![StageEdit::UndoBegin] + body);
}

/// Wraps `body` in an undo block where there is a stage (see `in_undo_block`).
pub fn undo_block(has_stage: bool, body: Vec<StageEdit>) -> (r: Vec<StageEdit>)
    ensures
        in_undo_block(has_stage, body@, r@),
{
    if has_stage {
        let mut r: Vec<StageEdit> = Vec::new();
        r.push(StageEdit::UndoBegin);
        let mut body = body;
        let ghost b = body@;
        r.append(&mut body);
        r.push(StageEdit::UndoEnd);
        assert(r@ =~= seq![StageEdit::UndoBegin] + b + seq![StageEdit::UndoEnd]);
        r
    } else {
        body
    }
}

/// The edits that set one attribute of one prim, inside an undo block where there is a stage.
pub fn set_attr_with_undo(has_stage: bool, prim: usize, attr_name: &str, value: &str) -> (r: Vec<
    StageEdit,
>)
    ensures
        has_stage ==> r@.len() == 3 && r@[0] is UndoBegin && r@[2] is UndoEnd,
        !has_stage ==> r@.len() == 1,
        r@[if has_stage { 1int } else { 0int }] matches StageEdit::SetAttribute { prim: p, name, value: v }
            && p == prim && name@ == attr_name@ && v@ == value@,
        well_bracketed(r@),
{
    let mut body: Vec<StageEdit> = Vec::new();
    body.push(
        StageEdit::SetAttribute {
            prim,
            name: String::from_str(attr_name),
            value: String::from_str(value),
        },
    );
    let ghost b = body@;
    let r = undo_block(has_stage, body);
    proof {
        lemma_undo_block_balanced(has_stage, b, r@);
        if has_stage {
            assert(r@[1] == b[0]);
        }
    }
    r
}

/// The edits that set one attribute to one value on each prim in turn, inside one undo block
/// where there is a stage.
pub fn set_attr_for_many_with_undo(has_stage: bool, prims: &Vec<usize>, attr_name: &str, value: &str) -> (r: Vec<StageEdit>)
    ensures
        exists|body: Seq<StageEdit>|
            {
                &&& in_undo_block(has_stage, body, r@)
                &&& body.len() == prims@.len()
                &&& forall|k: int|
                    0 <= k < body.len() ==> (#[trigger] body[k] matches StageEdit::SetAttribute {
                        prim,
                        name,
                        value: v,
                    } && prim == prims@[k] && name@ == attr_name@ && v@ == value@)
            },
        well_bracketed(r@),
{
    let mut body: Vec<StageEdit> = Vec::new();
    let n = prims.len();
    let mut i: usize = 0;
    while i < n
        invariant
            n == prims@.len(),
            i <= n,
            body@.len() == i,
            forall|k: int|
                0 <= k < i ==> (#[trigger] body@[k] matches StageEdit::SetAttribute {
                    prim,
                    name,
                    value: v,
                } && prim == prims@[k] && name@ == attr_name@ && v@ == value@),
        decreases n - i,
    {
        body.push(
            StageEdit::SetAttribute {
                prim: prims[i],
                name: String::from_str(attr_name),
                value: String::from_str(value),
            },
        );
        i = i + 1;
    }
    let ghost b = body@;
    let r = undo_block(has_stage, body);
    proof {
        assert forall|k: int| 0 <= k < b.len() implies is_plain(#[trigger] b[k]) by {}
        lemma_undo_block_balanced(has_stage, b, r@);
    }
    r
}

} // verus!
