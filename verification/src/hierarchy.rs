//! The scene hierarchy panel: selection, search filter, expansion and the rows it shows.
use vstd::prelude::*;
use crate::error::{error_text, DuError};
use crate::edits::{lemma_undo_block_balanced, undo_block, well_bracketed, StageEdit};
use crate::paths::{is_ancestor_of, is_ancestor_path, parent_path, parent_prim_path};
use crate::scene::{type_or_empty, Prim, Stage};
use crate::text::{contains_char, contains_str, has_substring, str_eq};
use crate::keyed::{lemma_lookup_push, lemma_lookup_set, lookup, position_of_key};
use crate::unicode::{lowercase_of, to_lowercase};

verus! {

/// The panel's state: the selected prim path, the search text, and the rows whose expansion
/// the user changed from its default.
pub struct HierarchyPanel {
    pub selected_path: Option<String>,
    pub filter_text: String,
    pub expanded: Vec<(String, bool)>,
}

/// The colour family of a prim's icon.
#[derive(Debug, Clone, Copy, PartialEq, Eq, Structural)]
pub enum IconColor {
    Light,
    Mesh,
    Xform,
    Scope,
    Camera,
    Material,
    Default,
}

/// How a row's background is painted.
#[derive(Debug, Clone, Copy, PartialEq, Eq, Structural)]
pub enum RowStyle {
    Selected,
    AncestorOfSelection,
    Even,
    Odd,
}

/// One row of the tree as the panel shows it.
pub struct TreeRow {
    pub handle: usize,
    pub path: String,
    pub name: String,
    pub prim_type: String,
    pub glyph: &'static str,
    pub color: IconColor,
    pub depth: usize,
    pub has_children: bool,
    pub is_open: bool,
    pub style: RowStyle,
}

/// What the panel shows below its search box.
pub enum HierarchyView {
    NoStage,
    RootError(String),
    Rows(Vec<TreeRow>),
}

/// The selected path lies at or below `path` (the root `/` and the empty path hold every
/// selection; nothing is below anything when nothing is selected).
pub open spec fn holds_selection(selected: Option<String>, path: Seq<char>) -> bool {
    match selected {
        None => false,
        Some(s) => path == "/"@ || path.len() == 0 || s@ == path || is_ancestor_path(path, s@),
    }
}

/// The icon glyph and colour of a prim, by its type name and name.
pub open spec fn icon_of(t: Seq<char>, n: Seq<char>) -> (Seq<char>, IconColor) {
    if n == "KeyLight"@ || n == "FillLight"@ || n == "AmbientLight"@ {
        ("*"@, IconColor::Light)
    } else if t == "Mesh"@ {
        ("M"@, IconColor::Mesh)
    } else if t == "Xform"@ {
        ("X"@, IconColor::Xform)
    } else if t == "Scope"@ {
        ("S"@, IconColor::Scope)
    } else if t == "Camera"@ {
        ("C"@, IconColor::Camera)
    } else if t == "Material"@ || t == "Shader"@ {
        ("m"@, IconColor::Material)
    } else if t == "DistantLight"@ || t == "DomeLight"@ || t == "DomeLight_1"@ || t
        == "SphereLight"@ || t == "RectLight"@ || t == "DiskLight"@ || t == "CylinderLight"@ {
        ("L"@, IconColor::Light)
    } else if t == "Skeleton"@ || t == "SkelRoot"@ {
        ("K"@, IconColor::Default)
    } else if t == "GeomSubset"@ {
        ("G"@, IconColor::Mesh)
    } else if has_substring(n, "Light"@) || has_substring(n, "light"@) {
        ("L"@, IconColor::Light)
    } else if t.len() == 0 {
        ("."@, IconColor::Default)
    } else {
        ("?"@, IconColor::Default)
    }
}

/// The name a row shows: the prim's name, or `???` where it could not be read.
pub open spec fn shown_name(p: Prim) -> Seq<char> {
    match p.name {
        Some(n) => n@,
        None => "???"@,
    }
}

/// The path a row stands for: the prim's path, or the empty string where it could not be read.
pub open spec fn shown_path(p: Prim) -> Seq<char> {
    match p.path {
        Some(x) => x@,
        None => Seq::empty(),
    }
}

/// The search hides the prim's row: the search text is not empty and occurs, compared in
/// lower case, neither in the shown name nor in the type name.
pub open spec fn hidden_by_filter(filter: Seq<char>, name: Seq<char>, t: Seq<char>) -> bool {
    filter.len() != 0 && !has_substring(lowercase_of(name), lowercase_of(filter))
        && !has_substring(lowercase_of(t), lowercase_of(filter))
}

/// The user's recorded expansion of `path`, if any.
pub open spec fn recorded_expansion(exp: Seq<(String, bool)>, path: Seq<char>) -> Option<bool> {
    lookup(exp, path)
}

/// Whether a row with children is open: as the user left it, else open for the root (the
/// path `/` or an empty name) and closed otherwise.
pub open spec fn row_open(exp: Seq<(String, bool)>, path: Seq<char>, name: Seq<char>) -> bool {
    match recorded_expansion(exp, path) {
        Some(b) => b,
        None => path == "/"@ || name.len() == 0,
    }
}

/// What a row stands for: handle, path, name, type name, depth, whether it has children, and
/// whether it is open.
pub type RowView = (usize, Seq<char>, Seq<char>, Seq<char>, usize, bool, bool);

pub open spec fn row_view(r: TreeRow) -> RowView {
    (r.handle, r.path@, r.name@, r.prim_type@, r.depth, r.has_children, r.is_open)
}

pub open spec fn row_views(v: Seq<TreeRow>) -> Seq<RowView> {
    v.map_values(|r: TreeRow| row_view(r))
}

/// The depth of the rows below a row at depth `d`.
pub open spec fn next_depth(d: usize) -> usize {
    if d < usize::MAX {
        (d + 1) as usize
    } else {
        d
    }
}

/// The rows that the prim `p`, drawn at depth `d`, and the prims below it produce, in order: a
/// prim the search hides gives no row, and its children's rows take its place at its depth;
/// the children of a shown prim are shown one level deeper, and only where its row is open.
pub open spec fn rows_of(p: Prim, d: usize, filter: Seq<char>, exp: Seq<(String, bool)>) -> Seq<
    RowView,
>
    decreases p,
{
    let name = shown_name(p);
    let path = shown_path(p);
    let t = type_or_empty(p);
    if hidden_by_filter(filter, name, t) {
        match p.children {
            None => Seq::empty(),
            Some(children) => rows_of_all(children@, d, filter, exp),
        }
    } else {
        let has_children = p.children matches Some(c) && c@.len() > 0;
        let open = row_open(exp, path, name);
        let own = seq![(p.handle, path, name, t, d, has_children, open)];
        if has_children && open {
            own + rows_of_all(p.children.unwrap()@, next_depth(d), filter, exp)
        } else {
            own
        }
    }
}

/// `rows_of` over each prim of `s`, in order, all at depth `d`.
pub open spec fn rows_of_all(s: Seq<Prim>, d: usize, filter: Seq<char>, exp: Seq<(String, bool)>) -> Seq<
    RowView,
>
    decreases s,
{
    if s.len() == 0 {
        Seq::empty()
    } else {
        rows_of(s[0], d, filter, exp) + rows_of_all(s.drop_first(), d, filter, exp)
    }
}

/// The background of the row at position `k`: selected, else holding the selection below it
/// (for rows with children), else alternating by position.
pub open spec fn style_at(selected: Option<String>, r: TreeRow, k: int) -> RowStyle {
    if selected matches Some(s) && s@ == r.path@ {
        RowStyle::Selected
    } else if r.has_children && holds_selection(selected, r.path@) {
        RowStyle::AncestorOfSelection
    } else if k % 2 == 0 {
        RowStyle::Even
    } else {
        RowStyle::Odd
    }
}

/// Every row is painted as `style_at` says, and shows the icon of its type and name.
pub open spec fn rows_decorated(selected: Option<String>, v: Seq<TreeRow>) -> bool {
    forall|k: int|
        0 <= k < v.len() ==> {
            &&& (#[trigger] v[k]).style == style_at(selected, v[k], k)
            &&& icon_of(v[k].prim_type@, v[k].name@) == (v[k].glyph@, v[k].color)
        }
}

proof fn lemma_rows_of_all_snoc(
    s: Seq<Prim>,
    i: int,
    d: usize,
    filter: Seq<char>,
    exp: Seq<(String, bool)>,
)
    requires
        0 <= i < s.len(),
    ensures
        rows_of_all(s.subrange(0, i + 1), d, filter, exp) == rows_of_all(s.subrange(0, i), d, filter, exp)
            + rows_of(s[i], d, filter, exp),
    decreases i,
{
    let a = s.subrange(0, i + 1);
    if i == 0 {
        assert(a.drop_first() =~= Seq::<Prim>::empty());
        assert(rows_of_all(a, d, filter, exp) =~= rows_of(s[0], d, filter, exp) + rows_of_all(a.drop_first(), d, filter, exp));
        assert(rows_of_all(s.subrange(0, 0), d, filter, exp) =~= Seq::empty());
        assert(rows_of(s[0], d, filter, exp) + Seq::<RowView>::empty() =~= rows_of(s[0], d, filter, exp));
    } else {
        let t = s.drop_first();
        lemma_rows_of_all_snoc(t, i - 1, d, filter, exp);
        assert(a.drop_first() =~= t.subrange(0, i));
        assert(s.subrange(0, i).drop_first() =~= t.subrange(0, i - 1));
        assert(a[0] == s[0]);
        assert(s.subrange(0, i)[0] == s[0]);
        assert(t[i - 1] == s[i]);
        let x = rows_of(s[0], d, filter, exp);
        let y = rows_of_all(t.subrange(0, i - 1), d, filter, exp);
        let z = rows_of(s[i], d, filter, exp);
        assert(rows_of_all(a, d, filter, exp) == x + rows_of_all(t.subrange(0, i), d, filter, exp));
        assert(rows_of_all(s.subrange(0, i), d, filter, exp) == x + y);
        assert(x + (y + z) =~= (x + y) + z);
    }
}

/// The icon glyph and colour of a prim (see `icon_of`).
pub fn prim_icon(prim_type: &str, name: &str) -> (r: (&'static str, IconColor))
    ensures
        icon_of(prim_type@, name@) == (r.0@, r.1),
{
    let t = prim_type;
    if str_eq(name, "KeyLight") || str_eq(name, "FillLight") || str_eq(name, "AmbientLight") {
        ("*", IconColor::Light)
    } else if str_eq(t, "Mesh") {
        ("M", IconColor::Mesh)
    } else if str_eq(t, "Xform") {
        ("X", IconColor::Xform)
    } else if str_eq(t, "Scope") {
        ("S", IconColor::Scope)
    } else if str_eq(t, "Camera") {
        ("C", IconColor::Camera)
    } else if str_eq(t, "Material") || str_eq(t, "Shader") {
        ("m", IconColor::Material)
    } else if str_eq(t, "DistantLight") || str_eq(t, "DomeLight") || str_eq(t, "DomeLight_1")
        || str_eq(t, "SphereLight") || str_eq(t, "RectLight") || str_eq(t, "DiskLight") || str_eq(
        t,
        "CylinderLight",
    ) {
        ("L", IconColor::Light)
    } else if str_eq(t, "Skeleton") || str_eq(t, "SkelRoot") {
        ("K", IconColor::Default)
    } else if str_eq(t, "GeomSubset") {
        ("G", IconColor::Mesh)
    } else if contains_str(name, "Light") || contains_str(name, "light") {
        ("L", IconColor::Light)
    } else if t.unicode_len() == 0 {
        ("." , IconColor::Default)
    } else {
        ("?", IconColor::Default)
    }
}

impl HierarchyPanel {
    /// An empty panel: nothing selected, no search text, every row at its default expansion.
    pub fn new() -> (r: Self)
        ensures
            r.selected_path is None,
            r.filter_text@ == Seq::<char>::empty(),
            r.expanded@.len() == 0,
    {
        HierarchyPanel { selected_path: None, filter_text: String::new(), expanded: Vec::new() }
    }

    /// The selection lies at or below `path` (see `holds_selection`).
    pub fn path_contains_selection(&self, path: &str) -> (r: bool)
        ensures
            r == holds_selection(self.selected_path, path@),
    {
        let selected = match &self.selected_path {
            None => {
                return false;
            },
            Some(s) => s.as_str(),
        };
        if str_eq(path, "/") || path.unicode_len() == 0 {
            return true;
        }
        if str_eq(selected, path) {
            return true;
        }
        is_ancestor_of(path, selected)
    }

    fn expansion_of(&self, path: &str) -> (r: Option<bool>)
        ensures
            r == recorded_expansion(self.expanded@, path@),
    {
        match position_of_key(&self.expanded, path) {
            Some(i) => Some(self.expanded[i].1),
            None => None,
        }
    }

    /// Whether the row of `path`, showing `name`, is open (see `row_open`).
    pub fn is_row_open(&self, path: &str, name: &str) -> (r: bool)
        ensures
            r == row_open(self.expanded@, path@, name@),
    {
        match self.expansion_of(path) {
            Some(b) => b,
            None => str_eq(path, "/") || name.unicode_len() == 0,
        }
    }

    /// Records that the row of `path` is to be shown open or closed.
    pub fn set_row_open(&mut self, path: &str, open: bool)
        ensures
            recorded_expansion(final(self).expanded@, path@) == Some(open),
            forall|q: Seq<char>| q != path@ ==> recorded_expansion(final(self).expanded@, q)
                == recorded_expansion(old(self).expanded@, q),
            final(self).selected_path == old(self).selected_path,
            final(self).filter_text == old(self).filter_text,
    {
        match position_of_key(&self.expanded, path) {
            Some(i) => {
                let ghost before = self.expanded@;
                let entry = (String::from_str(path), open);
                self.expanded.set(i, entry);
                proof {
                    lemma_lookup_set(before, i as int, entry);
                }
            },
            None => {
                let ghost before = self.expanded@;
                let entry = (String::from_str(path), open);
                self.expanded.push(entry);
                proof {
                    lemma_lookup_push(before, entry);
                }
            },
        }
    }

    /// The rows for `prim` drawn at depth `depth` and the prims below it, appended to `out`.
    fn push_rows(&self, prim: &Prim, depth: usize, out: &mut Vec<TreeRow>)
        requires
            rows_decorated(self.selected_path, old(out)@),
        ensures
            row_views(final(out)@) == row_views(old(out)@) + rows_of(
                *prim,
                depth,
                self.filter_text@,
                self.expanded@,
            ),
            rows_decorated(self.selected_path, final(out)@),
        decreases prim,
    {
        let ghost start = row_views(out@);
        let ghost filter = self.filter_text@;
        let ghost exp = self.expanded@;
        let name = match &prim.name {
            Some(n) => n.clone(),
            None => String::from_str("???"),
        };
        let path = match &prim.path {
            Some(x) => x.clone(),
            None => String::new(),
        };
        let prim_type = match &prim.prim_type {
            Some(t) => t.clone(),
            None => String::new(),
        };
        let hidden = if self.filter_text.unicode_len() == 0 {
            false
        } else {
            let filter_lc = to_lowercase(self.filter_text.as_str());
            let name_lc = to_lowercase(name.as_str());
            let type_lc = to_lowercase(prim_type.as_str());
            !contains_str(name_lc.as_str(), filter_lc.as_str()) && !contains_str(
                type_lc.as_str(),
                filter_lc.as_str(),
            )
        };
        assert(hidden == hidden_by_filter(filter, shown_name(*prim), type_or_empty(*prim)));
        if hidden {
            match &prim.children {
                None => {},
                Some(children) => {
                    self.push_children(prim, children, depth, out);
                },
            }
            return;
        }
        let has_children = match &prim.children {
            Some(c) => c.len() > 0,
            None => false,
        };
        let open = self.is_row_open(path.as_str(), name.as_str());
        let k = out.len();
        let selected = match &self.selected_path {
            Some(s) => str_eq(s.as_str(), path.as_str()),
            None => false,
        };
        let style = if selected {
            RowStyle::Selected
        } else if has_children && self.path_contains_selection(path.as_str()) {
            RowStyle::AncestorOfSelection
        } else if k % 2 == 0 {
            RowStyle::Even
        } else {
            RowStyle::Odd
        };
        let (glyph, color) = prim_icon(prim_type.as_str(), name.as_str());
        let row = TreeRow {
            handle: prim.handle,
            path,
            name,
            prim_type,
            glyph,
            color,
            depth,
            has_children,
            is_open: open,
            style,
        };
        proof {
            assert(row_views(out@.push(row)) =~= row_views(out@).push(row_view(row)));
            assert forall|j: int| 0 <= j < out@.push(row).len() implies {
                &&& (#[trigger] out@.push(row)[j]).style == style_at(self.selected_path, out@.push(row)[j], j)
                &&& icon_of(out@.push(row)[j].prim_type@, out@.push(row)[j].name@) == (out@.push(row)[j].glyph@, out@.push(row)[j].color)
            } by {
                if j < out@.len() {
                    assert(out@.push(row)[j] == out@[j]);
                }
            }
        }
        out.push(row);
        if has_children && open {
            match &prim.children {
                None => {},
                Some(children) => {
                    self.push_children(prim, children, next_depth_of(depth), out);
                },
            }
        }
    }

    /// The rows of each child of `prim`, all at depth `depth`, appended to `out`.
    fn push_children(&self, prim: &Prim, children: &Vec<Prim>, depth: usize, out: &mut Vec<TreeRow>)
        requires
            prim.children == Some(*children),
            rows_decorated(self.selected_path, old(out)@),
        ensures
            row_views(final(out)@) == row_views(old(out)@) + rows_of_all(
                children@,
                depth,
                self.filter_text@,
                self.expanded@,
            ),
            rows_decorated(self.selected_path, final(out)@),
        decreases prim, 0nat,
    {
        let ghost start = row_views(out@);
        let n = children.len();
        let mut i: usize = 0;
        assert(children@.subrange(0, 0) =~= Seq::<Prim>::empty());
        while i < n
            invariant
                n == children@.len(),
                i <= n,
                prim.children == Some(*children),
                rows_decorated(self.selected_path, out@),
                row_views(out@) == start + rows_of_all(
                    children@.subrange(0, i as int),
                    depth,
                    self.filter_text@,
                    self.expanded@,
                ),
            decreases n - i,
        {
            let ghost before = row_views(out@);
            let child = &children[i];
            proof {
                assert(decreases_to!(*prim => prim.children));
                assert(decreases_to!(prim.children => prim.children->0));
                assert(decreases_to!(*children => children@));
                assert(decreases_to!(children@ => children@[i as int]));
                assert(decreases_to!(*prim => *child));
            }
            self.push_rows(child, depth, out);
            proof {
                lemma_rows_of_all_snoc(children@, i as int, depth, self.filter_text@, self.expanded@);
                assert(before + rows_of(children@[i as int], depth, self.filter_text@, self.expanded@)
                    =~= start + rows_of_all(
                    children@.subrange(0, i + 1),
                    depth,
                    self.filter_text@,
                    self.expanded@,
                ));
            }
            i = i + 1;
        }
        assert(children@.subrange(0, n as int) =~= children@);
    }

    /// The rows of the tree below `root`, in the order they are drawn.
    pub fn tree_rows(&self, root: &Prim) -> (r: Vec<TreeRow>)
        ensures
            row_views(r@) == rows_of(*root, 0, self.filter_text@, self.expanded@),
            rows_decorated(self.selected_path, r@),
    {
        let mut out: Vec<TreeRow> = Vec::new();
        assert(row_views(out@) =~= Seq::empty());
        self.push_rows(root, 0, &mut out);
        assert(row_views(out@) =~= rows_of(*root, 0, self.filter_text@, self.expanded@));
        out
    }

    /// What the panel shows for the stage, if one is open.
    pub fn view(&self, stage: Option<&Stage>) -> (r: HierarchyView)
        ensures
            stage is None ==> r is NoStage,
            stage matches Some(s) ==> match s.root {
                Err(e) => r matches HierarchyView::RootError(m) && m@ == "Error getting root prim: "@
                    + error_text(e),
                Ok(root) => r matches HierarchyView::Rows(rows) && row_views(rows@) == rows_of(
                    root,
                    0,
                    self.filter_text@,
                    self.expanded@,
                ) && rows_decorated(self.selected_path, rows@),
            },
    {
        match stage {
            None => HierarchyView::NoStage,
            Some(s) => match &s.root {
                Err(e) => HierarchyView::RootError(
                    String::from_str("Error getting root prim: ").concat(e.to_message().as_str()),
                ),
                Ok(root) => HierarchyView::Rows(self.tree_rows(root)),
            },
        }
    }
}

fn next_depth_of(d: usize) -> (r: usize)
    ensures
        r == next_depth(d),
{
    if d < usize::MAX {
        d + 1
    } else {
        d
    }
}

/// An action of a row's right-click menu.
#[derive(Debug, Clone, Copy, PartialEq, Eq, Structural)]
pub enum RowAction {
    /// Create a prim below the row's prim.
    CreateChild,
    /// Delete the row's prim.
    Delete,
}

/// What a row's right-click menu offers: nothing without a stage or for a row whose path could
/// not be read; creating a child for any other row; deleting for any row but the pseudo-root.
pub open spec fn menu_of(stage_loaded: bool, path: Seq<char>) -> Seq<RowAction> {
    if !stage_loaded || path.len() == 0 {
        Seq::empty()
    } else if path == "/"@ {
        seq![RowAction::CreateChild]
    } else {
        seq![RowAction::CreateChild, RowAction::Delete]
    }
}

/// The actions of a row's right-click menu (see `menu_of`).
pub fn row_menu(stage_loaded: bool, path: &str) -> (r: Vec<RowAction>)
    ensures
        r@ == menu_of(stage_loaded, path@),
{
    let mut v: Vec<RowAction> = Vec::new();
    if !stage_loaded || path.unicode_len() == 0 {
        return v;
    }
    v.push(RowAction::CreateChild);
    if !str_eq(path, "/") {
        v.push(RowAction::Delete);
    }
    v
}

/// The path of a prim named `name` below `parent`: directly under `/` for the pseudo-root.
pub open spec fn child_path(parent: Seq<char>, name: Seq<char>) -> Seq<char> {
    if parent == "/"@ {
        "/"@ + name
    } else {
        parent + "/"@ + name
    }
}

/// A name a new prim can take: not empty and without `/`.
pub open spec fn valid_prim_name(name: Seq<char>) -> bool {
    name.len() > 0 && !name.contains('/')
}

/// The edits that create a prim of type `prim_type` named `name` below `parent`, inside an
/// undo block where there is a stage; `None` for a name a prim cannot take.
pub fn create_child_with_undo(has_stage: bool, parent: &str, name: &str, prim_type: &str) -> (r: Option<Vec<StageEdit>>)
    ensures
        r is Some == valid_prim_name(name@),
        r matches Some(edits) ==> {
            &&& well_bracketed(edits@)
            &&& has_stage ==> edits@.len() == 3 && edits@[0] is UndoBegin && edits@[2] is UndoEnd
            &&& !has_stage ==> edits@.len() == 1
            &&& edits@[if has_stage { 1int } else { 0int }] matches StageEdit::CreatePrim { path, prim_type: t }
                && path@ == child_path(parent@, name@) && t@ == prim_type@
        },
{
    if name.unicode_len() == 0 || contains_char(name, '/') {
        return None;
    }
    let path = if str_eq(parent, "/") {
        String::from_str("/").concat(name)
    } else {
        String::from_str(parent).concat("/").concat(name)
    };
    let mut body: Vec<StageEdit> = Vec::new();
    body.push(StageEdit::CreatePrim { path, prim_type: String::from_str(prim_type) });
    let ghost b = body@;
    let r = undo_block(has_stage, body);
    proof {
        lemma_undo_block_balanced(has_stage, b, r@);
        if has_stage {
            assert(r@[1] == b[0]);
        }
    }
    Some(r)
}

/// A row dragged onto another is moved under it: not the pseudo-root, not onto itself, not
/// into its own subtree, and not onto the parent it already has.
pub open spec fn drop_moves(dragged: Seq<char>, target: Seq<char>) -> bool {
    &&& dragged.len() > 0
    &&& target.len() > 0
    &&& dragged != "/"@
    &&& target != dragged
    &&& !is_ancestor_path(dragged, target)
    &&& parent_path(dragged) != Some(target)
}

/// Whether dropping the row of `dragged` onto the row of `target` moves it (see
/// `drop_moves`); the move itself is `reparent_with_undo`.
pub fn accepts_drop(dragged: &str, target: &str) -> (r: bool)
    ensures
        r == drop_moves(dragged@, target@),
{
    if dragged.unicode_len() == 0 || target.unicode_len() == 0 || str_eq(dragged, "/") || str_eq(target, dragged) {
        return false;
    }
    if is_ancestor_of(dragged, target) {
        return false;
    }
    match parent_prim_path(dragged) {
        Some(p) => !str_eq(p.as_str(), target),
        None => true,
    }
}

} // verus!
