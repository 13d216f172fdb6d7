//! The viewer's own decisions: gizmo modes and spaces, anti-aliasing, keyboard shortcuts, the
//! undo block of a gizmo drag, repaint pacing, retired textures, and what each frame asks of
//! the renderer.
use vstd::prelude::*;
use crate::edits::StageEdit;
use crate::error::{error_text, DuError};
use crate::hydra::{display_mode_entry, DisplayMode, RendererSetting, DISPLAY_MODE_COUNT};
use crate::keyed::{lemma_lookup_push, lemma_lookup_set, lookup, position_of_key};
use crate::scene::{resolve_transform_target_path, transform_target, Stage};

verus! {

/// How the viewport camera moves under the mouse.
#[derive(Debug, Clone, Copy, PartialEq, Eq, Structural)]
pub enum CameraMode {
    Orbit,
    Pan,
    Fly,
}

/// Anti-aliasing of the viewport.
#[derive(Debug, Clone, Copy, PartialEq, Eq, Structural)]
pub enum AntiAliasMode {
    Off,
    Msaa,
    Ssaa1_5x,
    Ssaa2x,
}

impl AntiAliasMode {
    /// The mode's caption.
    pub fn label(self) -> (r: &'static str)
        ensures
            r@ == (match self {
                AntiAliasMode::Off => "Off"@,
                AntiAliasMode::Msaa => "MSAA"@,
                AntiAliasMode::Ssaa1_5x => "SSAA 1.5x"@,
                AntiAliasMode::Ssaa2x => "SSAA 2x"@,
            }),
    {
        match self {
            AntiAliasMode::Off => "Off",
            AntiAliasMode::Msaa => "MSAA",
            AntiAliasMode::Ssaa1_5x => "SSAA 1.5x",
            AntiAliasMode::Ssaa2x => "SSAA 2x",
        }
    }

    /// Every mode, in menu order.
    pub fn all() -> (r: Vec<AntiAliasMode>)
        ensures
            r@ == seq![
                AntiAliasMode::Off,
                AntiAliasMode::Msaa,
                AntiAliasMode::Ssaa1_5x,
                AntiAliasMode::Ssaa2x,
            ],
    {
        let mut v: Vec<AntiAliasMode> = Vec::new();
        v.push(AntiAliasMode::Off);
        v.push(AntiAliasMode::Msaa);
        v.push(AntiAliasMode::Ssaa1_5x);
        v.push(AntiAliasMode::Ssaa2x);
        v
    }

    /// The renderer's multisampling is on for this mode.
    pub fn uses_msaa(self) -> (r: bool)
        ensures
            r == (self == AntiAliasMode::Msaa),
    {
        self == AntiAliasMode::Msaa
    }

    /// How much larger than the viewport the frame is rendered, in percent: supersampling
    /// renders at one and a half or twice the size, every other mode at the viewport's size.
    pub fn render_scale_percent(self) -> (r: u32)
        ensures
            r == (match self {
                AntiAliasMode::Ssaa1_5x => 150u32,
                AntiAliasMode::Ssaa2x => 200u32,
                _ => 100u32,
            }),
    {
        match self {
            AntiAliasMode::Ssaa1_5x => 150,
            AntiAliasMode::Ssaa2x => 200,
            _ => 100,
        }
    }
}

/// The order in which a prim's rotation angles are applied.
#[derive(Debug, Clone, Copy, PartialEq, Eq, Structural)]
pub enum RotationOrder {
    Xyz,
    Xzy,
    Yxz,
    Yzx,
    Zxy,
    Zyx,
}

/// The rotation order that the stage reports by its number; an unknown number reads as XYZ.
pub fn rotation_order_of(order: i32) -> (r: RotationOrder)
    ensures
        r == (if order == 1 {
            RotationOrder::Xzy
        } else if order == 2 {
            RotationOrder::Yxz
        } else if order == 3 {
            RotationOrder::Yzx
        } else if order == 4 {
            RotationOrder::Zxy
        } else if order == 5 {
            RotationOrder::Zyx
        } else {
            RotationOrder::Xyz
        }),
{
    match order {
        1 => RotationOrder::Xzy,
        2 => RotationOrder::Yxz,
        3 => RotationOrder::Yzx,
        4 => RotationOrder::Zxy,
        5 => RotationOrder::Zyx,
        _ => RotationOrder::Xyz,
    }
}

/// What the transform gizmo does.
#[derive(Debug, Clone, Copy, PartialEq, Eq, Structural)]
pub enum GizmoMode {
    Select,
    Translate,
    Rotate,
    Scale,
}

/// The axes the gizmo follows.
#[derive(Debug, Clone, Copy, PartialEq, Eq, Structural)]
pub enum GizmoSpace {
    Local,
    World,
}

impl GizmoSpace {
    /// The space's caption.
    pub fn label(self) -> (r: &'static str)
        ensures
            r@ == (match self {
                GizmoSpace::Local => "Local"@,
                GizmoSpace::World => "World"@,
            }),
    {
        match self {
            GizmoSpace::Local => "Local",
            GizmoSpace::World => "World",
        }
    }
}

/// A part of the gizmo the pointer can grab.
#[derive(Debug, Clone, Copy, PartialEq, Eq, Structural)]
pub enum GizmoHandle {
    Axis(usize),
    Plane(usize, usize),
    Center,
}

/// The space the gizmo acts in: scaling always acts in local space.
pub open spec fn effective_space(mode: GizmoMode, space: GizmoSpace) -> GizmoSpace {
    if mode == GizmoMode::Scale {
        GizmoSpace::Local
    } else {
        space
    }
}

/// The other space.
pub open spec fn other_space(space: GizmoSpace) -> GizmoSpace {
    match space {
        GizmoSpace::Local => GizmoSpace::World,
        GizmoSpace::World => GizmoSpace::Local,
    }
}

/// Where a mode was picked: by its keyboard shortcut or by its toolbar button.
#[derive(Debug, Clone, Copy, PartialEq, Eq, Structural)]
pub enum ModeSource {
    Keyboard,
    Toolbar,
}

/// The gizmo's state: its mode, its chosen space, and the handle being dragged.
pub struct GizmoState {
    pub mode: GizmoMode,
    pub space: GizmoSpace,
    pub dragging: Option<GizmoHandle>,
}

impl GizmoState {
    /// The state a viewer starts in: selecting, in local space, dragging nothing.
    pub fn new() -> (r: Self)
        ensures
            r.mode == GizmoMode::Select,
            r.space == GizmoSpace::Local,
            r.dragging is None,
    {
        GizmoState { mode: GizmoMode::Select, space: GizmoSpace::Local, dragging: None }
    }

    /// The space the gizmo acts in (see `effective_space`).
    pub fn effective_gizmo_space(&self) -> (r: GizmoSpace)
        ensures
            r == effective_space(self.mode, self.space),
    {
        if self.mode == GizmoMode::Scale {
            GizmoSpace::Local
        } else {
            self.space
        }
    }

    /// Chooses a space; returns the status line, which names the space the gizmo now acts in.
    pub fn set_gizmo_space(&mut self, space: GizmoSpace) -> (r: String)
        ensures
            final(self).space == space,
            final(self).mode == old(self).mode,
            final(self).dragging == old(self).dragging,
            r@ == "Gizmo space: "@ + (match effective_space(old(self).mode, space) {
                GizmoSpace::Local => "Local"@,
                GizmoSpace::World => "World"@,
            }),
    {
        self.space = space;
        String::from_str("Gizmo space: ").concat(self.effective_gizmo_space().label())
    }

    /// Switches to the other space; returns the status line.
    pub fn toggle_gizmo_space(&mut self) -> (r: String)
        ensures
            final(self).space == other_space(old(self).space),
            final(self).mode == old(self).mode,
            final(self).dragging == old(self).dragging,
            r@ == "Gizmo space: "@ + (match effective_space(old(self).mode, other_space(old(self).space)) {
                GizmoSpace::Local => "Local"@,
                GizmoSpace::World => "World"@,
            }),
    {
        let next = match self.space {
            GizmoSpace::Local => GizmoSpace::World,
            GizmoSpace::World => GizmoSpace::Local,
        };
        self.set_gizmo_space(next)
    }

    /// Picks a mode from the toolbar or the keyboard; picking `Select` lets go of any handle.
    pub fn set_mode(&mut self, mode: GizmoMode, release_handle: bool)
        ensures
            final(self).mode == mode,
            final(self).space == old(self).space,
            release_handle ==> final(self).dragging is None,
            !release_handle ==> final(self).dragging == old(self).dragging,
    {
        self.mode = mode;
        if release_handle {
            self.dragging = None;
        }
    }

    /// Picks a mode by its key or its toolbar button: a toolbar button always lets go of a
    /// held handle; a key does so only for select mode (Q).
    pub fn pick_mode(&mut self, mode: GizmoMode, source: ModeSource)
        ensures
            final(self).mode == mode,
            final(self).space == old(self).space,
            (source == ModeSource::Toolbar || mode == GizmoMode::Select) ==> final(self).dragging is None,
            !(source == ModeSource::Toolbar || mode == GizmoMode::Select) ==> final(self).dragging
                == old(self).dragging,
    {
        let release = source == ModeSource::Toolbar || mode == GizmoMode::Select;
        self.set_mode(mode, release);
    }

    /// One frame of gizmo dragging, apart from the motion itself: a drag that starts on a
    /// handle grabs it and opens an undo block (where a stage is open); a drag that stops lets
    /// go and closes the block (where a handle was held and a stage is open). Nothing happens
    /// in select mode or without a target prim. Returns the undo edits to issue, in order.
    pub fn drag_frame(
        &mut self,
        has_target: bool,
        has_stage: bool,
        started: bool,
        hovered: Option<GizmoHandle>,
        stopped: bool,
    ) -> (r: Vec<StageEdit>)
        ensures
            final(self).mode == old(self).mode,
            final(self).space == old(self).space,
            old(self).mode == GizmoMode::Select || !has_target ==> r@.len() == 0 && final(self).dragging
                == old(self).dragging,
            old(self).mode != GizmoMode::Select && has_target ==> {
                let grabbed = started && hovered is Some;
                let held = if grabbed {
                    hovered
                } else {
                    old(self).dragging
                };
                let opens = grabbed && has_stage;
                let closes = stopped && held is Some && has_stage;
                &&& final(self).dragging == (if stopped {
                    None
                } else {
                    held
                })
                &&& r@ == (if opens {
                    seq![StageEdit::UndoBegin]
                } else {
                    Seq::empty()
                }) + (if closes {
                    seq![StageEdit::UndoEnd]
                } else {
                    Seq::empty()
                })
            },
    {
        let mut edits: Vec<StageEdit> = Vec::new();
        if self.mode == GizmoMode::Select || !has_target {
            return edits;
        }
        if started {
            if let Some(h) = hovered {
                if has_stage {
                    edits.push(StageEdit::UndoBegin);
                }
                self.dragging = Some(h);
            }
        }
        let ghost mid = edits@;
        if stopped {
            if self.dragging.is_some() && has_stage {
                edits.push(StageEdit::UndoEnd);
            }
            self.dragging = None;
        }
        proof {
            let opens = started && hovered is Some && has_stage;
            let o = if opens {
                seq![StageEdit::UndoBegin]
            } else {
                Seq::<StageEdit>::empty()
            };
            assert(mid =~= o);
            assert(edits@ =~= o + (if stopped && (if started && hovered is Some { hovered } else { old(self).dragging }) is Some && has_stage {
                seq![StageEdit::UndoEnd]
            } else {
                Seq::<StageEdit>::empty()
            }));
        }
        edits
    }
}

/// What the keyboard pressed this frame, with what the viewer knows of focus and pointer.
pub struct ShortcutInput {
    pub editing_text: bool,
    pub pointer_over_viewport: bool,
    pub command: bool,
    pub shift: bool,
    pub key_o: bool,
    pub key_s: bool,
    pub key_z: bool,
    pub key_q: bool,
    pub key_w: bool,
    pub key_e: bool,
    pub key_r: bool,
    pub key_x: bool,
    pub key_f: bool,
    pub key_delete: bool,
    pub key_backspace: bool,
}

/// A command of the file and edit menus.
#[derive(Debug, Clone, Copy, PartialEq, Eq, Structural)]
pub enum FileCommand {
    Open,
    SaveAs,
    Save,
    Redo,
    Undo,
}

/// A command that acts on the viewport.
#[derive(Debug, Clone, Copy, PartialEq, Eq, Structural)]
pub enum ViewportCommand {
    SetMode(GizmoMode),
    ToggleSpace,
    Focus,
    DeleteSelection,
    ToggleWireframe,
}

/// The file or edit command the keys ask for: never while a text field has the keyboard;
/// Ctrl+O, Ctrl+Shift+S, Ctrl+S, Ctrl+Shift+Z, Ctrl+Z, the first that matches.
pub open spec fn file_command_of(i: ShortcutInput) -> Option<FileCommand> {
    if i.editing_text || !i.command {
        None
    } else if i.key_o && !i.shift {
        Some(FileCommand::Open)
    } else if i.key_s && i.shift {
        Some(FileCommand::SaveAs)
    } else if i.key_s && !i.shift {
        Some(FileCommand::Save)
    } else if i.key_z && i.shift {
        Some(FileCommand::Redo)
    } else if i.key_z && !i.shift {
        Some(FileCommand::Undo)
    } else {
        None
    }
}

/// The viewport command the keys ask for: only with the pointer over the viewport and no text
/// field holding the keyboard; Q, W, E, R (without Ctrl) pick select, move, rotate and scale;
/// X switches space (except while scaling, where it does nothing); F focuses; Delete or
/// Backspace deletes; Z (without Ctrl) toggles wireframe — the first that matches.
pub open spec fn viewport_command_of(i: ShortcutInput, mode: GizmoMode) -> Option<ViewportCommand> {
    let allow = i.pointer_over_viewport && !i.editing_text;
    if !allow {
        None
    } else if i.key_q && !i.command {
        Some(ViewportCommand::SetMode(GizmoMode::Select))
    } else if i.key_w && !i.command {
        Some(ViewportCommand::SetMode(GizmoMode::Translate))
    } else if i.key_e && !i.command {
        Some(ViewportCommand::SetMode(GizmoMode::Rotate))
    } else if i.key_r && !i.command {
        Some(ViewportCommand::SetMode(GizmoMode::Scale))
    } else if i.key_x && !i.command {
        if mode != GizmoMode::Scale {
            Some(ViewportCommand::ToggleSpace)
        } else {
            None
        }
    } else if i.key_f && !i.command {
        Some(ViewportCommand::Focus)
    } else if i.key_delete || i.key_backspace {
        Some(ViewportCommand::DeleteSelection)
    } else if i.key_z && !i.command {
        Some(ViewportCommand::ToggleWireframe)
    } else {
        None
    }
}

/// The commands this frame's keys ask for (see `file_command_of` and `viewport_command_of`).
pub fn shortcut_commands(input: &ShortcutInput, mode: GizmoMode) -> (r: (Option<FileCommand>, Option<ViewportCommand>))
    ensures
        r.0 == file_command_of(*input),
        r.1 == viewport_command_of(*input, mode),
{
    let i = input;
    let ctrl_o = !i.editing_text && i.key_o && i.command && !i.shift;
    let ctrl_s = !i.editing_text && i.key_s && i.command && !i.shift;
    let ctrl_shift_s = !i.editing_text && i.key_s && i.command && i.shift;
    let ctrl_z = !i.editing_text && i.key_z && i.command && !i.shift;
    let ctrl_shift_z = !i.editing_text && i.key_z && i.command && i.shift;
    let allow = i.pointer_over_viewport && !i.editing_text;
    let key_q = allow && i.key_q && !i.command;
    let key_w = allow && i.key_w && !i.command;
    let key_e = allow && i.key_e && !i.command;
    let key_r = allow && i.key_r && !i.command;
    let key_x = allow && i.key_x && !i.command;
    let key_f = allow && i.key_f && !i.command;
    let delete = allow && (i.key_delete || i.key_backspace);
    let key_z = allow && i.key_z && !i.command;
    let file = if ctrl_o {
        Some(FileCommand::Open)
    } else if ctrl_shift_s {
        Some(FileCommand::SaveAs)
    } else if ctrl_s {
        Some(FileCommand::Save)
    } else if ctrl_shift_z {
        Some(FileCommand::Redo)
    } else if ctrl_z {
        Some(FileCommand::Undo)
    } else {
        None
    };
    let viewport = if key_q {
        Some(ViewportCommand::SetMode(GizmoMode::Select))
    } else if key_w {
        Some(ViewportCommand::SetMode(GizmoMode::Translate))
    } else if key_e {
        Some(ViewportCommand::SetMode(GizmoMode::Rotate))
    } else if key_r {
        Some(ViewportCommand::SetMode(GizmoMode::Scale))
    } else if key_x {
        if mode != GizmoMode::Scale {
            Some(ViewportCommand::ToggleSpace)
        } else {
            None
        }
    } else if key_f {
        Some(ViewportCommand::Focus)
    } else if delete {
        Some(ViewportCommand::DeleteSelection)
    } else if key_z {
        Some(ViewportCommand::ToggleWireframe)
    } else {
        None
    };
    (file, viewport)
}

/// Frames left to render at interactive quality: three after a frame of navigation, else one
/// fewer, down to zero.
pub fn next_interaction_frames(navigating: bool, frames: u8) -> (r: u8)
    ensures
        navigating ==> r == 3,
        !navigating ==> r == (if frames > 0 { (frames - 1) as u8 } else { 0u8 }),
{
    if navigating {
        3
    } else if frames > 0 {
        frames - 1
    } else {
        0
    }
}

/// Another frame is wanted at once: a handle is held, interactive frames remain, the renderer
/// has updates pending, or the clipping planes are still moving.
pub fn needs_repaint(dragging: bool, interaction_frames: u8, async_updates: bool, clip_animating: bool) -> (r: bool)
    ensures
        r == (dragging || interaction_frames > 0 || async_updates || clip_animating),
{
    dragging || interaction_frames > 0 || async_updates || clip_animating
}

/// What the mouse did over the viewport this frame.
pub struct PointerInput {
    pub alt: bool,
    pub shift: bool,
    pub primary_dragged: bool,
    pub secondary_dragged: bool,
    pub middle_dragged: bool,
    pub scrolled: bool,
    pub pointer_over_viewport: bool,
}

/// A camera motion.
#[derive(Debug, Clone, Copy, PartialEq, Eq, Structural)]
pub enum Navigation {
    Orbit,
    Pan,
    Zoom,
}

/// The camera motions a frame's mouse input asks for, in the order they apply. While a gizmo
/// handle is held no drag moves the camera. With Alt held, dragging with the left button
/// orbits, with the middle button pans and with the right button zooms; without Alt, a
/// right-button drag orbits (pans with Shift) and a middle-button drag pans. Scrolling over
/// the viewport zooms in any case.
pub open spec fn navigation_of(i: PointerInput, handle_held: bool) -> Seq<Navigation> {
    let drags = if handle_held {
        Seq::empty()
    } else if i.alt {
        (if i.primary_dragged { seq![Navigation::Orbit] } else { Seq::empty() }) + (if i.middle_dragged {
            seq![Navigation::Pan]
        } else {
            Seq::empty()
        }) + (if i.secondary_dragged { seq![Navigation::Zoom] } else { Seq::empty() })
    } else {
        (if i.secondary_dragged {
            if i.shift { seq![Navigation::Pan] } else { seq![Navigation::Orbit] }
        } else {
            Seq::empty()
        }) + (if i.middle_dragged { seq![Navigation::Pan] } else { Seq::empty() })
    };
    drags + (if i.pointer_over_viewport && i.scrolled { seq![Navigation::Zoom] } else { Seq::empty() })
}

/// The camera motions of a frame (see `navigation_of`); the frame counts as navigation,
/// for `next_interaction_frames`, where there is any.
pub fn viewport_navigation(input: &PointerInput, handle_held: bool) -> (r: Vec<Navigation>)
    ensures
        r@ == navigation_of(*input, handle_held),
{
    let i = input;
    let mut v: Vec<Navigation> = Vec::new();
    if !handle_held {
        if i.alt {
            if i.primary_dragged {
                v.push(Navigation::Orbit);
            }
            if i.middle_dragged {
                v.push(Navigation::Pan);
            }
            if i.secondary_dragged {
                v.push(Navigation::Zoom);
            }
        } else {
            if i.secondary_dragged {
                if i.shift {
                    v.push(Navigation::Pan);
                } else {
                    v.push(Navigation::Orbit);
                }
            }
            if i.middle_dragged {
                v.push(Navigation::Pan);
            }
        }
    }
    if i.pointer_over_viewport && i.scrolled {
        v.push(Navigation::Zoom);
    }
    assert(v@ =~= navigation_of(*input, handle_held));
    v
}

/// A texture that is no longer shown, kept alive for some more frames because the GPU may
/// still read it.
pub struct RetiredTexture<T> {
    pub frames_left: u8,
    pub texture: T,
}

/// After one frame: where there is no renderer every retired texture is dropped unfreed;
/// otherwise those with no frames left are freed, in order, and the others wait one frame
/// less, in order.
pub open spec fn drained(retired: Seq<(u8, int)>, has_renderer: bool) -> (Seq<(u8, int)>, Seq<int>)
    decreases retired.len(),
{
    if !has_renderer || retired.len() == 0 {
        (Seq::empty(), Seq::empty())
    } else {
        let (kept, freed) = drained(retired.drop_last(), has_renderer);
        let last = retired.last();
        if last.0 == 0 {
            (kept, freed.push(last.1))
        } else {
            (kept.push(((last.0 - 1) as u8, last.1)), freed)
        }
    }
}

/// Ages the retired textures by one frame; returns those to free now (see `drained`).
pub fn drain_retired_textures(retired: &mut Vec<RetiredTexture<u64>>, has_renderer: bool) -> (freed: Vec<u64>)
    ensures
        final(retired)@.map_values(|t: RetiredTexture<u64>| (t.frames_left, t.texture as int)) == drained(
            old(retired)@.map_values(|t: RetiredTexture<u64>| (t.frames_left, t.texture as int)),
            has_renderer,
        ).0,
        freed@.map_values(|t: u64| t as int) == drained(
            old(retired)@.map_values(|t: RetiredTexture<u64>| (t.frames_left, t.texture as int)),
            has_renderer,
        ).1,
{
    let ghost all = old(retired)@.map_values(|t: RetiredTexture<u64>| (t.frames_left, t.texture as int));
    let mut freed: Vec<u64> = Vec::new();
    let mut kept: Vec<RetiredTexture<u64>> = Vec::new();
    if !has_renderer {
        *retired = kept;
        proof {
            assert(retired@.map_values(|t: RetiredTexture<u64>| (t.frames_left, t.texture as int)) =~= Seq::empty());
            assert(freed@.map_values(|t: u64| t as int) =~= Seq::empty());
        }
        return freed;
    }
    let n = retired.len();
    let mut i: usize = 0;
    assert(all.subrange(0, 0) =~= Seq::<(u8, int)>::empty());
    while i < n
        invariant
            n == retired@.len(),
            retired@ == old(retired)@,
            has_renderer,
            all == old(retired)@.map_values(|t: RetiredTexture<u64>| (t.frames_left, t.texture as int)),
            i <= n,
            kept@.map_values(|t: RetiredTexture<u64>| (t.frames_left, t.texture as int)) == drained(
                all.subrange(0, i as int),
                has_renderer,
            ).0,
            freed@.map_values(|t: u64| t as int) == drained(all.subrange(0, i as int), has_renderer).1,
        decreases n - i,
    {
        let frames = retired[i].frames_left;
        let texture = retired[i].texture;
        let ghost pre = all.subrange(0, i as int);
        let ghost post = all.subrange(0, i + 1);
        proof {
            assert(post.drop_last() =~= pre);
            assert(post.last() == (frames, texture as int));
        }
        let ghost kv = kept@.map_values(|t: RetiredTexture<u64>| (t.frames_left, t.texture as int));
        let ghost fv = freed@.map_values(|t: u64| t as int);
        if frames == 0 {
            freed.push(texture);
            assert(freed@.map_values(|t: u64| t as int) =~= fv.push(texture as int));
        } else {
            let item = RetiredTexture { frames_left: frames - 1, texture };
            kept.push(item);
            assert(kept@.map_values(|t: RetiredTexture<u64>| (t.frames_left, t.texture as int)) =~= kv.push(
                ((frames - 1) as u8, texture as int),
            ));
        }
        i = i + 1;
    }
    assert(all.subrange(0, n as int) =~= all);
    *retired = kept;
    freed
}

/// The viewer's render options that each frame hands to the renderer.
pub struct ViewSettings {
    pub display_mode_index: usize,
    pub complexity_index: usize,
    pub show_lights: bool,
    pub show_shadows: bool,
    pub show_guides: bool,
    pub show_proxy: bool,
    pub show_render: bool,
    pub cull_backfaces: bool,
    pub enable_scene_materials: bool,
    pub dome_light_textures_visible: bool,
    pub aa_mode: AntiAliasMode,
}

impl ViewSettings {
    /// The options a viewer starts with: the first display mode and complexity, lights, proxy
    /// and render prims, scene materials and dome light textures shown; shadows, guides and
    /// backface culling off; multisampled anti-aliasing.
    pub fn new() -> (r: Self)
        ensures
            r.display_mode_index == 0,
            r.complexity_index == 0,
            r.show_lights,
            !r.show_shadows,
            !r.show_guides,
            r.show_proxy,
            r.show_render,
            !r.cull_backfaces,
            r.enable_scene_materials,
            r.dome_light_textures_visible,
            r.aa_mode == AntiAliasMode::Msaa,
    {
        ViewSettings {
            display_mode_index: 0,
            complexity_index: 0,
            show_lights: true,
            show_shadows: false,
            show_guides: false,
            show_proxy: true,
            show_render: true,
            cull_backfaces: false,
            enable_scene_materials: true,
            dome_light_textures_visible: true,
            aa_mode: AntiAliasMode::Msaa,
        }
    }

    /// The wireframe shortcut: from wireframe back to smooth shading, from any other display
    /// mode to wireframe. Nothing else changes.
    pub fn toggle_wireframe(&mut self)
        ensures
            final(self).display_mode_index == wireframe_toggled(old(self).display_mode_index),
            display_mode_entry_mode(final(self).display_mode_index) == (if display_mode_entry_mode(
                old(self).display_mode_index,
            ) == DisplayMode::Wireframe {
                DisplayMode::SmoothShaded
            } else {
                DisplayMode::Wireframe
            }),
            final(self).complexity_index == old(self).complexity_index,
            final(self).show_lights == old(self).show_lights,
            final(self).show_shadows == old(self).show_shadows,
            final(self).show_guides == old(self).show_guides,
            final(self).show_proxy == old(self).show_proxy,
            final(self).show_render == old(self).show_render,
            final(self).cull_backfaces == old(self).cull_backfaces,
            final(self).enable_scene_materials == old(self).enable_scene_materials,
            final(self).dome_light_textures_visible == old(self).dome_light_textures_visible,
            final(self).aa_mode == old(self).aa_mode,
    {
        if self.display_mode_index == 1 {
            self.display_mode_index = 0;
        } else {
            self.display_mode_index = 1;
        }
    }
}

/// The texts being typed into the renderer's string settings, by setting key.
pub struct SettingDrafts {
    pub drafts: Vec<(String, String)>,
}

impl SettingDrafts {
    /// No setting is being edited.
    pub fn new() -> (r: Self)
        ensures
            r.drafts@.len() == 0,
    {
        SettingDrafts { drafts: Vec::new() }
    }

    /// The draft of setting `key`: the text typed so far, else the setting's current value,
    /// which then becomes its draft.
    pub fn draft(&mut self, key: &str, current: &str) -> (r: String)
        ensures
            r@ == (match lookup(old(self).drafts@, key@) {
                Some(d) => d@,
                None => current@,
            }),
            lookup(final(self).drafts@, key@) matches Some(d) && d@ == r@,
            forall|q: Seq<char>| q != key@ ==> lookup(final(self).drafts@, q) == lookup(
                old(self).drafts@,
                q,
            ),
    {
        match position_of_key(&self.drafts, key) {
            Some(i) => self.drafts[i].1.clone(),
            None => {
                let ghost before = self.drafts@;
                let entry = (String::from_str(key), String::from_str(current));
                let r = entry.1.clone();
                self.drafts.push(entry);
                proof {
                    lemma_lookup_push(before, entry);
                }
                r
            },
        }
    }

    /// Makes `text` the draft of setting `key`: what was typed, or the default it was reset to.
    pub fn set_draft(&mut self, key: &str, text: &str)
        ensures
            lookup(final(self).drafts@, key@) matches Some(d) && d@ == text@,
            forall|q: Seq<char>| q != key@ ==> lookup(final(self).drafts@, q) == lookup(
                old(self).drafts@,
                q,
            ),
    {
        let ghost before = self.drafts@;
        let entry = (String::from_str(key), String::from_str(text));
        match position_of_key(&self.drafts, key) {
            Some(i) => {
                self.drafts.set(i, entry);
                proof {
                    lemma_lookup_set(before, i as int, entry);
                }
            },
            None => {
                self.drafts.push(entry);
                proof {
                    lemma_lookup_push(before, entry);
                }
            },
        }
    }
}

/// What the renderer settings window says instead of listing settings: that there is no
/// renderer, why the settings could not be read, or that the renderer has none; nothing
/// where there are settings to list.
pub fn renderer_settings_message(settings: Option<&Result<Vec<RendererSetting>, DuError>>) -> (r: Option<String>)
    ensures
        settings is None ==> (r matches Some(m) && m@ == "Renderer unavailable"@),
        settings matches Some(Err(e)) ==> (r matches Some(m) && m@ == error_text(*e)),
        settings matches Some(Ok(v)) ==> (if v@.len() == 0 {
            r matches Some(m) && m@ == "Current render delegate does not expose renderer settings."@
        } else {
            r is None
        }),
{
    match settings {
        None => Some(String::from_str("Renderer unavailable")),
        Some(Err(e)) => Some(e.to_message()),
        Some(Ok(v)) => if v.len() == 0 {
            Some(String::from_str("Current render delegate does not expose renderer settings."))
        } else {
            None
        },
    }
}

/// The display mode menu entry after the wireframe shortcut: smooth shading (entry 0) from
/// wireframe (entry 1), wireframe from any other entry.
pub open spec fn wireframe_toggled(i: usize) -> usize {
    if i == 1 {
        0
    } else {
        1
    }
}

/// What one frame asks of the renderer, apart from the camera.
pub struct FrameSettings {
    pub selection: Option<String>,
    pub display_mode: DisplayMode,
    pub complexity_index: usize,
    pub enable_lighting: bool,
    pub enable_shadows: bool,
    pub show_guides: bool,
    pub show_proxy: bool,
    pub show_render: bool,
    pub cull_backfaces: bool,
    pub enable_scene_materials: bool,
    pub dome_light_camera_visibility: bool,
    pub msaa: bool,
}

/// The prim the renderer highlights for the selected path: its transform target where it
/// has one, else the selected path itself.
pub open spec fn highlight_of(stage: Option<Stage>, selected: Option<Seq<char>>) -> Option<Seq<char>> {
    match selected {
        None => None,
        Some(sel) => match stage {
            Some(s) => match transform_target(s, sel) {
                Some(t) => Some(t),
                None => Some(sel),
            },
            None => Some(sel),
        },
    }
}

/// What the next frame asks of the renderer: the highlighted prim, the chosen display mode
/// and options, and multisampling only in the multisampled mode and outside interaction.
pub fn frame_settings(view: &ViewSettings, stage: Option<&Stage>, selected_path: Option<&str>, interactive: bool) -> (r: FrameSettings)
    requires
        view.display_mode_index < DISPLAY_MODE_COUNT,
    ensures
        r.selection is Some == selected_path is Some,
        r.selection matches Some(x) ==> highlight_of(
            match stage {
                Some(s) => Some(*s),
                None => None,
            },
            Some(selected_path.unwrap()@),
        ) == Some(x@),
        r.display_mode == display_mode_entry_mode(view.display_mode_index),
        r.complexity_index == view.complexity_index,
        r.enable_lighting == view.show_lights,
        r.enable_shadows == view.show_shadows,
        r.show_guides == view.show_guides,
        r.show_proxy == view.show_proxy,
        r.show_render == view.show_render,
        r.cull_backfaces == view.cull_backfaces,
        r.enable_scene_materials == view.enable_scene_materials,
        r.dome_light_camera_visibility == view.dome_light_textures_visible,
        r.msaa == (view.aa_mode == AntiAliasMode::Msaa && !interactive),
{
    let selection = match selected_path {
        None => None,
        Some(sel) => match resolve_transform_target_path(stage, sel) {
            Some(t) => Some(t),
            None => Some(String::from_str(sel)),
        },
    };
    let (_, mode) = display_mode_entry(view.display_mode_index);
    FrameSettings {
        selection,
        display_mode: mode,
        complexity_index: view.complexity_index,
        enable_lighting: view.show_lights,
        enable_shadows: view.show_shadows,
        show_guides: view.show_guides,
        show_proxy: view.show_proxy,
        show_render: view.show_render,
        cull_backfaces: view.cull_backfaces,
        enable_scene_materials: view.enable_scene_materials,
        dome_light_camera_visibility: view.dome_light_textures_visible,
        msaa: view.aa_mode.uses_msaa() && !interactive,
    }
}

/// The display mode of the menu entry at `i`.
pub open spec fn display_mode_entry_mode(i: usize) -> DisplayMode {
    if i == 0 {
        DisplayMode::SmoothShaded
    } else if i == 1 {
        DisplayMode::Wireframe
    } else if i == 2 {
        DisplayMode::WireframeOnShaded
    } else if i == 3 {
        DisplayMode::FlatShaded
    } else if i == 4 {
        DisplayMode::Points
    } else if i == 5 {
        DisplayMode::Textured
    } else if i == 6 {
        DisplayMode::GeomOnly
    } else if i == 7 {
        DisplayMode::GeomFlat
    } else {
        DisplayMode::GeomSmooth
    }
}

/// The status line after a stage command: `ok_text` where it succeeded, else `err_prefix`
/// and the error.
pub fn result_status(r: &Result<(), DuError>, ok_text: &str, err_prefix: &str) -> (s: String)
    ensures
        r is Ok ==> s@ == ok_text@,
        r matches Err(e) ==> s@ == err_prefix@ + error_text(*e),
{
    match r {
        Ok(()) => String::from_str(ok_text),
        Err(e) => String::from_str(err_prefix).concat(e.to_message().as_str()),
    }
}

/// The camera faces a stage whose up axis is `Z` as a Z-up scene; any other up axis as Y-up.
pub fn is_z_up(up_axis: &str) -> (r: bool)
    ensures
        r == (up_axis@ == "Z"@),
{
    crate::text::str_eq(up_axis, "Z")
}

/// What the viewport shows where there is no rendered image.
pub fn viewport_placeholder(stage_loaded: bool, renderer_error: Option<&str>) -> (r: String)
    ensures
        !stage_loaded ==> r@ == "No stage loaded — Ctrl+O to open"@,
        stage_loaded && renderer_error is Some ==> r@ == "Renderer unavailable: "@ + renderer_error.unwrap()@,
        stage_loaded && renderer_error is None ==> r@ == "Initializing renderer..."@,
{
    if stage_loaded {
        match renderer_error {
            Some(err) => String::from_str("Renderer unavailable: ").concat(err),
            None => String::from_str("Initializing renderer..."),
        }
    } else {
        String::from_str("No stage loaded — Ctrl+O to open")
    }
}

} // verus!
