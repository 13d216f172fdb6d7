//! Verified core of a USD scene viewer and editor: the prim hierarchy and its searches, the
//! hierarchy and properties panels, stage edits and their undo blocks, and the viewer's
//! decisions about gizmos, shortcuts and rendering.
pub mod commands;
pub mod edits;
pub mod error;
pub mod fmt;
pub mod hierarchy;
pub mod hydra;
pub mod keyed;
pub mod laws;
pub mod numbers;
pub mod paths;
pub mod properties;
pub mod scene;
pub mod text;
pub mod unicode;
pub mod viewer;

pub use error::{check, CStringArg, DuError, DuStatus};
pub use hierarchy::HierarchyPanel;
pub use hydra::{DisplayMode, NativeTextureInfo, RendererSetting, RendererSettingType, VkImageInfo};
pub use properties::PropertiesPanel;
pub use scene::{Prim, Stage};
pub use viewer::{AntiAliasMode, CameraMode, GizmoMode, GizmoSpace};
