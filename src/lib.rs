//! Vector path drawing: straight paths that leave out sharp turns, smooth cubic paths, and
//! nested scenes whose style changes reach every nested scene.
pub mod text;
pub mod path;
pub mod curve;
pub mod style;
pub mod scene;

pub use path::{PointText, straight_path_text};
pub use curve::{Anchors, CubicTo, curve_anchors, curve_path_text};
pub use style::{PointType, Style, StyleChange, Transform, TransformFn};
pub use scene::Svg;
pub use text::int_to_text;
