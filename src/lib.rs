//! Variable-width stroking of cubic Bezier outlines: the verified planning layer.
//!
//! The numeric geometry (points, curve evaluation, offsetting) works on
//! floating-point values and is driven from the application crate; this
//! library holds the decisions that do not depend on such arithmetic and proves
//! them: validation of command-line values, splitting of width handles into the
//! two side profiles, the shape of each width profile, the placement of joins
//! between offset segments, and the assembly of the stroked contours.

pub mod validators;
pub mod handles;
pub mod profile;
pub mod joins;
pub mod stroke;
pub mod settings;
pub mod search;
pub mod outline;
