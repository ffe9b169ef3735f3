//! Verified core of a structural reference-line (grid) drawing generator.
//!
//! A compact grid description — axis counts, inter-axis spans, floor
//! heights and optional layer/label names — is turned into a drawing
//! model: orthogonal construction lines, ordinate dimensions and axis
//! labels, grouped on named layers.  The drawing model is a plain value;
//! persisting it into a CAD container is left to the surrounding program.

pub mod compose;
pub mod coords;
pub mod drawing;
pub mod grid;
