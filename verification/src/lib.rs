//! Visual quality control by image differencing.
//!
//! A reference image and a captured image of the same size are compared pixel
//! by pixel on their luma. Pixels whose luma differs by more than a threshold
//! derived from a significance level are painted with a marker colour and
//! listed; the listed points can be reduced to a padded bounding rectangle,
//! the rectangle outlined on the image, and the number of defects related to
//! the image area.

pub mod bounding;
pub mod channel;
pub mod detect;
pub mod error;
pub mod geometry;
pub mod inspect;
pub mod listing;
pub mod overlay;
pub mod paths;
pub mod pixel;
pub mod rate;
pub mod ruler;
pub mod raster;
