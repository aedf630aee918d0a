//! Decision-tree cascades over pixel intensities: sliding-window detection,
//! iterative point localization, and ensemble shape regression.
//!
//! The library keeps every model table, geometric computation and tree
//! traversal in verified integer code. Fractional model values (leaf
//! predictions, thresholds, scales) are carried as their raw 32-bit
//! patterns; numeric aggregation over them is left to the embedding
//! application.

pub mod region;
pub mod image;
pub mod transform;
pub mod nodes;
pub mod rect;
pub mod square;
pub mod iou;
pub mod format;
pub mod detector;
pub mod localizer;
pub mod shaper;
pub mod padding;
pub mod multiscale;
pub mod median;
pub mod clusterize;

pub use region::Region;
pub use image::{GrayImage, SaturatedGet, SafeGet, get_nearest_pixel_i64, get_pixel_i64, in_bounds_i64, saturate_bound};
pub use transform::{ISimilarity2, original_transform};
pub use nodes::{ComparisonNode, ThresholdNode, FeatureBintest};
pub use rect::Rect;
pub use square::Square;
pub use iou::intersection_over_union;
pub use format::FormatError;
pub use detector::{Detector, DetectorTree};
pub use localizer::{Localizer, LocalizerTree};
pub use shaper::{Shaper, ShaperForest, ShaperTree, ShaperDelta};
pub use padding::{Padding, PaddingBuilder};
pub use multiscale::{multiscale, multiscale_count, scan_scale, MultiscalerError};
pub use median::odd_median_mut;
pub use clusterize::{clusterize, sort_detections, Detection, Cluster};
