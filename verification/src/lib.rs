//! Detection and recognition core of a license-plate sentry.
//!
//! Every quantity is a fixed-point integer: coordinates are counted in
//! thousandths of a pixel and confidences and overlap thresholds in parts per
//! million, so that each decision of the pipeline is exact and reproducible.

pub mod geometry;
pub mod imaging;
pub mod text;
pub mod decimal;
pub mod ocr;
pub mod suppression;
pub mod detector;
pub mod notification;
pub mod pipeline;
