//! Evaluation core of a feature-flag client: a dynamic flag-value type with
//! its encode/decode contract, feature-state entities with UUID defaulting,
//! and the deterministic multivariate resolution algorithm.

pub mod codec;
pub mod features;
pub mod json;
pub mod strings;
pub mod value;
