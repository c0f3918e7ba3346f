//! Camera-driven steering for a model vehicle: frame framing on the wire,
//! colour segmentation, horizon estimation, and the steering/speed law.

pub mod control;
pub mod drive;
pub mod horizon;
pub mod image;
pub mod protocol;
pub mod segmentation;
pub mod tuning;
