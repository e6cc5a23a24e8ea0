//! Global illumination: resource planning for the screen-space and
//! probe-based providers, over a model of the frame's render graph.
pub mod ddgi;
pub mod graph;
pub mod providers;
pub mod runtime;
pub mod ssgi;
