//! Verified core of the perspective-rectification tool: tab and point
//! bookkeeping, project-file normalisation, command-line parsing and the
//! integer pixel work of the grid overlay.

pub mod decimal;
pub mod raster;
pub mod overlay;
pub mod session;
pub mod paths;
pub mod project;
pub mod points;
pub mod naming;
pub mod cli;
pub mod files;
