//! Optional outputs of a run.

pub mod htmlreport;
pub mod markdown;
pub mod page;
pub mod sections;
