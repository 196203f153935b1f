//! Static analysis of service models: structural validation of the
//! declared model and verification of the requirements it declares,
//! with every verdict rendered as diagnostics and as an obligation
//! report.

pub mod diagnostic;
pub mod model;
pub mod report;
pub mod text;
pub mod validation;
pub mod verification;
