//! Rayo's request-path core: JSON text output, typed path parameters,
//! routing, handler-task bookkeeping and load-balanced dispatch decisions.

pub mod json;
pub mod response;
pub mod params;
pub mod router;
pub mod task;
pub mod text;
pub mod scheduler;
pub mod service;
pub mod shutdown;
