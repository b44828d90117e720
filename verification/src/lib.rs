//! The decision layer of Sin90's HTTP service: who may call what, what each
//! request turns into, and what the AI runs are allowed to propose again.
pub mod http;
pub mod ids;
pub mod json;
pub mod lists;
pub mod model;
pub mod routes;
pub mod text;
