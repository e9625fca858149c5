//! A minimal, verified HTTP/1.1-style request engine for an in-memory
//! recipe service: request parsing, route dispatch, response formatting,
//! a JSON codec for the recipe shape, and the CRUD store behind it.

pub mod json;
pub mod controller;
pub mod dispatch;
pub mod model;
pub mod request;
pub mod response;
pub mod server;
pub mod store;
pub mod text;
