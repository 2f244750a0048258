//! Daily-sequenced serial code issuing: a verified model of the code
//! sequence engine, the credential and token services, the user/code
//! store, and the request guard that protects every route.

pub mod errors;
pub mod forms;
pub mod middleware;
pub mod models;
pub mod password;
pub mod sequence;
pub mod store;
pub mod text;
pub mod token;
pub mod views;
