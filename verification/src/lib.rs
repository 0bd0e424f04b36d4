//! Stackpedia: the verified core of a service where developers share the
//! technology stacks of their projects.
pub mod text;
pub mod hexcode;
pub mod ident;
pub mod session;
pub mod models;
pub mod errors;
pub mod auth;
pub mod stacks;
pub mod tools;
pub mod responses;
pub mod comments;
pub mod compare;
pub mod users;
pub mod queries;
pub mod config;
pub mod seed;
pub mod views;
