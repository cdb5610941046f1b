pub mod configuration;
pub mod correlation;
pub mod form;
mod outside;
pub mod routes;
pub mod submission;
