pub mod dom;
pub mod fatal_model;
