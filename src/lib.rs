pub mod controller;
pub mod entities;
pub mod laws;
pub mod persistence;
pub mod trash;
