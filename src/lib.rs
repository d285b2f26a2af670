//! Book recommendation engine: preference learning, candidate filtering,
//! scoring, ranking and explanations over a fixed-point number model.
pub mod units;
pub mod text;
pub mod preference_map;
pub mod entities;
pub mod errors;
mod external;
pub mod recommendation_service;
pub mod preference_learning;
pub mod scoring;
pub mod explanation;
pub mod book_service;
pub mod auth_service;
pub mod settings;
pub mod cloudinary;
pub mod dtos;
pub mod access;
