pub mod board;
pub mod cell;
pub mod laws;
pub mod render;
pub mod rules;
pub mod seeding;
