//! Verified core of a terminal explorer for first-order ODEs `y' = F(x, y)`.
pub mod text;
pub mod expr;
pub mod app;
pub mod input;
pub mod export;
pub mod solver;
pub mod ui;
pub mod keys;
pub mod numbers;
pub mod format;
