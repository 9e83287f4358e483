//! Status-line building blocks: text helpers, token and cost accounting,
//! timestamp parsing and the small formatting rules of a terminal status line.

pub mod color;
pub mod cost;
pub mod format;
pub mod json;
pub mod models;
pub mod text;
pub mod timestamp;
pub mod tokens;
