//! Greedy line breaking for text boxes: a tokenizer, a horizontal and a
//! vertical cursor, space width policies, alignment policies and the line
//! element iterator that turns a token stream into placement instructions.

pub mod geometry;
pub mod cursor;
pub mod parser;
pub mod space_config;
pub mod line_iter;
pub mod alignment;
pub mod laws;
