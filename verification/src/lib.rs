pub mod state;
pub mod text;
pub mod tokens;
pub mod types;
pub mod parser;
pub mod duration;
pub mod codegen;
pub mod laws;
pub mod session;
pub mod render;
pub mod font;
pub mod vars;
pub mod markup;
