pub mod built_in;
pub mod error;
pub mod eval;
pub mod language;
pub mod laws;
pub mod list;
pub mod parse;
pub mod pretty;
pub mod reread;
pub mod text;
pub mod value;
