pub mod parser;
pub mod value;
