pub mod expressions;
pub mod monomorphization;
pub mod statements;
pub mod types;
