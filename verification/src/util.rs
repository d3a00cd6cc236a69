pub mod context;
pub mod function;
pub mod image;
pub mod init;
pub mod log;
pub mod matrix;
pub mod precision;
pub mod scheduler;
pub mod tensor;
pub mod text;
