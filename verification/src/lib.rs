pub mod column;
pub mod data_frame;
pub mod engine;
pub mod error;
pub mod expr;
pub mod series;
pub mod value;
