pub mod guess;
pub mod rect;
pub mod stats;
pub mod text;
