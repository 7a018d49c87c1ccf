pub mod report;
pub mod text;
pub mod api;
pub mod metadata;
pub mod assess;
