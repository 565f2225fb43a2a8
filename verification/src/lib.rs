pub mod app;
pub mod code_block;
pub mod content;
pub mod events;
pub mod highlight;
pub mod markdown;
pub mod models;
pub mod render_spec;
pub mod style;
pub mod table;
pub mod text;
pub mod render_laws;
