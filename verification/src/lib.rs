pub mod extract;
pub mod filter;
pub mod pipeline;
pub mod record;
pub mod render;
pub mod text;
pub mod url;
