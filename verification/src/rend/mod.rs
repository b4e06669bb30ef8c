pub mod font;
pub mod shader;
pub mod text_pipeline;
pub mod ubo;
