pub mod font;
pub mod mesh;
pub mod pipeline;
pub mod renderer;
