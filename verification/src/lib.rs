pub mod model;
pub mod rend;
pub mod renderer_backend;
