pub mod backend;
pub mod context;
pub mod drawing_laws;
pub mod float;
pub mod frame_laws;
pub mod geometry;
pub mod gl;
pub mod mask_laws;
pub mod mesh;
pub mod object;
pub mod object_laws;
pub mod screen_laws;
pub mod shader;
pub mod upload_laws;
