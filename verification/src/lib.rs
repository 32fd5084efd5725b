//! Dzahui's verified core: the `.obj` mesh grammar and the mesh facts drawn
//! from it (constant axes, boundary vertices, the bar of a line), the bitmap
//! font description, the OpenGL calls a drawable needs and the steps of
//! building a shader, the window's settings and event-loop decisions, and
//! the logger's file rotation and record format.

pub mod text;
pub mod numbers;
pub mod error;
pub mod obj;
pub mod mesh;
pub mod font;
pub mod logger;
pub mod gl;
pub mod window;
pub mod euler;
