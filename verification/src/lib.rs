//! A frame-synchronous scene-rendering coordinator.
//!
//! A central [`renderer::Renderer`] owns named scenes (camera plus drawable
//! content) and runs a three-phase per-frame protocol — Setup, Render,
//! Submit — that lets independently owned "renderable" participants populate
//! what will be drawn, purely through messages.  Repeated geometry is batched
//! into instanced draw calls; one-off geometry ("things") is replaced
//! wholesale on update.
//!
//! All coordinates are fixed-point integers (see [`geometry`]); the GPU
//! submission itself and the message transport are left to the surrounding
//! program, which receives a full description of each frame as plain data.

pub mod geometry;
pub mod mesh;
pub mod store;
pub mod scene;
pub mod camera;
pub mod renderer;
pub mod frame;
pub mod laws;
pub mod draggable;
