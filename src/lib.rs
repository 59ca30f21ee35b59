//! Live camera frames composited as a full-screen background behind a 3D scene.
//!
//! The library holds the decisions of the capture-to-composite pipeline:
//! frame buffers and their channel expansion, the latest-wins drain of the
//! capture channel, the frame cache and its per-frame snapshot, the GPU
//! resource cache's update and draw plans, and the splicing of the
//! compositing stage into the host's stage graph.
pub mod cache;
pub mod drain;
pub mod frame;
pub mod gpu;
pub mod graph;
