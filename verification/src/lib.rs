//! Verified core of the zeus engine: the wire format of network messages,
//! the index and vertex layouts of generated terrain and water meshes, and a
//! few small tables and state cycles used by the renderer.
pub mod cube;
pub mod cuboid;
pub mod entity;
pub mod kinds;
pub mod lights;
pub mod message;
pub mod noise;
pub mod pod;
pub mod terrain;
pub mod topology;
pub mod water;
