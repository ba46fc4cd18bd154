//! Verified core of a 3D scene viewer.
//!
//! The viewer reads assets with an outside reader, draws them on a graphics
//! device and lets the user pick meshes with the mouse. This crate holds what
//! the viewer decides, with contracts that state each decision exactly:
//!
//! - `scene`: the scene graph as a reader hands it over;
//! - `traverse`: the walk over the graph that lists its meshes in order;
//! - `material`: from a material's property bag to colours;
//! - `texture`: which textures are loaded and which are reused;
//! - `import`: the import as a whole, step by step;
//! - `mesh`: the drawable entities that an import produces;
//! - `pick`: which mesh a ray picks;
//! - `state`: the scene, the selection and the log of the viewer;
//! - `log`, `warning`: messages for the user;
//! - `scalar`, `text`, `paths`: numbers, strings and file paths as the rest
//!   uses them.
//!
//! Arithmetic on coordinates and access to files and to the device stay with
//! the host program. The crate carries coordinates by their bit patterns and
//! tells the host what to compute or load, and takes the answers.

pub mod import;
pub mod log;
pub mod material;
pub mod mesh;
pub mod paths;
pub mod pick;
pub mod scalar;
pub mod scene;
pub mod state;
pub mod text;
pub mod texture;
pub mod traverse;
pub mod warning;
