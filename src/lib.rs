/// Facelet addressing, the cube's state and the move engine.
pub mod cube;
/// Typed characters to cube moves.
pub mod input;
/// Frame buffer with a nearest-wins depth test, and its terminal text.
pub mod raster;
