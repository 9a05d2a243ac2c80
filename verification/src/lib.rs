//! Verified cores of a small site of canvas demos: the simulation of a
//! two-player Pong game on an integer court, the grid of lights, the vote of
//! the handwriting classifier, and the pages that present them.

pub mod ball;
pub mod game;
pub mod geometry;
pub mod input;
pub mod knn;
pub mod laws;
pub mod led;
pub mod paddle;
pub mod pages;
pub mod render;
pub mod root_laws;
pub mod root_order;
pub mod roots;
pub mod wide;
