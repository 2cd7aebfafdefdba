//! A split-screen wireframe shooter for up to four players: the rules of the game, verified.
//!
//! Players stand in a wireframe box, look around with a mouse each, move with a keyboard each, and
//! shoot at one another; whoever is hit comes back at a random place. The library holds everything
//! about this that is exact: who owns which device, what keys and mice do, where players start and
//! where the walls stop them, who is moved by a shot, how the window is split between the players,
//! and which line segments make up a frame.

pub mod app;
pub mod devices;
pub mod frame;
pub mod game;
pub mod gpu;
pub mod input;
pub mod map;
pub mod motion;
pub mod random;
pub mod scene;
pub mod single;
