//! Term Dash: the rules of a terminal side-scrolling platformer, verified.
//!
//! The game loop, rendering, physics and audio live in the application; this
//! library holds the decisions that the loop makes on plain values.
pub mod banner;
pub mod camera;
pub mod editor;
pub mod gameplay;
pub mod input;
pub mod layout;
pub mod level;
pub mod menu;
pub mod order;
pub mod paths;
pub mod registry;
pub mod screens;
pub mod state;
